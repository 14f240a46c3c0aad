//! The session state a browser engine keeps between requests: the latest
//! observation, the open tabs, the iframe stack and pending downloads.
use vstd::prelude::*;
use crate::actions::ActionKind;
use crate::error::Error;
use crate::snapshot::{
    PageSnapshot, SnapshotDiff, added_of, changed_of, diff_entries, diff_snapshots, find_node_by_ref, forest_view,
    has_ref, summaries_view,
};
use crate::text::{eq_str, str_eq};

verus! {

/// The latest page observation: the snapshot and the page and frame it was
/// taken in.
pub struct Observation {
    pub snapshot: PageSnapshot,
    pub page_id: String,
    pub frame_id: Option<String>,
}

/// The latest observation and the delta it produced.
pub struct ObservationState {
    pub current: Option<Observation>,
    pub last_diff: Option<SnapshotDiff>,
}

/// The view of an optional string.
pub open spec fn opt_seq(o: Option<String>) -> Option<Seq<char>> {
    match o {
        Some(s) => Some(s@),
        None => None,
    }
}

/// Whether a snapshot reference may be used now, and the error otherwise:
/// there must be an observation, with the same snapshot id, taken in the
/// active page (`page_id`, `None` when there is no active page) and frame,
/// and holding `ref_id` when one is given.
pub open spec fn validation(
    current: Option<Observation>,
    snapshot_id: Seq<char>,
    ref_id: Option<Seq<char>>,
    page_id: Option<Seq<char>>,
    frame_id: Option<Seq<char>>,
    r: Result<Seq<char>, Error>,
) -> bool {
    match current {
        None => r matches Err(Error::StaleSnapshot { expected, current }) && expected@ == snapshot_id
            && current@ == "none"@,
        Some(obs) => if obs.snapshot.snapshot_id@ != snapshot_id {
            r matches Err(Error::StaleSnapshot { expected, current }) && expected@ == snapshot_id
                && current@ == obs.snapshot.snapshot_id@
        } else if page_id is None {
            r matches Err(Error::NoActivePage)
        } else if Some(obs.page_id@) != page_id || opt_seq(obs.frame_id) != frame_id {
            r matches Err(Error::StaleSnapshot { expected, current }) && expected@ == snapshot_id
                && current@ == "page-context-changed"@
        } else {
            match ref_id {
                Some(id) => if has_ref(forest_view(obs.snapshot.nodes@), id) {
                    r == Ok::<Seq<char>, Error>(obs.snapshot.url@)
                } else {
                    r matches Err(Error::ElementNotFound(e)) && e@ == id
                },
                None => r == Ok::<Seq<char>, Error>(obs.snapshot.url@),
            }
        },
    }
}

fn opt_str_eq(a: &Option<String>, b: Option<&str>) -> (r: bool)
    ensures
        r == (opt_seq(*a) == match b {
            Some(s) => Some(s@),
            None => None,
        }),
{
    match (a, b) {
        (Some(x), Some(y)) => eq_str(x, y),
        (None, None) => true,
        _ => false,
    }
}

impl ObservationState {
    /// No observation yet.
    pub fn new() -> (s: Self)
        ensures
            s.current is None,
            s.last_diff is None,
    {
        ObservationState { current: None, last_diff: None }
    }

    /// Records a new observation; the delta from the previous observation
    /// (when there was one) becomes the latest diff.
    pub fn record(&mut self, snapshot: PageSnapshot, page_id: String, frame_id: Option<String>)
        ensures
            final(self).current matches Some(obs) && obs.snapshot == snapshot && obs.page_id == page_id
                && obs.frame_id == frame_id,
            old(self).current is None ==> final(self).last_diff is None,
            old(self).current matches Some(prev) ==> (final(self).last_diff matches Some(d)
                && d.from_snapshot_id@ == prev.snapshot.snapshot_id@
                && d.to_snapshot_id@ == snapshot.snapshot_id@ && summaries_view(d.added@) == added_of(
                diff_entries(forest_view(snapshot.nodes@), "root"@),
                diff_entries(forest_view(prev.snapshot.nodes@), "root"@),
            ) && summaries_view(d.removed@) == added_of(
                diff_entries(forest_view(prev.snapshot.nodes@), "root"@),
                diff_entries(forest_view(snapshot.nodes@), "root"@),
            ) && summaries_view(d.changed@) == changed_of(
                diff_entries(forest_view(snapshot.nodes@), "root"@),
                diff_entries(forest_view(prev.snapshot.nodes@), "root"@),
            )),
    {
        self.last_diff = match &self.current {
            Some(prev) => Some(diff_snapshots(&prev.snapshot, &snapshot)),
            None => None,
        };
        self.current = Some(Observation { snapshot, page_id, frame_id });
    }

    /// Forgets the observation (the page or frame context changed).
    pub fn invalidate(&mut self)
        ensures
            final(self).current is None,
            final(self).last_diff == old(self).last_diff,
    {
        self.current = None;
    }

    /// Forgets the observation and the latest diff.
    pub fn reset(&mut self)
        ensures
            final(self).current is None,
            final(self).last_diff is None,
    {
        self.current = None;
        self.last_diff = None;
    }

    /// The id of the latest snapshot.
    pub fn current_snapshot_id(&self) -> (r: Option<String>)
        ensures
            match self.current {
                Some(obs) => r matches Some(id) && id@ == obs.snapshot.snapshot_id@,
                None => r is None,
            },
    {
        match &self.current {
            Some(obs) => Some(obs.snapshot.snapshot_id.clone()),
            None => None,
        }
    }

    /// Checks that a snapshot reference may be used in the active context,
    /// and returns the URL the snapshot was taken at.
    pub fn validate(
        &self,
        snapshot_id: &str,
        ref_id: Option<&str>,
        page_id: Option<&str>,
        frame_id: Option<&str>,
    ) -> (r: Result<String, Error>)
        ensures
            validation(
                self.current,
                snapshot_id@,
                match ref_id {
                    Some(x) => Some(x@),
                    None => None,
                },
                match page_id {
                    Some(x) => Some(x@),
                    None => None,
                },
                match frame_id {
                    Some(x) => Some(x@),
                    None => None,
                },
                match r {
                    Ok(u) => Ok(u@),
                    Err(e) => Err(e),
                },
            ),
    {
        let obs = match &self.current {
            None => {
                return Err(
                    Error::StaleSnapshot {
                        expected: String::from_str(snapshot_id),
                        current: String::from_str("none"),
                    },
                );
            },
            Some(o) => o,
        };
        if !eq_str(&obs.snapshot.snapshot_id, snapshot_id) {
            return Err(
                Error::StaleSnapshot {
                    expected: String::from_str(snapshot_id),
                    current: obs.snapshot.snapshot_id.clone(),
                },
            );
        }
        let page = match page_id {
            None => {
                return Err(Error::NoActivePage);
            },
            Some(p) => p,
        };
        if !eq_str(&obs.page_id, page) || !opt_str_eq(&obs.frame_id, frame_id) {
            return Err(
                Error::StaleSnapshot {
                    expected: String::from_str(snapshot_id),
                    current: String::from_str("page-context-changed"),
                },
            );
        }
        match ref_id {
            Some(id) => {
                if find_node_by_ref(obs.snapshot.nodes.as_slice(), id).is_none() {
                    return Err(Error::ElementNotFound(String::from_str(id)));
                }
                proof {
                    let flat = crate::snapshot::flatten(forest_view(obs.snapshot.nodes@));
                    let k = choose|k: int|
                        crate::snapshot::is_first_ref(flat, id@, k) && #[trigger] flat[k] == flat[k];
                    assert(flat[k].ref_id == id@);
                }
            },
            None => {},
        }
        Ok(obs.snapshot.url.clone())
    }
}

/// An action goes ahead only on the page its snapshot was taken of: a page
/// now at another URL is refused as changed, naming both URLs.
pub fn check_page_unchanged(expected_url: &str, current_url: &str) -> (r: Result<(), Error>)
    ensures
        expected_url@ == current_url@ ==> r is Ok,
        expected_url@ != current_url@ ==> (r matches Err(Error::PageChanged { expected, current })
            && expected@ == expected_url@ && current@ == current_url@),
{
    if str_eq(expected_url, current_url) {
        Ok(())
    } else {
        Err(Error::PageChanged { expected: String::from_str(expected_url), current: String::from_str(current_url) })
    }
}

/// The reference an action must find in its snapshot: every action but
/// scrolling and waiting acts on the referenced element.
pub fn action_target<'a>(action: &ActionKind, ref_id: &'a str) -> (r: Option<&'a str>)
    ensures
        (action matches ActionKind::Scroll { .. } || action matches ActionKind::Wait { .. }) ==> r is None,
        !(action matches ActionKind::Scroll { .. } || action matches ActionKind::Wait { .. }) ==> r == Some(ref_id),
{
    match action {
        ActionKind::Scroll { .. } | ActionKind::Wait { .. } => None,
        _ => Some(ref_id),
    }
}

} // verus!

verus! {

/// The open tabs of a session and the active one.
pub struct TabRegistry {
    tabs: Vec<String>,
    active: Option<String>,
}

/// The model of a tab registry: tab ids in opening order, and the active id.
pub struct TabsView {
    pub tabs: Seq<Seq<char>>,
    pub active: Option<Seq<char>>,
}

impl View for TabRegistry {
    type V = TabsView;

    closed spec fn view(&self) -> TabsView {
        TabsView {
            tabs: Seq::new(self.tabs@.len(), |i: int| self.tabs@[i]@),
            active: opt_seq(self.active),
        }
    }
}

impl TabRegistry {
    /// Tab ids are distinct and the active tab is an open tab.
    pub closed spec fn wf(&self) -> bool {
        &&& self@.tabs.no_duplicates()
        &&& match self@.active {
            Some(a) => self@.tabs.contains(a),
            None => true,
        }
    }

    /// No tabs.
    pub fn new() -> (r: Self)
        ensures
            r.wf(),
            r@.tabs.len() == 0,
            r@.active is None,
    {
        let r = TabRegistry { tabs: Vec::new(), active: None };
        proof {
            assert(r@.tabs =~= Seq::<Seq<char>>::empty());
        }
        r
    }

    fn position(&self, id: &str) -> (r: Option<usize>)
        ensures
            match r {
                Some(i) => i < self@.tabs.len() && self@.tabs[i as int] == id@,
                None => !self@.tabs.contains(id@),
            },
    {
        let mut i: usize = 0;
        while i < self.tabs.len()
            invariant
                i <= self.tabs.len(),
                forall|j: int| 0 <= j < i ==> self@.tabs[j] != id@,
            decreases self.tabs.len() - i,
        {
            proof {
                assert(self@.tabs[i as int] == self.tabs@[i as int]@);
            }
            if eq_str(&self.tabs[i], id) {
                return Some(i);
            }
            i = i + 1;
        }
        None
    }

    /// Whether a tab is open.
    pub fn contains(&self, id: &str) -> (r: bool)
        ensures
            r == self@.tabs.contains(id@),
    {
        self.position(id).is_some()
    }

    /// The active tab id.
    pub fn active(&self) -> (r: Option<String>)
        ensures
            opt_seq(r) == self@.active,
    {
        match &self.active {
            Some(a) => Some(a.clone()),
            None => None,
        }
    }

    /// The open tab ids, in opening order.
    pub fn ids(&self) -> (r: Vec<String>)
        ensures
            Seq::new(r@.len(), |i: int| r@[i]@) == self@.tabs,
    {
        let mut r: Vec<String> = Vec::new();
        let mut i: usize = 0;
        while i < self.tabs.len()
            invariant
                i <= self.tabs.len(),
                r@.len() == i,
                forall|j: int| 0 <= j < i ==> r@[j]@ == self.tabs@[j]@,
            decreases self.tabs.len() - i,
        {
            r.push(self.tabs[i].clone());
            i = i + 1;
        }
        proof {
            assert(Seq::new(r@.len(), |i: int| r@[i]@) =~= self@.tabs);
        }
        r
    }

    /// Opens a new tab with a fresh id and makes it active.
    pub fn open(&mut self, id: String)
        requires
            old(self).wf(),
            !old(self)@.tabs.contains(id@),
        ensures
            final(self).wf(),
            final(self)@.tabs == old(self)@.tabs.push(id@),
            final(self)@.active == Some(id@),
    {
        let ghost before = self@.tabs;
        self.tabs.push(id.clone());
        self.active = Some(id);
        proof {
            assert(self@.tabs =~= before.push(id@));
            assert(self@.tabs[before.len() as int] == id@);
            assert forall|a: int, b: int| 0 <= a < b < self@.tabs.len() implies self@.tabs[a]
                != self@.tabs[b] by {
                if b == before.len() {
                    assert(before[a] != id@) by {
                        if before[a] == id@ {
                            assert(before.contains(id@));
                        }
                    }
                } else {
                    assert(before[a] != before[b]);
                }
            }
        }
    }

    /// After a navigation: when no tab is active, the page becomes a new
    /// tab `fresh_id` (a fresh id) and is active; otherwise nothing changes.
    /// Returns whether the fresh id was used.
    pub fn register_navigation(&mut self, fresh_id: String) -> (used: bool)
        requires
            old(self).wf(),
            !old(self)@.tabs.contains(fresh_id@),
        ensures
            final(self).wf(),
            used == old(self)@.active is None,
            used ==> final(self)@.tabs == old(self)@.tabs.push(fresh_id@) && final(self)@.active == Some(
                fresh_id@,
            ),
            !used ==> final(self)@ == old(self)@,
    {
        if self.active.is_none() {
            self.open(fresh_id);
            true
        } else {
            false
        }
    }

    /// Makes an open tab active; an unknown tab is an error and changes nothing.
    pub fn activate(&mut self, id: &str) -> (r: Result<(), Error>)
        requires
            old(self).wf(),
        ensures
            final(self).wf(),
            old(self)@.tabs.contains(id@) ==> r is Ok && final(self)@.tabs == old(self)@.tabs
                && final(self)@.active == Some(id@),
            !old(self)@.tabs.contains(id@) ==> (r matches Err(Error::Other(m)) && m@ == "Tab not found: "@
                + id@) && final(self)@ == old(self)@,
    {
        match self.position(id) {
            None => {
                let mut m = String::from_str("Tab not found: ");
                m.append(id);
                Err(Error::Other(m))
            },
            Some(i) => {
                self.active = Some(String::from_str(id));
                proof {
                    assert(self@.tabs[i as int] == id@);
                }
                Ok(())
            },
        }
    }

    /// Closes an open tab. When it was the active one, the first remaining
    /// tab (if any) becomes active. Returns whether the closed tab was active.
    pub fn close(&mut self, id: &str) -> (r: Result<bool, Error>)
        requires
            old(self).wf(),
        ensures
            final(self).wf(),
            !old(self)@.tabs.contains(id@) ==> (r matches Err(Error::Other(m)) && m@ == "Tab not found: "@
                + id@) && final(self)@ == old(self)@,
            old(self)@.tabs.contains(id@) ==> {
                &&& r matches Ok(was_active)
                &&& was_active == (old(self)@.active == Some(id@))
                &&& final(self)@.tabs == old(self)@.tabs.remove(old(self)@.tabs.index_of(id@))
                &&& !final(self)@.tabs.contains(id@)
                &&& was_active ==> final(self)@.active == (if final(self)@.tabs.len() > 0 {
                    Some(final(self)@.tabs[0])
                } else {
                    None
                })
                &&& !was_active ==> final(self)@.active == old(self)@.active
            },
    {
        let i = match self.position(id) {
            None => {
                let mut m = String::from_str("Tab not found: ");
                m.append(id);
                return Err(Error::Other(m));
            },
            Some(i) => i,
        };
        let ghost before = self@;
        proof {
            assert(before.tabs.index_of(id@) == i as int) by {
                let k = before.tabs.index_of(id@);
                assert(before.tabs.contains(id@));
                assert(before.tabs[k] == id@);
                if k != i as int {
                    assert(before.tabs[k] == before.tabs[i as int]);
                }
            }
        }
        let was_active = match &self.active {
            Some(a) => str_eq(a.as_str(), id),
            None => false,
        };
        self.tabs.remove(i);
        proof {
            assert(self@.tabs =~= before.tabs.remove(i as int));
            assert forall|a: int, b: int| 0 <= a < b < self@.tabs.len() implies self@.tabs[a]
                != self@.tabs[b] by {
                let a2 = if a < i { a } else { a + 1 };
                let b2 = if b < i { b } else { b + 1 };
                assert(self@.tabs[a] == before.tabs[a2]);
                assert(self@.tabs[b] == before.tabs[b2]);
            }
            assert(!self@.tabs.contains(id@)) by {
                if self@.tabs.contains(id@) {
                    let k = choose|k: int| 0 <= k < self@.tabs.len() && self@.tabs[k] == id@;
                    let k2 = if k < i { k } else { k + 1 };
                    assert(before.tabs[k2] == id@);
                    assert(before.tabs[k2] == before.tabs[i as int]);
                }
            }
        }
        if was_active {
            if self.tabs.len() > 0 {
                self.active = Some(self.tabs[0].clone());
                proof {
                    assert(self@.tabs.contains(self@.tabs[0]));
                }
            } else {
                self.active = None;
            }
        } else {
            proof {
                match before.active {
                    Some(a) => {
                        assert(a != id@);
                        let k = choose|k: int| 0 <= k < before.tabs.len() && before.tabs[k] == a;
                        assert(k != i);
                        let k2 = if k < i { k } else { k - 1 };
                        assert(self@.tabs[k2] == a);
                    },
                    None => {},
                }
            }
        }
        Ok(was_active)
    }

    /// Forgets every tab.
    pub fn clear(&mut self)
        ensures
            final(self).wf(),
            final(self)@.tabs.len() == 0,
            final(self)@.active is None,
    {
        self.tabs = Vec::new();
        self.active = None;
        proof {
            assert(self@.tabs =~= Seq::<Seq<char>>::empty());
        }
    }
}

/// The stack of entered iframes, innermost last; each entry carries the
/// frame id and what the caller keeps with it.
pub struct FrameStack<T> {
    frames: Vec<(String, T)>,
}

impl<T> View for FrameStack<T> {
    type V = Seq<(Seq<char>, T)>;

    closed spec fn view(&self) -> Seq<(Seq<char>, T)> {
        Seq::new(self.frames@.len(), |i: int| (self.frames@[i].0@, self.frames@[i].1))
    }
}

impl<T> FrameStack<T> {
    /// The main document (no iframe entered).
    pub fn new() -> (r: Self)
        ensures
            r@.len() == 0,
    {
        let r = FrameStack { frames: Vec::new() };
        proof {
            assert(r@ =~= Seq::<(Seq<char>, T)>::empty());
        }
        r
    }

    /// The number of entered iframes.
    pub fn depth(&self) -> (r: usize)
        ensures
            r == self@.len(),
    {
        self.frames.len()
    }

    /// The active frame: the innermost entered iframe, none in the main document.
    pub fn active_frame(&self) -> (r: Option<&String>)
        ensures
            match r {
                Some(f) => self@.len() > 0 && f@ == self@.last().0,
                None => self@.len() == 0,
            },
    {
        if self.frames.len() == 0 {
            None
        } else {
            Some(&self.frames[self.frames.len() - 1].0)
        }
    }

    /// The data kept with the innermost entered iframe: what the last
    /// `enter` still on the stack was given.
    pub fn active_data(&self) -> (r: Option<&T>)
        ensures
            match r {
                Some(d) => self@.len() > 0 && *d == self@.last().1,
                None => self@.len() == 0,
            },
    {
        if self.frames.len() == 0 {
            None
        } else {
            Some(&self.frames[self.frames.len() - 1].1)
        }
    }

    /// Enters an iframe; returns the new depth.
    pub fn enter(&mut self, frame_id: String, data: T) -> (depth: usize)
        requires
            old(self)@.len() < usize::MAX,
        ensures
            final(self)@ == old(self)@.push((frame_id@, data)),
            depth == final(self)@.len(),
    {
        let ghost before = self@;
        self.frames.push((frame_id, data));
        proof {
            assert(self@ =~= before.push((frame_id@, data)));
        }
        self.frames.len()
    }

    /// Leaves the innermost iframe (nothing happens in the main document);
    /// returns the new depth.
    pub fn exit(&mut self) -> (depth: usize)
        ensures
            old(self)@.len() > 0 ==> final(self)@ == old(self)@.drop_last(),
            old(self)@.len() == 0 ==> final(self)@ == old(self)@,
            depth == final(self)@.len(),
    {
        let ghost before = self@;
        if self.frames.len() > 0 {
            let _ = self.frames.pop();
            proof {
                assert(self@ =~= before.drop_last());
            }
        }
        self.frames.len()
    }

    /// Returns to the main document.
    pub fn exit_all(&mut self)
        ensures
            final(self)@.len() == 0,
    {
        self.frames = Vec::new();
        proof {
            assert(self@ =~= Seq::<(Seq<char>, T)>::empty());
        }
    }
}

} // verus!

verus! {

/// What `Path::file_name` gives for a path (lossily converted to UTF-8).
pub uninterp spec fn path_file_name(path: Seq<char>) -> Option<Seq<char>>;

/// What `Path::join` gives for a directory and a file name (lossily
/// converted to UTF-8).
pub uninterp spec fn path_join(dir: Seq<char>, name: Seq<char>) -> Seq<char>;

/// The last component of a path, with `std::path::Path::file_name`.
///
/// Trusted: the result is `path_file_name` of the input.
#[verifier::external_body]
fn file_name_of(path: &str) -> (r: Option<String>)
    ensures
        opt_seq(r) == path_file_name(path@),
{
    std::path::Path::new(path).file_name().map(|n| n.to_string_lossy().into_owned())
}

/// A path inside a directory, with `std::path::Path::join`.
///
/// Trusted: the result is `path_join` of the inputs.
#[verifier::external_body]
pub(crate) fn join_path(dir: &str, name: &str) -> (r: String)
    ensures
        r@ == path_join(dir@, name@),
{
    std::path::Path::new(dir).join(name).to_string_lossy().into_owned()
}

/// The state a download reports.
#[derive(Debug, Clone, Copy, PartialEq, Eq, Structural)]
pub enum ProgressState {
    InProgress,
    Completed,
    Canceled,
}

/// A download event of the browser.
pub enum DownloadEvent {
    /// A download starts, with the file name the page suggests.
    Begin { guid: String, suggested_filename: String },
    /// A download progresses, completes or is canceled.
    Progress { guid: String, state: ProgressState, received_bytes: u64, file_path: Option<String> },
}

/// What to do after a download event.
pub enum DownloadStep {
    /// Keep waiting.
    Continue,
    /// The download failed.
    Failed(Error),
    /// The download completed.
    Done(crate::types::DownloadResult),
}

/// Follows the downloads of a page until the awaited one (or, without a
/// GUID, the first one) ends.
pub struct DownloadTracker {
    pub guid: Option<String>,
    pub download_dir: Option<String>,
    /// The suggested file names of started downloads, by GUID (latest first).
    pub names: Vec<(String, String)>,
}

/// The file name recorded for a download (the first record for the GUID).
pub open spec fn name_for(names: Seq<(String, String)>, guid: Seq<char>) -> Option<Seq<char>>
    decreases names.len(),
{
    if names.len() == 0 {
        None
    } else if names[0].0@ == guid {
        Some(names[0].1@)
    } else {
        name_for(names.drop_first(), guid)
    }
}

/// The file name of a completed download: the one its start suggested, else
/// the last component of its path, else `download-<guid>`.
pub open spec fn completed_name(names: Seq<(String, String)>, guid: Seq<char>, file_path: Option<Seq<char>>) -> Seq<char> {
    match name_for(names, guid) {
        Some(n) => n,
        None => match file_path {
            Some(p) => match path_file_name(p) {
                Some(n) => n,
                None => "download-"@ + guid,
            },
            None => "download-"@ + guid,
        },
    }
}

impl DownloadTracker {
    /// The recorded file names, by GUID.
    pub open spec fn names(&self) -> Seq<(String, String)> {
        self.names@
    }

    /// Starts following downloads: the one with `guid`, or the first to end.
    pub fn new(guid: Option<String>, download_dir: Option<String>) -> (r: Self)
        ensures
            r.guid == guid,
            r.download_dir == download_dir,
            r.names().len() == 0,
    {
        DownloadTracker { guid, download_dir, names: Vec::new() }
    }

    fn recorded_name(&self, guid: &String) -> (r: Option<String>)
        ensures
            opt_seq(r) == name_for(self.names(), guid@),
    {
        let mut i: usize = 0;
        proof {
            assert(self.names@.skip(0) =~= self.names@);
        }
        while i < self.names.len()
            invariant
                i <= self.names.len(),
                name_for(self.names@, guid@) == name_for(self.names@.skip(i as int), guid@),
            decreases self.names.len() - i,
        {
            proof {
                assert(self.names@.skip(i as int).drop_first() =~= self.names@.skip(i + 1));
                assert(self.names@.skip(i as int)[0] == self.names@[i as int]);
            }
            if self.names[i].0 == *guid {
                return Some(self.names[i].1.clone());
            }
            i = i + 1;
        }
        proof {
            assert(self.names@.skip(i as int) =~= Seq::<(String, String)>::empty());
        }
        None
    }

    /// Takes one download event into account.
    ///
    /// A start records the suggested file name. Progress of another
    /// download than the awaited one, and progress still under way, mean
    /// waiting on; a cancellation fails; a completion gives the result:
    /// the file name (see [`completed_name`]), the reported path or else the
    /// file name inside the download directory (an error without either),
    /// and the received size.
    pub fn on_event(&mut self, event: DownloadEvent) -> (r: DownloadStep)
        ensures
            final(self).guid == old(self).guid,
            final(self).download_dir == old(self).download_dir,
            match event {
                DownloadEvent::Begin { guid, suggested_filename } => r matches DownloadStep::Continue
                    && final(self).names() == old(self).names().insert(0, (guid, suggested_filename)),
                DownloadEvent::Progress { guid, state, received_bytes, file_path } => {
                    &&& final(self).names() == old(self).names()
                    &&& if old(self).guid matches Some(g) && g@ != guid@ {
                        r matches DownloadStep::Continue
                    } else if state == ProgressState::InProgress {
                        r matches DownloadStep::Continue
                    } else if state == ProgressState::Canceled {
                        r matches DownloadStep::Failed(Error::Other(m)) && m@ == "Download canceled: "@
                            + guid@
                    } else {
                        let name = completed_name(old(self).names(), guid@, opt_seq(file_path));
                        match file_path {
                            Some(p) => r matches DownloadStep::Done(d) && d.file_path@ == p@
                                && d.filename@ == name && d.guid@ == guid@ && d.size == Some(
                                received_bytes,
                            ) && d.mime_type is None && d.status
                                == crate::types::DownloadStatus::Completed,
                            None => match old(self).download_dir {
                                Some(dir) => r matches DownloadStep::Done(d) && d.file_path@
                                    == path_join(dir@, name) && d.filename@ == name && d.guid@
                                    == guid@ && d.size == Some(received_bytes) && d.mime_type is None
                                    && d.status == crate::types::DownloadStatus::Completed,
                                None => r matches DownloadStep::Failed(Error::Other(m)) && m@
                                    == "Download completed without a file path"@,
                            },
                        }
                    }
                },
            },
    {
        match event {
            DownloadEvent::Begin { guid, suggested_filename } => {
                self.names.insert(0, (guid, suggested_filename));
                DownloadStep::Continue
            },
            DownloadEvent::Progress { guid, state, received_bytes, file_path } => {
                match &self.guid {
                    Some(g) => {
                        if *g != guid {
                            return DownloadStep::Continue;
                        }
                    },
                    None => {},
                }
                match state {
                    ProgressState::InProgress => DownloadStep::Continue,
                    ProgressState::Canceled => {
                        let mut m = String::from_str("Download canceled: ");
                        m.append(guid.as_str());
                        DownloadStep::Failed(Error::Other(m))
                    },
                    ProgressState::Completed => {
                        let filename = match self.recorded_name(&guid) {
                            Some(n) => n,
                            None => {
                                let from_path = match &file_path {
                                    Some(p) => file_name_of(p.as_str()),
                                    None => None,
                                };
                                match from_path {
                                    Some(n) => n,
                                    None => {
                                        let mut n = String::from_str("download-");
                                        n.append(guid.as_str());
                                        n
                                    },
                                }
                            },
                        };
                        let path = match file_path {
                            Some(p) => p,
                            None => match &self.download_dir {
                                Some(dir) => join_path(dir.as_str(), filename.as_str()),
                                None => {
                                    return DownloadStep::Failed(
                                        Error::Other(
                                            String::from_str("Download completed without a file path"),
                                        ),
                                    );
                                },
                            },
                        };
                        DownloadStep::Done(
                            crate::types::DownloadResult {
                                guid,
                                filename,
                                file_path: path,
                                size: Some(received_bytes),
                                mime_type: None,
                                status: crate::types::DownloadStatus::Completed,
                            },
                        )
                    },
                }
            },
        }
    }
}

} // verus!

verus! {

/// A reference of the latest snapshot, used in the page and frame the
/// snapshot was taken in, is accepted, and the answer is the URL the
/// snapshot was taken at.
pub proof fn law_fresh_reference_accepted(obs: Observation, ref_id: Seq<char>, r: Result<Seq<char>, Error>)
    requires
        has_ref(forest_view(obs.snapshot.nodes@), ref_id),
        validation(Some(obs), obs.snapshot.snapshot_id@, Some(ref_id), Some(obs.page_id@), opt_seq(obs.frame_id), r),
    ensures
        r == Ok::<Seq<char>, Error>(obs.snapshot.url@),
{
}

/// Once another snapshot is the latest, a reference into an older one is
/// refused as stale, naming the snapshot it expected and the current one;
/// with no observation at all it is refused as stale too.
pub proof fn law_replaced_snapshot_is_stale(
    current: Option<Observation>,
    snapshot_id: Seq<char>,
    ref_id: Option<Seq<char>>,
    page_id: Option<Seq<char>>,
    frame_id: Option<Seq<char>>,
    r: Result<Seq<char>, Error>,
)
    requires
        validation(current, snapshot_id, ref_id, page_id, frame_id, r),
        current matches Some(obs) ==> obs.snapshot.snapshot_id@ != snapshot_id,
    ensures
        r matches Err(Error::StaleSnapshot { expected, current: now }) && expected@ == snapshot_id && now@ == (
        match current {
            Some(obs) => obs.snapshot.snapshot_id@,
            None => "none"@,
        }),
{
}

/// A reference used in another page or frame than its snapshot's is
/// refused as stale, even when the snapshot is the latest.
pub proof fn law_context_change_is_stale(
    obs: Observation,
    ref_id: Option<Seq<char>>,
    page_id: Seq<char>,
    frame_id: Option<Seq<char>>,
    r: Result<Seq<char>, Error>,
)
    requires
        validation(Some(obs), obs.snapshot.snapshot_id@, ref_id, Some(page_id), frame_id, r),
        page_id != obs.page_id@ || frame_id != opt_seq(obs.frame_id),
    ensures
        r matches Err(Error::StaleSnapshot { current, .. }) && current@ == "page-context-changed"@,
{
}

/// Entering an iframe and leaving it again restores the frame stack, and
/// while inside, that iframe is the active frame and its data the active
/// data.
pub proof fn law_enter_exit_restores<T>(stack: Seq<(Seq<char>, T)>, frame_id: Seq<char>, data: T)
    ensures
        stack.push((frame_id, data)).drop_last() == stack,
        stack.push((frame_id, data)).last() == (frame_id, data),
        stack.push((frame_id, data)).len() == stack.len() + 1,
{
    assert(stack.push((frame_id, data)).drop_last() =~= stack);
}

} // verus!
