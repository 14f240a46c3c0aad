//! Putting the snapshot of a page together from the accessibility trees of
//! its frames: the main frame's forest at the top level, each other frame's
//! forest under an `iframe` node of its own.
use vstd::prelude::*;
use crate::snapshot::{
    clone_opt, forest_view, mapping_view, mappings_view, node_view, opt_view, pairs_view, IframeMapping,
    NodeView, SnapshotNode,
};
use crate::text::{contains_seq, decimal, decimal_string, str_contains};

verus! {

/// A frame of the page and the frames nested in it.
pub struct FrameTreeNode {
    /// Frame id.
    pub id: String,
    /// The frame's name, where it has one.
    pub name: Option<String>,
    /// The frame's URL.
    pub url: String,
    /// Child frames.
    pub children: Vec<FrameTreeNode>,
}

/// Mathematical model of a [`FrameTreeNode`].
pub struct FrameView {
    pub id: Seq<char>,
    pub name: Option<Seq<char>>,
    pub url: Seq<char>,
    pub children: Seq<FrameView>,
}

/// The model of a frame and its descendants.
pub open spec fn frame_view(t: FrameTreeNode) -> FrameView
    decreases t,
{
    FrameView {
        id: t.id@,
        name: opt_view(t.name),
        url: t.url@,
        children: Seq::new(
            t.children@.len(),
            |i: int|
                if 0 <= i < t.children@.len() {
                    frame_view(t.children@[i])
                } else {
                    arbitrary()
                },
        ),
    }
}

/// The models of a list of frames.
pub open spec fn frames_view(f: Seq<FrameTreeNode>) -> Seq<FrameView> {
    Seq::new(f.len(), |i: int| frame_view(f[i]))
}

/// What is known of one frame: id, name and URL.
pub open spec fn frame_entry(f: FrameView) -> (Seq<char>, Option<Seq<char>>, Seq<char>) {
    (f.id, f.name, f.url)
}

/// The frames of a forest in pre-order: each frame, then the frames nested
/// in it, then its later siblings.
pub open spec fn frame_list(f: Seq<FrameView>) -> Seq<(Seq<char>, Option<Seq<char>>, Seq<char>)>
    decreases f,
{
    if f.len() == 0 {
        Seq::empty()
    } else {
        frame_list(f.drop_last()) + seq![frame_entry(f.last())] + frame_list(f.last().children)
    }
}

/// One frame known by id, name and URL.
pub struct FrameEntry {
    pub id: String,
    pub name: Option<String>,
    pub url: String,
}

/// The model of a list of frame entries.
pub open spec fn entries_view(v: Seq<FrameEntry>) -> Seq<(Seq<char>, Option<Seq<char>>, Seq<char>)> {
    Seq::new(v.len(), |i: int| (v[i].id@, opt_view(v[i].name), v[i].url@))
}

/// One step of a pre-order walk over frames.
proof fn lemma_frame_list_step(f: Seq<FrameTreeNode>, i: int)
    requires
        0 <= i < f.len(),
    ensures
        frame_list(frames_view(f.take(i + 1))) == frame_list(frames_view(f.take(i))) + seq![
            frame_entry(frame_view(f[i])),
        ] + frame_list(frame_view(f[i]).children),
        frame_view(f[i]).children == frames_view(f[i].children@),
{
    let t = frames_view(f.take(i + 1));
    assert(t.drop_last() =~= frames_view(f.take(i)));
    assert(t.last() == frame_view(f[i]));
    assert(frame_view(f[i]).children =~= frames_view(f[i].children@));
}

/// Appends every frame of a forest to `out`, in pre-order.
fn collect_frames(frames: &Vec<FrameTreeNode>, out: &mut Vec<FrameEntry>)
    ensures
        entries_view(final(out)@) == entries_view(old(out)@) + frame_list(frames_view(frames@)),
    decreases frames@,
{
    let ghost start = entries_view(out@);
    let mut i: usize = 0;
    proof {
        assert(frames_view(frames@.take(0)) =~= Seq::<FrameView>::empty());
        assert(start + frame_list(frames_view(frames@.take(0))) =~= start);
    }
    while i < frames.len()
        invariant
            i <= frames.len(),
            entries_view(out@) == start + frame_list(frames_view(frames@.take(i as int))),
        decreases frames.len() - i,
    {
        let f = &frames[i];
        let ghost before = entries_view(out@);
        out.push(FrameEntry { id: f.id.clone(), name: clone_opt(&f.name), url: f.url.clone() });
        proof {
            assert(entries_view(out@) =~= before + seq![frame_entry(frame_view(*f))]);
            assert(decreases_to!(frames@ => frames@[i as int].children@));
        }
        collect_frames(&f.children, out);
        proof {
            lemma_frame_list_step(frames@, i as int);
            assert(entries_view(out@) =~= start + frame_list(frames_view(frames@.take(i + 1))));
        }
        i = i + 1;
    }
    proof {
        assert(frames@.take(frames@.len() as int) =~= frames@);
    }
}

/// The id of the first frame of a listing whose id contains `needle`.
pub open spec fn first_id_containing(
    l: Seq<(Seq<char>, Option<Seq<char>>, Seq<char>)>,
    needle: Seq<char>,
) -> Option<Seq<char>>
    decreases l.len(),
{
    if l.len() == 0 {
        None
    } else if contains_seq(l[0].0, needle) {
        Some(l[0].0)
    } else {
        first_id_containing(l.drop_first(), needle)
    }
}

/// The first frame nested in `tree` (in pre-order, the tree's own frame
/// excluded) whose id contains `ref_id`.
pub fn find_frame_in_tree(tree: &FrameTreeNode, ref_id: &str) -> (r: Option<String>)
    ensures
        opt_view(r) == first_id_containing(frame_list(frame_view(*tree).children), ref_id@),
{
    let mut out: Vec<FrameEntry> = Vec::new();
    collect_frames(&tree.children, &mut out);
    let ghost l = entries_view(out@);
    proof {
        assert(entries_view(Seq::<FrameEntry>::empty()) =~= Seq::empty());
        assert(frame_view(*tree).children =~= frames_view(tree.children@));
        assert(l =~= frame_list(frame_view(*tree).children));
        assert(l.skip(0) =~= l);
    }
    let mut i: usize = 0;
    while i < out.len()
        invariant
            i <= out.len(),
            l == entries_view(out@),
            l == frame_list(frame_view(*tree).children),
            first_id_containing(l, ref_id@) == first_id_containing(l.skip(i as int), ref_id@),
        decreases out.len() - i,
    {
        proof {
            assert(l.skip(i as int)[0] == l[i as int]);
            assert(l.skip(i as int).drop_first() =~= l.skip(i + 1));
        }
        if str_contains(out[i].id.as_str(), ref_id) {
            return Some(out[i].id.clone());
        }
        i = i + 1;
    }
    proof {
        assert(l.skip(i as int) =~= Seq::empty());
    }
    None
}

/// Every frame of the page, the main frame first, in pre-order.
pub fn page_frames(tree: &FrameTreeNode) -> (r: Vec<FrameEntry>)
    ensures
        entries_view(r@) == frame_list(seq![frame_view(*tree)]),
{
    let mut out: Vec<FrameEntry> = Vec::new();
    out.push(FrameEntry { id: tree.id.clone(), name: clone_opt(&tree.name), url: tree.url.clone() });
    collect_frames(&tree.children, &mut out);
    proof {
        let one = seq![frame_view(*tree)];
        assert(one.drop_last() =~= Seq::<FrameView>::empty());
        assert(frame_view(*tree).children =~= frames_view(tree.children@));
        assert(frame_list(one.drop_last()) =~= Seq::empty());
        assert(frame_list(one) =~= seq![frame_entry(frame_view(*tree))] + frame_list(
            frames_view(tree.children@),
        ));
        assert(entries_view(out@) =~= frame_list(one));
    }
    out
}

/// The index of the last entry with id `id` among the first `k`; -1 where
/// there is none. (A later entry of an id replaces an earlier one.)
pub open spec fn last_entry(e: Seq<(Seq<char>, Option<Seq<char>>, Seq<char>)>, id: Seq<char>, k: int) -> int
    decreases k,
{
    if k <= 0 {
        -1
    } else if e[k - 1].0 == id {
        k - 1
    } else {
        last_entry(e, id, k - 1)
    }
}

/// The name and URL known for frame `id`, each empty where nothing is known.
pub open spec fn frame_name_url(e: Seq<(Seq<char>, Option<Seq<char>>, Seq<char>)>, id: Seq<char>) -> (
    Seq<char>,
    Seq<char>,
) {
    let k = last_entry(e, id, e.len() as int);
    if k < 0 {
        (Seq::empty(), Seq::empty())
    } else {
        (
            match e[k].1 {
                Some(n) => n,
                None => Seq::empty(),
            },
            e[k].2,
        )
    }
}

/// The `name` and `src` attributes of an `<iframe>` element of the page.
pub struct IframeElement {
    pub name: Option<String>,
    pub src: Option<String>,
}

/// The model of a list of iframe elements.
pub open spec fn elements_view(v: Seq<IframeElement>) -> Seq<(Option<Seq<char>>, Option<Seq<char>>)> {
    Seq::new(v.len(), |i: int| (opt_view(v[i].name), opt_view(v[i].src)))
}

/// Whether an iframe element belongs to the frame with this name and URL:
/// by a non-empty name first, else by a non-empty URL.
pub open spec fn element_matches(el: (Option<Seq<char>>, Option<Seq<char>>), name: Seq<char>, url: Seq<char>) -> bool {
    (name.len() > 0 && el.0 == Some(name)) || (url.len() > 0 && el.1 == Some(url))
}

/// The index of the first matching element from `k` on; -1 where none matches.
pub open spec fn first_match(els: Seq<(Option<Seq<char>>, Option<Seq<char>>)>, name: Seq<char>, url: Seq<char>, k: int) -> int
    decreases els.len() - k,
{
    if k < 0 || k >= els.len() {
        -1
    } else if element_matches(els[k], name, url) {
        k
    } else {
        first_match(els, name, url, k + 1)
    }
}

/// The name and src recorded for a frame's iframe: those of its element,
/// where one matches, else the frame's own name and URL.
pub open spec fn iframe_name_src(
    els: Seq<(Option<Seq<char>>, Option<Seq<char>>)>,
    name: Seq<char>,
    url: Seq<char>,
) -> (Option<Seq<char>>, Option<Seq<char>>) {
    let m = first_match(els, name, url, 0);
    if m >= 0 {
        els[m]
    } else {
        (Some(name), Some(url))
    }
}

/// The node that stands for a frame in the snapshot.
pub open spec fn iframe_node(
    ref_id: Seq<char>,
    frame_id: Seq<char>,
    name: Option<Seq<char>>,
    src: Option<Seq<char>>,
    children: Seq<NodeView>,
) -> NodeView {
    NodeView {
        ref_id,
        role: "iframe"@,
        name: match name {
            Some(n) => n,
            None => "Frame "@ + frame_id,
        },
        value: None,
        description: src,
        attributes: match src {
            Some(x) => seq![("frame_id"@, frame_id), ("src"@, x)],
            None => seq![("frame_id"@, frame_id)],
        },
        children,
    }
}

/// Mathematical model of a [`FrameAssembly`].
pub struct AssemblyView {
    pub nodes: Seq<NodeView>,
    pub global_counter: u32,
    pub iframe_count: nat,
    pub iframe_mappings: Seq<(Seq<char>, Seq<char>, Option<Seq<char>>, Option<Seq<char>>)>,
}

/// The snapshot so far after one more frame's forest: an empty forest
/// changes nothing; the main frame's forest becomes the top level; any other
/// forest goes under a new `iframe<n>` node, with a mapping from that node to
/// the frame. The counter moves on to the frame's.
pub open spec fn frame_step(
    a: AssemblyView,
    frame_id: Seq<char>,
    is_main: bool,
    nodes: Seq<NodeView>,
    counter: u32,
    frames: Seq<(Seq<char>, Option<Seq<char>>, Seq<char>)>,
    els: Seq<(Option<Seq<char>>, Option<Seq<char>>)>,
) -> AssemblyView {
    if nodes.len() == 0 {
        a
    } else if is_main {
        AssemblyView { nodes, global_counter: counter, ..a }
    } else {
        let count = a.iframe_count + 1;
        let ref_id = "iframe"@ + decimal(count);
        let (fname, furl) = frame_name_url(frames, frame_id);
        let (name, src) = iframe_name_src(els, fname, furl);
        AssemblyView {
            nodes: a.nodes.push(iframe_node(ref_id, frame_id, name, src, nodes)),
            global_counter: counter,
            iframe_count: count,
            iframe_mappings: a.iframe_mappings.push((ref_id, frame_id, name, src)),
        }
    }
}

/// A page snapshot being put together frame by frame.
pub struct FrameAssembly {
    /// The top-level nodes so far.
    pub nodes: Vec<SnapshotNode>,
    /// The reference counter after the frames so far.
    pub global_counter: u32,
    /// The number of iframe nodes so far.
    pub iframe_count: usize,
    /// One mapping per iframe node.
    pub iframe_mappings: Vec<IframeMapping>,
}

impl View for FrameAssembly {
    type V = AssemblyView;

    open spec fn view(&self) -> AssemblyView {
        AssemblyView {
            nodes: forest_view(self.nodes@),
            global_counter: self.global_counter,
            iframe_count: self.iframe_count as nat,
            iframe_mappings: mappings_view(self.iframe_mappings@),
        }
    }
}

/// The index of the last entry for frame `id`.
fn last_entry_index(frames: &Vec<FrameEntry>, id: &String) -> (r: Option<usize>)
    ensures
        match r {
            Some(k) => k < frames.len() && k == last_entry(entries_view(frames@), id@, frames.len() as int),
            None => last_entry(entries_view(frames@), id@, frames.len() as int) < 0,
        },
{
    let ghost e = entries_view(frames@);
    let mut i: usize = frames.len();
    while i > 0
        invariant
            i <= frames.len(),
            e == entries_view(frames@),
            last_entry(e, id@, frames.len() as int) == last_entry(e, id@, i as int),
        decreases i,
    {
        i = i - 1;
        if frames[i].id == *id {
            return Some(i);
        }
    }
    None
}

/// The name and URL known for frame `id`, each empty where nothing is known.
fn name_and_url(frames: &Vec<FrameEntry>, id: &String) -> (r: (String, String))
    ensures
        (r.0@, r.1@) == frame_name_url(entries_view(frames@), id@),
{
    match last_entry_index(frames, id) {
        Some(k) => {
            let name = match &frames[k].name {
                Some(n) => n.clone(),
                None => String::new(),
            };
            (name, frames[k].url.clone())
        },
        None => (String::new(), String::new()),
    }
}

/// Whether an optional string is present and equal to `s`.
fn opt_is(o: &Option<String>, s: &String) -> (r: bool)
    ensures
        r == (opt_view(*o) == Some(s@)),
{
    match o {
        Some(x) => *x == *s,
        None => false,
    }
}

/// The first iframe element that belongs to the frame with this name and URL.
fn matching_element(els: &Vec<IframeElement>, name: &String, url: &String) -> (r: Option<usize>)
    ensures
        match r {
            Some(k) => k < els.len() && k == first_match(elements_view(els@), name@, url@, 0),
            None => first_match(elements_view(els@), name@, url@, 0) < 0,
        },
{
    let ghost v = elements_view(els@);
    let name_set = name.as_str().unicode_len() > 0;
    let url_set = url.as_str().unicode_len() > 0;
    let mut i: usize = 0;
    while i < els.len()
        invariant
            i <= els.len(),
            v == elements_view(els@),
            name_set == (name@.len() > 0),
            url_set == (url@.len() > 0),
            first_match(v, name@, url@, 0) == first_match(v, name@, url@, i as int),
        decreases els.len() - i,
    {
        if (name_set && opt_is(&els[i].name, name)) || (url_set && opt_is(&els[i].src, url)) {
            return Some(i);
        }
        i = i + 1;
    }
    None
}

/// `prefix` followed by the decimal digits of `n`.
fn numbered(prefix: &str, n: usize) -> (r: String)
    ensures
        r@ == prefix@ + decimal(n as nat),
{
    let mut s = String::from_str(prefix);
    let d = decimal_string(n as u64);
    s.append(d.as_str());
    s
}

impl FrameAssembly {
    /// A snapshot with no frame yet, the counter at zero.
    pub fn new() -> (r: FrameAssembly)
        ensures
            r@.nodes.len() == 0,
            r@.global_counter == 0,
            r@.iframe_count == 0,
            r@.iframe_mappings.len() == 0,
    {
        FrameAssembly { nodes: Vec::new(), global_counter: 0, iframe_count: 0, iframe_mappings: Vec::new() }
    }

    /// Adds the forest of one frame (see [`frame_step`]). `frames` are the
    /// page's frames, `elements` the page's iframe elements.
    pub fn add_frame(
        &mut self,
        frame_id: &String,
        is_main: bool,
        nodes: Vec<SnapshotNode>,
        counter: u32,
        frames: &Vec<FrameEntry>,
        elements: &Vec<IframeElement>,
    )
        requires
            old(self).iframe_count < usize::MAX,
        ensures
            final(self)@ == frame_step(
                old(self)@,
                frame_id@,
                is_main,
                forest_view(nodes@),
                counter,
                entries_view(frames@),
                elements_view(elements@),
            ),
    {
        if nodes.len() == 0 {
            return;
        }
        if is_main {
            self.nodes = nodes;
            self.global_counter = counter;
            return;
        }
        let count = self.iframe_count + 1;
        let ref_id = numbered("iframe", count);
        let (fname, furl) = name_and_url(frames, frame_id);
        let (name, src) = match matching_element(elements, &fname, &furl) {
            Some(k) => (clone_opt(&elements[k].name), clone_opt(&elements[k].src)),
            None => (Some(fname), Some(furl)),
        };
        let shown = match &name {
            Some(n) => n.clone(),
            None => {
                let mut t = String::from_str("Frame ");
                t.append(frame_id.as_str());
                t
            },
        };
        let mut attributes: Vec<(String, String)> = Vec::new();
        attributes.push((String::from_str("frame_id"), frame_id.clone()));
        match &src {
            Some(x) => attributes.push((String::from_str("src"), x.clone())),
            None => {},
        }
        let ghost kids = forest_view(nodes@);
        let node = SnapshotNode {
            ref_id: ref_id.clone(),
            role: String::from_str("iframe"),
            name: shown,
            value: None,
            description: clone_opt(&src),
            attributes,
            children: nodes,
        };
        let mapping = IframeMapping { ref_id, frame_id: frame_id.clone(), name, src };
        let ghost old_nodes = forest_view(self.nodes@);
        let ghost old_maps = mappings_view(self.iframe_mappings@);
        self.nodes.push(node);
        self.iframe_mappings.push(mapping);
        self.iframe_count = count;
        self.global_counter = counter;
        proof {
            crate::snapshot::lemma_children_view(node);
            assert(pairs_view(node.attributes@) =~= iframe_node(
                ref_id@,
                frame_id@,
                opt_view(mapping.name),
                opt_view(mapping.src),
                kids,
            ).attributes);
            assert(node_view(node) == iframe_node(
                ref_id@,
                frame_id@,
                opt_view(mapping.name),
                opt_view(mapping.src),
                kids,
            ));
            assert(forest_view(self.nodes@) =~= old_nodes.push(node_view(node)));
            assert(mappings_view(self.iframe_mappings@) =~= old_maps.push(mapping_view(mapping)));
        }
    }
}

} // verus!
