//! The decisions of a navigation: which URLs a page may be sent to, which
//! lifecycle event ends the wait, and when the network counts as idle.
use vstd::prelude::*;
use crate::error::Error;
use crate::policy::ParsedUrl;
use crate::text::{decimal, decimal_string, eq_str, str_eq};
use crate::types::NavigationWaitUntil;

verus! {

/// A page may only be navigated to http(s) URLs.
pub fn check_navigation_scheme(url: &ParsedUrl) -> (r: Result<(), Error>)
    ensures
        r is Ok <==> (url.scheme@ == "http"@ || url.scheme@ == "https"@),
        r matches Err(e) ==> e matches Error::InvalidParameter(m) && m@
            == "Navigation URL must use http:// or https://"@,
{
    if eq_str(&url.scheme, "http") || eq_str(&url.scheme, "https") {
        Ok(())
    } else {
        Err(Error::InvalidParameter(String::from_str("Navigation URL must use http:// or https://")))
    }
}

/// The lifecycle event that ends the wait for a navigation: `load` for
/// load and network idle, `DOMContentLoaded` for DOM content loaded, none
/// when not waiting.
pub open spec fn lifecycle_event(w: NavigationWaitUntil) -> Option<Seq<char>> {
    match w {
        NavigationWaitUntil::Load | NavigationWaitUntil::NetworkIdle => Some("load"@),
        NavigationWaitUntil::DomContentLoaded => Some("DOMContentLoaded"@),
        NavigationWaitUntil::NoWait => None,
    }
}

/// The lifecycle event that ends the wait for a navigation.
pub fn lifecycle_event_for(wait_until: NavigationWaitUntil) -> (r: Option<String>)
    ensures
        match r {
            Some(s) => lifecycle_event(wait_until) == Some(s@),
            None => lifecycle_event(wait_until) is None,
        },
{
    match wait_until {
        NavigationWaitUntil::Load | NavigationWaitUntil::NetworkIdle => Some(String::from_str("load")),
        NavigationWaitUntil::DomContentLoaded => Some(String::from_str("DOMContentLoaded")),
        NavigationWaitUntil::NoWait => None,
    }
}

/// Whether a lifecycle event is the one a navigation waits for: same frame,
/// the expected name, and the navigation's loader where it has one.
pub fn is_expected_lifecycle(
    event_frame: &str,
    event_name: &str,
    event_loader: &str,
    frame_id: &str,
    expected: &str,
    loader_id: Option<&str>,
) -> (r: bool)
    ensures
        r == (event_frame@ == frame_id@ && event_name@ == expected@ && match loader_id {
            Some(l) => event_loader@ == l@,
            None => true,
        }),
{
    if !str_eq(event_frame, frame_id) || !str_eq(event_name, expected) {
        return false;
    }
    match loader_id {
        Some(l) => str_eq(event_loader, l),
        None => true,
    }
}

/// The error when the expected lifecycle event does not come in time.
pub fn lifecycle_timeout(expected: &str) -> (r: Error)
    ensures
        r matches Error::Timeout(m) && m@ == "Navigation timeout waiting for "@ + expected@,
{
    let mut m = String::from_str("Navigation timeout waiting for ");
    m.append(expected);
    Error::Timeout(m)
}

/// The outcome of one poll of the page while waiting for the network to
/// settle.
pub enum IdlePoll {
    /// The page is loaded and the resource count has held for long enough.
    Idle,
    /// The deadline has passed.
    TimedOut(Error),
    /// Poll again later.
    Wait,
}

/// Waits for the network to go idle: the resource count must hold still for
/// `idle_ms` while the document is complete, before `deadline_ms`. Times are
/// milliseconds of a monotonic clock.
pub struct IdleTracker {
    pub last_count: usize,
    pub stable_since_ms: u64,
    pub idle_ms: u64,
    pub deadline_ms: u64,
    pub timeout_ms: u64,
}

/// The timeout message of the network idle wait.
pub open spec fn idle_timeout_message(timeout_ms: u64) -> Seq<char> {
    "Network did not become idle within "@ + decimal(timeout_ms as nat) + "ms"@
}

impl IdleTracker {
    /// Starts waiting at `now_ms`, for at most `timeout_ms`.
    pub fn new(now_ms: u64, idle_ms: u64, timeout_ms: u64) -> (r: IdleTracker)
        ensures
            r.last_count == 0,
            r.stable_since_ms == now_ms,
            r.idle_ms == idle_ms,
            r.timeout_ms == timeout_ms,
            r.deadline_ms == (if now_ms + timeout_ms <= u64::MAX { (now_ms + timeout_ms) as u64 } else { u64::MAX }),
    {
        IdleTracker {
            last_count: 0,
            stable_since_ms: now_ms,
            idle_ms,
            deadline_ms: now_ms.saturating_add(timeout_ms),
            timeout_ms,
        }
    }

    /// Takes one poll at `now_ms`: a new resource count restarts the quiet
    /// period; a complete document quiet for `idle_ms` is idle; else past the
    /// deadline the wait has timed out; else poll again.
    pub fn poll(&mut self, ready: bool, resources: usize, now_ms: u64) -> (r: IdlePoll)
        ensures
            final(self).idle_ms == old(self).idle_ms,
            final(self).deadline_ms == old(self).deadline_ms,
            final(self).timeout_ms == old(self).timeout_ms,
            final(self).last_count == resources,
            final(self).stable_since_ms == (if resources != old(self).last_count {
                now_ms
            } else {
                old(self).stable_since_ms
            }),
            ({
                let quiet = if now_ms >= final(self).stable_since_ms {
                    now_ms - final(self).stable_since_ms
                } else {
                    0
                };
                if ready && quiet >= old(self).idle_ms {
                    r is Idle
                } else if now_ms >= old(self).deadline_ms {
                    r matches IdlePoll::TimedOut(Error::Timeout(m)) && m@ == idle_timeout_message(old(self).timeout_ms)
                } else {
                    r is Wait
                }
            }),
    {
        if resources != self.last_count {
            self.last_count = resources;
            self.stable_since_ms = now_ms;
        }
        let quiet = now_ms.saturating_sub(self.stable_since_ms);
        if ready && quiet >= self.idle_ms {
            return IdlePoll::Idle;
        }
        if now_ms >= self.deadline_ms {
            let mut m = String::from_str("Network did not become idle within ");
            let d = decimal_string(self.timeout_ms);
            m.append(d.as_str());
            m.append("ms");
            return IdlePoll::TimedOut(Error::Timeout(m));
        }
        IdlePoll::Wait
    }
}

/// How long a host's policy decision stays valid, in milliseconds.
pub const HOST_DECISION_TTL_MS: u64 = 5000;

/// Recent decisions on whether a host may be reached, each with the time it
/// was taken (milliseconds of a monotonic clock). A decision is reused while
/// it is younger than [`HOST_DECISION_TTL_MS`].
pub struct HostPolicyCache {
    entries: Vec<(String, bool, u64)>,
}

/// The model of a host cache: its entries, at most one per host.
pub open spec fn cache_entries(v: Seq<(String, bool, u64)>) -> Seq<(Seq<char>, bool, u64)> {
    Seq::new(v.len(), |i: int| (v[i].0@, v[i].1, v[i].2))
}

/// The entry for `host`, where there is one.
pub open spec fn cache_find(e: Seq<(Seq<char>, bool, u64)>, host: Seq<char>) -> Option<(bool, u64)>
    decreases e.len(),
{
    if e.len() == 0 {
        None
    } else if e.last().0 == host {
        Some((e.last().1, e.last().2))
    } else {
        cache_find(e.drop_last(), host)
    }
}

/// A decision taken at `at` is still fresh at `now`.
pub open spec fn fresh(at: u64, now: u64) -> bool {
    (if now >= at {
        now - at
    } else {
        0
    }) < HOST_DECISION_TTL_MS
}

/// What a lookup of `host` at `now` gives: its decision while fresh.
pub open spec fn cache_lookup(e: Seq<(Seq<char>, bool, u64)>, host: Seq<char>, now: u64) -> Option<bool> {
    match cache_find(e, host) {
        Some((allowed, at)) => if fresh(at, now) {
            Some(allowed)
        } else {
            None
        },
        None => None,
    }
}

/// A decision recorded for a host is what a lookup of that host gives until
/// it is [`HOST_DECISION_TTL_MS`] old, and nothing after that.
pub proof fn law_host_decision_lifetime(e: Seq<(Seq<char>, bool, u64)>, host: Seq<char>, allowed: bool, at: u64, now: u64)
    requires
        cache_find(e, host) == Some((allowed, at)),
        at <= now,
    ensures
        now - at < HOST_DECISION_TTL_MS ==> cache_lookup(e, host, now) == Some(allowed),
        now - at >= HOST_DECISION_TTL_MS ==> cache_lookup(e, host, now) is None,
{
}

impl View for HostPolicyCache {
    type V = Seq<(Seq<char>, bool, u64)>;

    closed spec fn view(&self) -> Seq<(Seq<char>, bool, u64)> {
        cache_entries(self.entries@)
    }
}

impl HostPolicyCache {
    /// No decision yet.
    pub fn new() -> (r: HostPolicyCache)
        ensures
            r@.len() == 0,
    {
        let r = HostPolicyCache { entries: Vec::new() };
        assert(r@ =~= Seq::<(Seq<char>, bool, u64)>::empty());
        r
    }

    /// The decision for `host` if it is still fresh at `now_ms`.
    pub fn lookup(&self, host: &str, now_ms: u64) -> (r: Option<bool>)
        ensures
            r == cache_lookup(self@, host@, now_ms),
    {
        let ghost e = self@;
        let mut i: usize = self.entries.len();
        assert(e.take(e.len() as int) =~= e);
        while i > 0
            invariant
                i <= self.entries.len(),
                e == self@,
                e == cache_entries(self.entries@),
                cache_find(e, host@) == cache_find(e.take(i as int), host@),
            decreases i,
        {
            let ghost t = e.take(i as int);
            assert(t.drop_last() =~= e.take(i - 1));
            assert(t.last() == e[i - 1]);
            if str_eq(self.entries[i - 1].0.as_str(), host) {
                let (allowed, at) = (self.entries[i - 1].1, self.entries[i - 1].2);
                let age = now_ms.saturating_sub(at);
                if age < HOST_DECISION_TTL_MS {
                    return Some(allowed);
                } else {
                    return None;
                }
            }
            i = i - 1;
        }
        assert(e.take(0) =~= Seq::<(Seq<char>, bool, u64)>::empty());
        None
    }

    /// Records the decision for `host`, taken at `now_ms`, in place of any
    /// earlier one.
    pub fn record(&mut self, host: &str, allowed: bool, now_ms: u64)
        ensures
            cache_find(final(self)@, host@) == Some((allowed, now_ms)),
            forall|h: Seq<char>| h != host@ ==> cache_find(final(self)@, h) == cache_find(old(self)@, h),
    {
        let ghost before = self@;
        let mut kept: Vec<(String, bool, u64)> = Vec::new();
        let mut i: usize = 0;
        while i < self.entries.len()
            invariant
                i <= self.entries.len(),
                before == cache_entries(self.entries@),
                forall|h: Seq<char>| h != host@ ==> cache_find(cache_entries(kept@), h) == cache_find(before.take(i as int), h),
                cache_find(cache_entries(kept@), host@) is None,
            decreases self.entries.len() - i,
        {
            let ghost kv = cache_entries(kept@);
            let ghost t = before.take(i + 1);
            assert(t.drop_last() =~= before.take(i as int));
            assert(t.last() == before[i as int]);
            if !str_eq(self.entries[i].0.as_str(), host) {
                let entry = (self.entries[i].0.clone(), self.entries[i].1, self.entries[i].2);
                kept.push(entry);
                let ghost kn = cache_entries(kept@);
                assert(kn.drop_last() =~= kv);
                assert(kn.last() == before[i as int]);
                assert forall|h: Seq<char>| h != host@ implies cache_find(kn, h) == cache_find(t, h) by {
                    if before[i as int].0 == h {
                    } else {
                        assert(cache_find(kn, h) == cache_find(kv, h));
                        assert(cache_find(t, h) == cache_find(before.take(i as int), h));
                    }
                }
                assert(cache_find(kn, host@) == cache_find(kv, host@));
            } else {
                assert forall|h: Seq<char>| h != host@ implies cache_find(cache_entries(kept@), h) == cache_find(t, h) by {
                    assert(t.last().0 != h);
                }
            }
            i = i + 1;
        }
        assert(before.take(before.len() as int) =~= before);
        let ghost kv = cache_entries(kept@);
        kept.push((String::from_str(host), allowed, now_ms));
        let ghost kn = cache_entries(kept@);
        assert(kn.drop_last() =~= kv);
        assert(kn.last() == (host@, allowed, now_ms));
        assert forall|h: Seq<char>| h != host@ implies cache_find(kn, h) == cache_find(before, h) by {
            assert(cache_find(kn, h) == cache_find(kv, h));
        }
        self.entries = kept;
    }
}

} // verus!

verus! {

/// How many entries a monitoring history keeps.
pub const HISTORY_LIMIT: usize = 1000;

/// A history of observations (console messages, network requests) that
/// keeps only the most recent [`HISTORY_LIMIT`] entries.
pub struct BoundedLog<T> {
    entries: Vec<T>,
}

impl<T> View for BoundedLog<T> {
    type V = Seq<T>;

    closed spec fn view(&self) -> Seq<T> {
        self.entries@
    }
}

/// The history after one more entry: appended, the oldest entry dropped
/// when the limit is passed.
pub open spec fn log_push<T>(h: Seq<T>, x: T) -> Seq<T> {
    if h.len() + 1 > HISTORY_LIMIT {
        h.push(x).drop_first()
    } else {
        h.push(x)
    }
}

impl<T> BoundedLog<T> {
    /// An empty history.
    pub fn new() -> (r: BoundedLog<T>)
        ensures
            r@.len() == 0,
    {
        BoundedLog { entries: Vec::new() }
    }

    /// Appends an entry, dropping the oldest one when the limit is passed.
    pub fn push(&mut self, x: T)
        ensures
            final(self)@ == log_push(old(self)@, x),
    {
        self.entries.push(x);
        if self.entries.len() > HISTORY_LIMIT {
            let _ = self.entries.remove(0);
            assert(self.entries@ =~= old(self)@.push(x).drop_first());
        }
    }

    /// The entries, oldest first.
    pub fn entries(&self) -> (r: &Vec<T>)
        ensures
            r@ == self@,
    {
        &self.entries
    }

    /// Forgets every entry.
    pub fn clear(&mut self)
        ensures
            final(self)@.len() == 0,
    {
        self.entries = Vec::new();
    }
}

/// A history never holds more than [`HISTORY_LIMIT`] entries once it is
/// within the limit, and its newest entry is the one last pushed.
pub proof fn law_history_bounded<T>(h: Seq<T>, x: T)
    requires
        h.len() <= HISTORY_LIMIT,
    ensures
        log_push(h, x).len() <= HISTORY_LIMIT,
        log_push(h, x).last() == x,
        h.len() < HISTORY_LIMIT ==> log_push(h, x) == h.push(x),
{
}

} // verus!
