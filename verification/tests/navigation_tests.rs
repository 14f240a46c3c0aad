use agent_browser::error::Error;
use agent_browser::keys::{key_stroke, KeyDownKind};
use agent_browser::navigation::{
    check_navigation_scheme, is_expected_lifecycle, lifecycle_event_for, lifecycle_timeout, BoundedLog,
    HostPolicyCache, IdlePoll, IdleTracker, HISTORY_LIMIT,
};
use agent_browser::policy::ParsedUrl;
use agent_browser::types::NavigationWaitUntil;

fn url(scheme: &str) -> ParsedUrl {
    ParsedUrl { scheme: scheme.to_string(), host: Some("a.test".to_string()), port: None, origin: String::new() }
}

#[test]
fn only_web_urls_are_navigated() {
    assert!(check_navigation_scheme(&url("https")).is_ok());
    assert!(check_navigation_scheme(&url("http")).is_ok());
    match check_navigation_scheme(&url("ws")) {
        Err(Error::InvalidParameter(m)) => assert_eq!(m, "Navigation URL must use http:// or https://"),
        _ => panic!("must refuse"),
    }
}

#[test]
fn lifecycle_events_by_wait_strategy() {
    assert_eq!(lifecycle_event_for(NavigationWaitUntil::Load), Some("load".to_string()));
    assert_eq!(lifecycle_event_for(NavigationWaitUntil::NetworkIdle), Some("load".to_string()));
    assert_eq!(lifecycle_event_for(NavigationWaitUntil::DomContentLoaded), Some("DOMContentLoaded".to_string()));
    assert_eq!(lifecycle_event_for(NavigationWaitUntil::NoWait), None);
    assert!(is_expected_lifecycle("f1", "load", "l1", "f1", "load", Some("l1")));
    assert!(is_expected_lifecycle("f1", "load", "l2", "f1", "load", None));
    assert!(!is_expected_lifecycle("f1", "load", "l2", "f1", "load", Some("l1")));
    assert!(!is_expected_lifecycle("f2", "load", "l1", "f1", "load", Some("l1")));
    match lifecycle_timeout("load") {
        Error::Timeout(m) => assert_eq!(m, "Navigation timeout waiting for load"),
        _ => panic!("timeout expected"),
    }
}

#[test]
fn network_idle_needs_a_quiet_period() {
    let mut t = IdleTracker::new(1000, 500, 2000);
    assert!(matches!(t.poll(true, 3, 1100), IdlePoll::Wait));
    assert!(matches!(t.poll(true, 3, 1500), IdlePoll::Wait));
    assert!(matches!(t.poll(true, 3, 1600), IdlePoll::Idle));
    let mut u = IdleTracker::new(0, 500, 1000);
    assert!(matches!(u.poll(false, 0, 900), IdlePoll::Wait));
    match u.poll(false, 0, 1000) {
        IdlePoll::TimedOut(Error::Timeout(m)) => assert_eq!(m, "Network did not become idle within 1000ms"),
        _ => panic!("timeout expected"),
    }
}

#[test]
fn host_decisions_expire() {
    let mut c = HostPolicyCache::new();
    assert_eq!(c.lookup("a.test", 0), None);
    c.record("a.test", true, 100);
    c.record("b.test", false, 100);
    assert_eq!(c.lookup("a.test", 5099), Some(true));
    assert_eq!(c.lookup("b.test", 200), Some(false));
    assert_eq!(c.lookup("a.test", 5100), None);
    c.record("a.test", false, 6000);
    assert_eq!(c.lookup("a.test", 6001), Some(false));
}

#[test]
fn histories_keep_the_latest_entries() {
    let mut h: BoundedLog<u32> = BoundedLog::new();
    for i in 0..(HISTORY_LIMIT as u32 + 5) {
        h.push(i);
    }
    assert_eq!(h.entries().len(), HISTORY_LIMIT);
    assert_eq!(h.entries()[0], 5);
    assert_eq!(*h.entries().last().unwrap(), HISTORY_LIMIT as u32 + 4);
    h.clear();
    assert!(h.entries().is_empty());
}

#[test]
fn key_strokes_follow_the_layout() {
    let enter = key_stroke("Enter").ok().unwrap();
    assert_eq!(enter.key, "Enter");
    assert_eq!(enter.code, "Enter");
    assert_eq!(enter.key_code, 13);
    assert_eq!(enter.down, KeyDownKind::KeyDown);
    assert_eq!(enter.text, Some("\r".to_string()));
    let a = key_stroke("a").ok().unwrap();
    assert_eq!(a.down, KeyDownKind::KeyDown);
    assert_eq!(a.text, Some("a".to_string()));
    let tab = key_stroke("ArrowLeft").ok().unwrap();
    assert_eq!(tab.down, KeyDownKind::RawKeyDown);
    assert_eq!(tab.text, None);
    match key_stroke("NoSuchKey") {
        Err(Error::InvalidParameter(m)) => assert_eq!(m, "Unknown key: NoSuchKey"),
        _ => panic!("unknown key"),
    }
}
