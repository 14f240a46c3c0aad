use agent_browser::actions::ActionKind;
use agent_browser::error::Error;
use agent_browser::snapshot::{diff_snapshots, search_snapshot, PageSnapshot, SnapshotNode};
use agent_browser::state::{
    action_target, check_page_unchanged, DownloadEvent, DownloadStep, DownloadTracker, FrameStack, ObservationState, ProgressState,
    TabRegistry,
};
use agent_browser::types::DownloadStatus;

fn node(ref_id: &str, role: &str, name: &str, children: Vec<SnapshotNode>) -> SnapshotNode {
    SnapshotNode {
        ref_id: ref_id.to_string(),
        role: role.to_string(),
        name: name.to_string(),
        value: None,
        description: None,
        attributes: Vec::new(),
        children,
    }
}

fn page(id: &str, nodes: Vec<SnapshotNode>) -> PageSnapshot {
    PageSnapshot {
        snapshot_id: id.to_string(),
        url: "https://a.test/".to_string(),
        title: "A".to_string(),
        nodes,
        timestamp: 0,
        iframe_count: 0,
        iframe_mappings: Vec::new(),
    }
}

#[test]
fn fresh_references_are_accepted_and_old_ones_are_stale() {
    let mut obs = ObservationState::new();
    match obs.validate("s1", Some("ax1"), Some("P"), None) {
        Err(e) => assert_eq!(e.message(), "Stale snapshot: expected s1, current none"),
        Ok(_) => panic!("nothing observed yet"),
    }
    obs.record(page("s1", vec![node("ax1", "button", "Go", vec![])]), "P".to_string(), None);
    assert_eq!(obs.current_snapshot_id().as_deref(), Some("s1"));
    assert_eq!(obs.validate("s1", Some("ax1"), Some("P"), None).unwrap(), "https://a.test/");
    match obs.validate("s1", Some("ax9"), Some("P"), None) {
        Err(Error::ElementNotFound(r)) => assert_eq!(r, "ax9"),
        _ => panic!("unknown reference"),
    }
    assert!(matches!(obs.validate("s1", None, None, None), Err(Error::NoActivePage)));
    match obs.validate("s1", Some("ax1"), Some("Q"), None) {
        Err(e) => assert_eq!(e.message(), "Stale snapshot: expected s1, current page-context-changed"),
        Ok(_) => panic!("another page"),
    }
    match obs.validate("s1", Some("ax1"), Some("P"), Some("F1")) {
        Err(e) => assert_eq!(e.message(), "Stale snapshot: expected s1, current page-context-changed"),
        Ok(_) => panic!("another frame"),
    }
    obs.record(page("s2", vec![node("ax1", "button", "Go", vec![])]), "P".to_string(), None);
    match obs.validate("s1", Some("ax1"), Some("P"), None) {
        Err(e) => assert_eq!(e.message(), "Stale snapshot: expected s1, current s2"),
        Ok(_) => panic!("replaced snapshot"),
    }
    let diff = obs.last_diff.as_ref().unwrap();
    assert_eq!(diff.from_snapshot_id, "s1");
    assert_eq!(diff.to_snapshot_id, "s2");
    obs.invalidate();
    assert!(obs.current_snapshot_id().is_none());
    assert!(obs.last_diff.is_some());
    obs.reset();
    assert!(obs.last_diff.is_none());
}

#[test]
fn scrolling_and_waiting_need_no_reference() {
    assert_eq!(action_target(&ActionKind::Scroll { direction: None, amount: None }, "e1"), None);
    assert_eq!(action_target(&ActionKind::Wait { timeout_ms: None }, "e1"), None);
    assert_eq!(action_target(&ActionKind::Click, "e1"), Some("e1"));
}

#[test]
fn diffs_compare_nodes_by_path() {
    let before = page(
        "s1",
        vec![node("ax1", "main", "", vec![node("ax2", "button", "Save", vec![]), node("ax3", "link", "Help", vec![])])],
    );
    let after = page(
        "s2",
        vec![node("ax1", "main", "", vec![node("ax2", "button", "Saved", vec![]), node("ax4", "textbox", "Name", vec![])])],
    );
    let d = diff_snapshots(&before, &after);
    assert_eq!(d.added.len(), 1);
    assert_eq!(d.added[0].path, "root/0:main/1:textbox");
    assert_eq!(d.removed.len(), 1);
    assert_eq!(d.removed[0].path, "root/0:main/1:link");
    assert_eq!(d.changed.len(), 1);
    assert_eq!(d.changed[0].name, "Saved");
    let same = diff_snapshots(&before, &before);
    assert!(same.added.is_empty() && same.removed.is_empty() && same.changed.is_empty());
}

#[test]
fn searches_return_the_first_matches() {
    let snap = page(
        "s1",
        vec![node(
            "ax1",
            "main",
            "",
            vec![node("ax2", "button", "Save draft", vec![]), node("ax3", "button", "SAVE", vec![]), node("ax4", "link", "Help", vec![])],
        )],
    );
    let r = search_snapshot(&snap, "save", 10);
    assert_eq!(r.snapshot_id, "s1");
    let refs: Vec<&str> = r.matches.iter().map(|m| m.ref_id.as_str()).collect();
    assert_eq!(refs, vec!["ax2", "ax3"]);
    let one = search_snapshot(&snap, "BUTTON", 1);
    assert_eq!(one.matches.len(), 1);
    assert_eq!(one.matches[0].path, "root/0:main/0:button");
    assert_eq!(search_snapshot(&snap, "button", 0).matches.len(), 1);
}

#[test]
fn tabs_open_activate_and_close() {
    let mut tabs = TabRegistry::new();
    assert!(tabs.active().is_none());
    tabs.open("T1".to_string());
    tabs.open("T2".to_string());
    assert_eq!(tabs.ids(), vec!["T1".to_string(), "T2".to_string()]);
    assert_eq!(tabs.active().as_deref(), Some("T2"));
    tabs.activate("T1").unwrap();
    assert_eq!(tabs.active().as_deref(), Some("T1"));
    match tabs.activate("T9") {
        Err(e) => assert_eq!(e.message(), "Tab not found: T9"),
        Ok(_) => panic!("unknown tab"),
    }
    assert_eq!(tabs.close("T2").unwrap(), false);
    assert_eq!(tabs.active().as_deref(), Some("T1"));
    assert_eq!(tabs.close("T1").unwrap(), true);
    assert!(tabs.active().is_none());
    assert!(!tabs.contains("T1"));
    assert!(tabs.register_navigation("T3".to_string()));
    assert_eq!(tabs.active().as_deref(), Some("T3"));
    assert!(!tabs.register_navigation("T4".to_string()));
    tabs.clear();
    assert!(tabs.ids().is_empty());
}

#[test]
fn frames_enter_and_exit() {
    let mut frames: FrameStack<u32> = FrameStack::new();
    assert_eq!(frames.depth(), 0);
    assert_eq!(frames.enter("F1".to_string(), 7), 1);
    assert_eq!(frames.enter("F2".to_string(), 8), 2);
    assert_eq!(frames.active_frame().map(|s| s.as_str()), Some("F2"));
    assert_eq!(frames.active_data(), Some(&8));
    assert_eq!(frames.exit(), 1);
    assert_eq!(frames.active_frame().map(|s| s.as_str()), Some("F1"));
    frames.exit_all();
    assert_eq!(frames.depth(), 0);
    assert_eq!(frames.exit(), 0);
    assert!(frames.active_frame().is_none());
}

#[test]
fn downloads_complete_with_the_suggested_name() {
    let mut tracker = DownloadTracker::new(None, Some("/downloads".to_string()));
    let step = tracker.on_event(DownloadEvent::Begin { guid: "g1".to_string(), suggested_filename: "report.pdf".to_string() });
    assert!(matches!(step, DownloadStep::Continue));
    let step = tracker.on_event(DownloadEvent::Progress {
        guid: "g1".to_string(),
        state: ProgressState::InProgress,
        received_bytes: 10,
        file_path: None,
    });
    assert!(matches!(step, DownloadStep::Continue));
    match tracker.on_event(DownloadEvent::Progress {
        guid: "g1".to_string(),
        state: ProgressState::Completed,
        received_bytes: 2048,
        file_path: None,
    }) {
        DownloadStep::Done(d) => {
            assert_eq!(d.guid, "g1");
            assert_eq!(d.filename, "report.pdf");
            assert_eq!(d.file_path, "/downloads/report.pdf");
            assert_eq!(d.size, Some(2048));
            assert_eq!(d.status, DownloadStatus::Completed);
        }
        _ => panic!("the download completed"),
    }
}

#[test]
fn downloads_fall_back_and_fail() {
    let mut tracker = DownloadTracker::new(Some("g2".to_string()), None);
    let other = tracker.on_event(DownloadEvent::Progress {
        guid: "g1".to_string(),
        state: ProgressState::Completed,
        received_bytes: 1,
        file_path: None,
    });
    assert!(matches!(other, DownloadStep::Continue));
    match tracker.on_event(DownloadEvent::Progress {
        guid: "g2".to_string(),
        state: ProgressState::Completed,
        received_bytes: 5,
        file_path: Some("/tmp/x/data.csv".to_string()),
    }) {
        DownloadStep::Done(d) => {
            assert_eq!(d.filename, "data.csv");
            assert_eq!(d.file_path, "/tmp/x/data.csv");
        }
        _ => panic!("the download completed"),
    }
    let mut no_dir = DownloadTracker::new(None, None);
    match no_dir.on_event(DownloadEvent::Progress {
        guid: "g3".to_string(),
        state: ProgressState::Completed,
        received_bytes: 5,
        file_path: None,
    }) {
        DownloadStep::Failed(e) => assert_eq!(e.message(), "Download completed without a file path"),
        _ => panic!("no place for the file"),
    }
    match no_dir.on_event(DownloadEvent::Progress {
        guid: "g4".to_string(),
        state: ProgressState::Canceled,
        received_bytes: 0,
        file_path: None,
    }) {
        DownloadStep::Failed(e) => assert_eq!(e.message(), "Download canceled: g4"),
        _ => panic!("canceled"),
    }
}

#[test]
fn actions_refuse_a_changed_page() {
    assert!(check_page_unchanged("https://a.test/", "https://a.test/").is_ok());
    match check_page_unchanged("https://a.test/", "https://b.test/") {
        Err(Error::PageChanged { expected, current }) => {
            assert_eq!(expected, "https://a.test/");
            assert_eq!(current, "https://b.test/");
        }
        _ => panic!("page changed"),
    }
}
