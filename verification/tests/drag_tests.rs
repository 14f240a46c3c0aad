use agent_browser::drag::{
    normalize_drag_payload, DragAction, DragEvent, DragEventKind, DragItem, DragMachine, DragPayload, DragPhase,
    ALL_DRAG_OPERATIONS,
};
use agent_browser::error::Error;

fn run(events: Vec<DragEvent>) -> Vec<DragAction> {
    let (mut m, first) = DragMachine::new();
    let mut actions = vec![first];
    for e in events {
        actions.push(m.step(e));
    }
    actions
}

#[test]
fn a_drag_moves_in_ten_steps_and_replays_the_drop() {
    let mut events = vec![DragEvent::Done(true), DragEvent::Done(true), DragEvent::Done(true), DragEvent::Done(true)];
    for _ in 0..10 {
        events.push(DragEvent::Done(true));
    }
    for _ in 0..4 {
        events.push(DragEvent::Done(true));
    }
    events.push(DragEvent::Done(true));
    events.push(DragEvent::Done(true));
    let actions = run(events);
    assert!(matches!(actions[0], DragAction::LocatePoints));
    assert!(matches!(actions[1], DragAction::EnableInterception));
    assert!(matches!(actions[2], DragAction::MoveToSource));
    assert!(matches!(actions[3], DragAction::PressAtSource));
    for k in 1..=10u8 {
        assert!(matches!(actions[3 + k as usize], DragAction::MoveStep(n) if n == k));
    }
    assert!(matches!(actions[14], DragAction::AwaitIntercepted));
    assert!(matches!(actions[15], DragAction::DispatchDrag(DragEventKind::DragEnter)));
    assert!(matches!(actions[16], DragAction::DispatchDrag(DragEventKind::DragOver)));
    assert!(matches!(actions[17], DragAction::DispatchDrag(DragEventKind::Drop)));
    assert!(matches!(actions[18], DragAction::ReleaseAtTarget));
    assert!(matches!(actions[19], DragAction::DisableInterception));
    assert!(matches!(actions[20], DragAction::Finish(Ok(()))));
}

#[test]
fn a_failed_step_still_disables_interception() {
    let (mut m, _) = DragMachine::new();
    assert!(matches!(m.step(DragEvent::Done(true)), DragAction::EnableInterception));
    assert!(matches!(m.step(DragEvent::Done(true)), DragAction::MoveToSource));
    assert!(matches!(m.step(DragEvent::Failed(Error::Cdp("boom".to_string()))), DragAction::DisableInterception));
    assert_eq!(m.phase(), DragPhase::Disable);
    match m.step(DragEvent::Failed(Error::Cdp("later".to_string()))) {
        DragAction::Finish(Err(Error::Cdp(msg))) => assert_eq!(msg, "boom"),
        _ => panic!("the first failure is the outcome"),
    }
    assert!(matches!(m.step(DragEvent::Done(true)), DragAction::Nothing));
}

#[test]
fn missing_elements_end_the_drag_before_interception() {
    let (mut m, _) = DragMachine::new();
    match m.step(DragEvent::Done(false)) {
        DragAction::Finish(Err(Error::ElementNotFound(msg))) => assert_eq!(msg, "Drag source or target not found"),
        _ => panic!("not found"),
    }
    let (mut m, _) = DragMachine::new();
    m.step(DragEvent::Done(true));
    match m.step(DragEvent::Failed(Error::Cdp("no intercept".to_string()))) {
        DragAction::Finish(Err(Error::Cdp(msg))) => assert_eq!(msg, "no intercept"),
        _ => panic!("enable failed"),
    }
}

#[test]
fn no_intercepted_drag_goes_straight_to_release() {
    let (mut m, _) = DragMachine::new();
    for _ in 0..14 {
        m.step(DragEvent::Done(true));
    }
    assert_eq!(m.phase(), DragPhase::AwaitDrop);
    assert!(matches!(m.step(DragEvent::Done(false)), DragAction::ReleaseAtTarget));
}

#[test]
fn drag_data_is_made_fit_to_replay() {
    let p = normalize_drag_payload(DragPayload { items: vec![], files: None, operations_mask: -1 });
    assert_eq!(p.operations_mask, ALL_DRAG_OPERATIONS);
    assert_eq!(p.operations_mask, 17);
    assert_eq!(p.items.len(), 1);
    assert_eq!(p.items[0].mime_type, "text/plain");
    assert_eq!(p.items[0].data, "");
    let item = DragItem { mime_type: "text/uri-list".to_string(), data: "https://a".to_string(), title: None, base_url: None };
    let q = normalize_drag_payload(DragPayload { items: vec![item], files: Some(vec!["f".to_string()]), operations_mask: 1 });
    assert_eq!(q.operations_mask, 1);
    assert_eq!(q.items.len(), 1);
    assert_eq!(q.items[0].mime_type, "text/uri-list");
    assert_eq!(q.files, Some(vec!["f".to_string()]));
}
