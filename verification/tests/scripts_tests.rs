use agent_browser::scripts::{frame_action_step, FrameOp, FrameStep};
use agent_browser::actions::ActionKind;
use agent_browser::error::Error;
use agent_browser::scripts::{
    actionable_outcome, actionable_script, dom_snapshot_script, ACTIONABLE_A, DOM_SNAPSHOT_A, DOM_SNAPSHOT_B, ACTIONABLE_B, ACTIONABLE_C, ACTIONABLE_D,
    context_action_outcome, context_action_script, drag_points_script, element_action_script,
    element_center_script, focus_script, pointer_press, PointerButton, FOCUS_ONLY_A, FOCUS_ONLY_B,
};

#[test]
fn in_frame_click_script_quotes_selector_as_json() {
    let s = context_action_script("#x", &ActionKind::Click, None).ok().unwrap();
    assert_eq!(
        s,
        "(() => { const el = document.querySelector(\"#x\"); if (!el) return {ok:false,error:'Element not found'}; el.click(); return {ok:true,message:'Clicked'}; })()"
    );
}

#[test]
fn in_frame_type_script_embeds_text_and_clear_flag() {
    let a = ActionKind::Type { text: "a\"b".to_string(), clear_first: Some(true) };
    let s = context_action_script("#x", &a, None).ok().unwrap();
    assert!(s.contains("if (true) el.value = ''; el.value += \"a\\\"b\";"));
    let b = ActionKind::Type { text: "z".to_string(), clear_first: None };
    assert!(context_action_script("#x", &b, None).ok().unwrap().contains("if (false)"));
}

#[test]
fn in_frame_scroll_and_drag_scripts() {
    let left = ActionKind::Scroll { direction: Some("left".to_string()), amount: Some(-5) };
    assert_eq!(
        context_action_script("#x", &left, None).ok().unwrap(),
        "(() => { window.scrollBy(5,0); return {ok:true,message:'Scrolled'}; })()"
    );
    let default = ActionKind::Scroll { direction: None, amount: None };
    assert!(context_action_script("#x", &default, None).ok().unwrap().contains("scrollBy(0,300)"));
    let bad = ActionKind::Scroll { direction: Some("diagonal".to_string()), amount: None };
    match context_action_script("#x", &bad, None) {
        Err(Error::InvalidParameter(m)) => assert_eq!(m, "Invalid scroll direction: diagonal"),
        _ => panic!("must refuse"),
    }
    let drag = ActionKind::Drag { target_ref_id: "ax9".to_string() };
    let s = context_action_script("#x", &drag, Some("snap")).ok().unwrap();
    assert!(s.contains(
        "document.querySelector(\"[data-agent-ref=\\\"ax9\\\"][data-agent-snapshot=\\\"snap\\\"]\")"
    ));
    match context_action_script("#x", &ActionKind::Wait { timeout_ms: None }, None) {
        Err(Error::Other(m)) => assert_eq!(m, "Wait action was not handled"),
        _ => panic!("wait has no script"),
    }
}

#[test]
fn in_frame_select_script_embeds_json_array() {
    let a = ActionKind::Select { values: vec!["a".to_string(), "b".to_string()] };
    let s = context_action_script("#s", &a, None).ok().unwrap();
    assert!(s.contains("const values = [\"a\",\"b\"];"));
}

#[test]
fn action_outcomes() {
    let ok = context_action_outcome(true, None, None).ok().unwrap();
    assert!(ok.success);
    assert_eq!(ok.message, "Action completed");
    match context_action_outcome(false, None, Some("Element is not a select".to_string())) {
        Err(Error::ElementNotFound(m)) => assert_eq!(m, "Element is not a select"),
        _ => panic!("failure expected"),
    }
    match context_action_outcome(false, None, None) {
        Err(Error::ElementNotFound(m)) => assert_eq!(m, "Element action failed"),
        _ => panic!("failure expected"),
    }
}

#[test]
fn pointer_presses() {
    let r = pointer_press(&ActionKind::RightClick);
    assert_eq!((r.button, r.buttons, r.click_count), (PointerButton::Right, 2, 1));
    assert_eq!(r.message, "Right-clicked");
    let d = pointer_press(&ActionKind::DoubleClick);
    assert_eq!((d.button, d.buttons, d.click_count), (PointerButton::Left, 1, 2));
    let c = pointer_press(&ActionKind::Click);
    assert_eq!(c.message, "Clicked");
}

#[test]
fn page_scripts_quote_selector_as_debug_output() {
    let s = element_action_script("a\"b", &ActionKind::Focus).ok().unwrap().unwrap();
    assert!(s.contains("document.querySelector(\"a\\\"b\");"));
    assert!(s.contains("el.focus();"));
    assert!(element_action_script("#x", &ActionKind::Click).ok().unwrap().is_none());
    let t = element_action_script("#x", &ActionKind::Type { text: "t".to_string(), clear_first: Some(true) })
        .ok()
        .unwrap()
        .unwrap();
    assert!(t.contains("if (true) {"));
}

#[test]
fn helper_scripts() {
    assert!(element_center_script("#x").ok().unwrap().contains("querySelector(\"#x\"); if (!el) return null;"));
    let d = drag_points_script("#a", "#b").ok().unwrap();
    assert!(d.contains("const source = document.querySelector(\"#a\");"));
    assert!(d.contains("const target = document.querySelector(\"#b\");"));
    assert_eq!(
        focus_script("#f").ok().unwrap(),
        "(() => { const el=document.querySelector(\"#f\"); if (!el) return false; el.focus(); return true; })()"
    );
}

#[test]
fn actionability_checks() {
    let script = actionable_script("#go \"now\"", true, 2500).unwrap();
    let expected = format!("{ACTIONABLE_A}\"#go \\\"now\\\"\"{ACTIONABLE_B}true{ACTIONABLE_C}2500{ACTIONABLE_D}");
    assert_eq!(script, expected);
    assert!(script.contains("const deadline = performance.now() + 2500;"));
    assert!(actionable_outcome(true, None).is_ok());
    match actionable_outcome(false, Some("element is disabled".to_string())) {
        Err(e) => assert_eq!(e.message(), "Element not actionable: element is disabled"),
        Ok(_) => panic!("not actionable"),
    }
    match actionable_outcome(false, None) {
        Err(e) => assert_eq!(e.message(), "Element not actionable: actionability check timed out"),
        Ok(_) => panic!("not actionable"),
    }
}

#[test]
fn dom_snapshot_script_embeds_the_snapshot_id() {
    let script = dom_snapshot_script("s-1").unwrap();
    assert_eq!(script, format!("{DOM_SNAPSHOT_A}\"s-1\"{DOM_SNAPSHOT_B}"));
    assert!(!script.contains("__AGENT_SNAPSHOT_ID__"));
}

#[test]
fn bounds_script_quotes_the_selector() {
    let script = agent_browser::scripts::element_bounds_script("a[href='x']");
    assert!(script.starts_with("(() => {\n                    const el = document.querySelector(\"a[href='x']\");"));
    assert!(script.contains("return {x:r.x, y:r.y, width:r.width, height:r.height};"));
}

#[test]
fn selectors_are_written_as_json_string_literals() {
    let s = focus_script("a\"b\\c\n\t\u{1}\u{8}é/").unwrap();
    assert_eq!(s, format!("{}{}{}", FOCUS_ONLY_A, "\"a\\\"b\\\\c\\n\\t\\u0001\\bé/\"", FOCUS_ONLY_B));
    let select = context_action_script("#s", &ActionKind::Select { values: vec!["x".to_string(), "y\"".to_string()] }, None)
        .unwrap();
    assert!(select.contains("[\"x\",\"y\\\"\"]"));
}

#[test]
fn in_frame_actions_are_planned_step_by_step() {
    let sel = |r: &str| format!("[data-agent-ref={:?}][data-agent-snapshot={:?}]", r, "s1");
    match frame_action_step("e1", &ActionKind::Wait { timeout_ms: None }, "s1") {
        FrameStep::Wait { ms, message } => {
            assert_eq!(ms, 1000);
            assert_eq!(message, "Waited 1000ms");
        }
        _ => panic!("wait"),
    }
    match frame_action_step("e1", &ActionKind::Type { text: "héllo".to_string(), clear_first: Some(true) }, "s1") {
        FrameStep::Act { waits, op: FrameOp::Type { selector, text, clear_first, message } } => {
            assert_eq!(waits.len(), 1);
            assert_eq!(waits[0].selector, sel("e1"));
            assert!(waits[0].editable);
            assert_eq!(selector, sel("e1"));
            assert_eq!(text, "héllo");
            assert!(clear_first);
            assert_eq!(message, "Typed 5 characters");
        }
        _ => panic!("type"),
    }
    match frame_action_step("e1", &ActionKind::Drag { target_ref_id: "e2".to_string() }, "s1") {
        FrameStep::Act { waits, op: FrameOp::Drag { source, target } } => {
            assert_eq!(waits.len(), 2);
            assert_eq!(waits[0].selector, sel("e2"));
            assert_eq!(waits[1].selector, sel("e1"));
            assert!(!waits[0].editable && !waits[1].editable);
            assert_eq!((source, target), (sel("e1"), sel("e2")));
        }
        _ => panic!("drag"),
    }
    match frame_action_step("e1", &ActionKind::Press { key: "Enter".to_string() }, "s1") {
        FrameStep::Act { op: FrameOp::Press { key, message, .. }, .. } => {
            assert_eq!(key, "Enter");
            assert_eq!(message, "Pressed Enter");
        }
        _ => panic!("press"),
    }
    match frame_action_step("e1", &ActionKind::Hover, "s1") {
        FrameStep::Act { op: FrameOp::Pointer { press, .. }, .. } => assert!(press.is_none()),
        _ => panic!("hover"),
    }
    match frame_action_step("e1", &ActionKind::DoubleClick, "s1") {
        FrameStep::Act { op: FrameOp::Pointer { press: Some(p), .. }, .. } => {
            assert_eq!(p.click_count, 2);
            assert_eq!(p.message, "Double-clicked");
        }
        _ => panic!("double click"),
    }
    match frame_action_step("e1", &ActionKind::Scroll { direction: Some("sideways".to_string()), amount: None }, "s1") {
        FrameStep::Act { waits, op: FrameOp::Script { script, .. } } => {
            assert_eq!(waits.len(), 1);
            assert!(matches!(script, Err(Error::InvalidParameter(_))));
        }
        _ => panic!("scroll"),
    }
}
