use agent_browser::actions::{
    action_step, download_script, element_action_message, element_selector, format_debug_list, scroll_plan, ActionKind,
    ActionStep,
};
use agent_browser::http_api::{
    act_request_action, apply_env, authorized, press_key_modifiers, search_limit, session_of, snapshot_options,
    wait_plan, ActRequest, HttpConfig, PressKeyRequest, ServerEnv, SnapshotQuery, WaitPlan, WaitRequest,
};
use agent_browser::keys::KeyModifier;
use agent_browser::policy::IpAddress;

#[test]
fn selectors_quote_references() {
    assert_eq!(element_selector("ax1", None), "[data-agent-ref=\"ax1\"]");
    assert_eq!(
        element_selector("ax1", Some("s-1")),
        "[data-agent-ref=\"ax1\"][data-agent-snapshot=\"s-1\"]"
    );
    assert_eq!(element_selector("a\"b", None), "[data-agent-ref=\"a\\\"b\"]");
}

#[test]
fn scrolls_are_planned_by_direction() {
    let p = scroll_plan(None, None).unwrap();
    assert_eq!((p.dx, p.dy), (0, 300));
    assert_eq!(p.message, "Scrolled down by 300px");
    let p = scroll_plan(Some("left"), Some(120)).unwrap();
    assert_eq!((p.dx, p.dy), (-120, 0));
    let p = scroll_plan(Some("up"), Some(-40)).unwrap();
    assert_eq!((p.dx, p.dy), (0, 40));
    assert_eq!(p.message, "Scrolled up by -40px");
    match scroll_plan(Some("sideways"), None) {
        Err(e) => assert_eq!(
            e.message(),
            "Invalid parameter: Invalid scroll direction 'sideways'. Must be one of: up, down, left, right"
        ),
        Ok(_) => panic!("unknown direction"),
    }
}

#[test]
fn action_steps_by_kind() {
    match action_step("ax1", &ActionKind::Click, Some("s1")).unwrap() {
        ActionStep::Pointer { selector } => assert_eq!(selector, "[data-agent-ref=\"ax1\"][data-agent-snapshot=\"s1\"]"),
        _ => panic!("clicks go through the pointer"),
    }
    match action_step("ax1", &ActionKind::Type { text: "x".to_string(), clear_first: None }, None).unwrap() {
        ActionStep::Element { editable, .. } => assert!(editable),
        _ => panic!("typing acts on the element"),
    }
    match action_step("ax1", &ActionKind::Focus, None).unwrap() {
        ActionStep::Element { editable, .. } => assert!(!editable),
        _ => panic!("focus acts on the element"),
    }
    match action_step("ax1", &ActionKind::Wait { timeout_ms: None }, None).unwrap() {
        ActionStep::Wait { ms, message } => {
            assert_eq!(ms, 1000);
            assert_eq!(message, "Waited 1000ms");
        }
        _ => panic!("waits need no element"),
    }
    match action_step("ax1", &ActionKind::Drag { target_ref_id: "ax2".to_string() }, None).unwrap() {
        ActionStep::Drag { source, target } => {
            assert_eq!(source, "[data-agent-ref=\"ax1\"]");
            assert_eq!(target, "[data-agent-ref=\"ax2\"]");
        }
        _ => panic!("drags address two elements"),
    }
    assert!(action_step("ax1", &ActionKind::Scroll { direction: Some("diagonal".to_string()), amount: None }, None).is_err());
}

#[test]
fn element_action_messages() {
    assert_eq!(element_action_message(&ActionKind::DoubleClick).unwrap(), "Double-clicked");
    assert_eq!(
        element_action_message(&ActionKind::Type { text: "héllo".to_string(), clear_first: Some(true) }).unwrap(),
        "Typed 5 characters"
    );
    assert_eq!(element_action_message(&ActionKind::Press { key: "Enter".to_string() }).unwrap(), "Pressed: Enter");
    assert_eq!(
        element_action_message(&ActionKind::Select { values: vec!["a".to_string(), "b".to_string()] }).unwrap(),
        "Selected: [\"a\", \"b\"]"
    );
    assert!(element_action_message(&ActionKind::Wait { timeout_ms: None }).is_err());
    assert_eq!(format_debug_list(&vec![]), "[]");
    assert_eq!(format_debug_list(&vec!["x\ny".to_string()]), "[\"x\\ny\"]");
}

#[test]
fn download_scripts_quote_the_url() {
    let script = download_script("https://a.test/f?x=\"1\"");
    assert!(script.contains("a.href = \"https://a.test/f?x=\\\"1\\\"\";"));
    assert!(script.contains("a.download = '';"));
}

#[test]
fn api_keys_gate_requests() {
    let key = "secret".to_string();
    assert!(authorized(None, None, None));
    assert!(authorized(Some(&key), Some("secret"), None));
    assert!(authorized(Some(&key), None, Some("Bearer secret")));
    assert!(!authorized(Some(&key), Some("wrong"), Some("Bearer nope")));
    assert!(!authorized(Some(&key), None, Some("secret")));
    assert!(!authorized(Some(&key), None, None));
}

#[test]
fn sessions_come_from_the_header() {
    assert_eq!(session_of(Some("abc")), Some("abc".to_string()));
    assert_eq!(session_of(Some("")), None);
    assert_eq!(session_of(None), None);
}

#[test]
fn environment_overrides_the_configuration() {
    let env = ServerEnv {
        host: Some(IpAddress::V4(0, 0, 0, 0)),
        port: Some("8080".to_string()),
        api_key: Some(String::new()),
        default_timeout_ms: Some("soon".to_string()),
    };
    let c = apply_env(HttpConfig::default(), env);
    assert_eq!(c.host, IpAddress::V4(0, 0, 0, 0));
    assert_eq!(c.port, 8080);
    assert_eq!(c.api_key, None);
    assert_eq!(c.default_timeout_ms, 30_000);
    let env = ServerEnv {
        host: None,
        port: Some("99999".to_string()),
        api_key: Some("k".to_string()),
        default_timeout_ms: Some("+1500".to_string()),
    };
    let c = apply_env(HttpConfig::default(), env);
    assert_eq!(c.host, IpAddress::V4(127, 0, 0, 1));
    assert_eq!(c.port, 3000);
    assert_eq!(c.api_key.as_deref(), Some("k"));
    assert_eq!(c.default_timeout_ms, 1500);
}

fn act(action: &str) -> ActRequest {
    ActRequest {
        snapshot_id: "s1".to_string(),
        ref_id: "ax1".to_string(),
        action: action.to_string(),
        text: None,
        key: None,
        clear_first: None,
        values: None,
        target_ref_id: None,
        direction: None,
        amount: None,
        timeout_ms: None,
    }
}

#[test]
fn act_requests_name_actions() {
    assert!(matches!(act_request_action(act("right_click")), Ok(ActionKind::RightClick)));
    match act_request_action(act("type")) {
        Err(e) => {
            assert_eq!(e.error, "missing_param");
            assert_eq!(e.details.as_deref(), Some("'text' required for type"));
        }
        Ok(_) => panic!("text is required"),
    }
    let mut typed = act("type");
    typed.text = Some("hi".to_string());
    typed.clear_first = Some(true);
    match act_request_action(typed) {
        Ok(ActionKind::Type { text, clear_first }) => {
            assert_eq!(text, "hi");
            assert_eq!(clear_first, Some(true));
        }
        _ => panic!("type"),
    }
    match act_request_action(act("scroll")) {
        Ok(ActionKind::Scroll { direction, amount }) => {
            assert_eq!(direction.as_deref(), Some("down"));
            assert_eq!(amount, Some(300));
        }
        _ => panic!("scroll"),
    }
    match act_request_action(act("wait")) {
        Ok(ActionKind::Wait { timeout_ms }) => assert_eq!(timeout_ms, Some(1000)),
        _ => panic!("wait"),
    }
    match act_request_action(act("teleport")) {
        Err(e) => {
            assert_eq!(e.error, "unknown_action");
            assert_eq!(e.details.as_deref(), Some("Unknown action: teleport"));
        }
        Ok(_) => panic!("unknown action"),
    }
}

#[test]
fn waits_and_limits() {
    match wait_plan(WaitRequest { selector: Some("#x".to_string()), timeout_ms: None, idle_duration_ms: Some(5) }, 30_000) {
        WaitPlan::Selector { selector, timeout_ms } => {
            assert_eq!(selector, "#x");
            assert_eq!(timeout_ms, 30_000);
        }
        _ => panic!("a selector wins"),
    }
    match wait_plan(WaitRequest { selector: None, timeout_ms: Some(10), idle_duration_ms: Some(5) }, 30_000) {
        WaitPlan::NetworkIdle { idle_ms, timeout_ms } => assert_eq!((idle_ms, timeout_ms), (5, 10)),
        _ => panic!("network idle"),
    }
    match wait_plan(WaitRequest { selector: None, timeout_ms: None, idle_duration_ms: None }, 700) {
        WaitPlan::Sleep { timeout_ms } => assert_eq!(timeout_ms, 700),
        _ => panic!("sleep"),
    }
    assert_eq!(search_limit(None), 20);
    assert_eq!(search_limit(Some(0)), 1);
    assert_eq!(search_limit(Some(1000)), 200);
    let o = snapshot_options(SnapshotQuery { interactive_only: None, root_ref: None, max_depth: None, max_nodes: Some(9999) });
    assert!(o.interactive_only);
    assert_eq!(o.max_depth, Some(8));
    assert_eq!(o.max_nodes, 5000);
    let mods = press_key_modifiers(&PressKeyRequest {
        key: "a".to_string(),
        modifiers: vec!["Meta".to_string(), "alt".to_string()],
    });
    assert_eq!(mods, vec![KeyModifier::Meta, KeyModifier::Alt]);
}
