use agent_browser::keys::KeyModifier;
use agent_browser::mcp::{
    initialize_result, prompt_get, prompts_list, resource_contents, resource_kind, resource_read_failure,
    resources_list, supported_protocol_versions, tool_call_result, Content, LogLevel, PromptGetParams,
    ResourceContents, ResourceKind, Route, ServerSession, ERR_INVALID_PARAMS, ERR_INVALID_REQUEST,
    ERR_METHOD_NOT_FOUND, ERR_RESOURCE_NOT_FOUND, ERR_INTERNAL,
};
use agent_browser::tools::{download_reply, iframe_reply, navigation_reply, tool_command, ArgValue, ToolCommand};
use agent_browser::types::{DownloadResult, DownloadStatus, NavigationWaitUntil};

fn args(pairs: Vec<(&str, ArgValue)>) -> Vec<(String, ArgValue)> {
    pairs.into_iter().map(|(k, v)| (k.to_string(), v)).collect()
}

fn s(v: &str) -> ArgValue {
    ArgValue::Str(v.to_string())
}

#[test]
fn sessions_serve_only_initialize_and_ping_before_initialization() {
    let mut session = ServerSession::new();
    match session.route("tools/list") {
        Route::Refused(e) => {
            assert_eq!(e.code, ERR_INVALID_REQUEST);
            assert_eq!(e.message, "Server has not received notifications/initialized");
        }
        _ => panic!("tools/list must wait for initialization"),
    }
    assert!(matches!(session.route("initialize"), Route::Initialize));
    assert!(matches!(session.route("ping"), Route::Ping));
    session.notify("notifications/cancelled");
    assert!(!session.initialized);
    session.notify("notifications/initialized");
    assert!(session.initialized);
    assert!(matches!(session.route("tools/call"), Route::ToolsCall));
    assert!(matches!(session.route("logging/setLevel"), Route::SetLogLevel));
    match session.route("tools/destroy") {
        Route::Refused(e) => {
            assert_eq!(e.code, ERR_METHOD_NOT_FOUND);
            assert_eq!(e.message, "Method not found: tools/destroy");
        }
        _ => panic!("unknown methods are refused"),
    }
}

#[test]
fn initialize_announces_the_server() {
    let r = initialize_result("2024-11-05", "1.2.3");
    assert_eq!(r.protocol_version, "2024-11-05");
    let info = r.server_info.unwrap();
    assert_eq!(info.name, "agent-browser-mcp");
    assert_eq!(info.version, "1.2.3");
    assert!(r.capabilities.logging.is_some());
    assert!(r.capabilities.completions.is_none());
    assert_eq!(initialize_result("1999-01-01", "1.2.3").protocol_version, "2025-11-25");
    assert_eq!(supported_protocol_versions(), vec!["2025-11-25", "2025-06-18", "2025-03-26", "2024-11-05"]);
}

#[test]
fn log_levels_by_name() {
    assert_eq!(LogLevel::from_str("WARNING"), Some(LogLevel::Warning));
    assert_eq!(LogLevel::from_str("verbose"), None);
    assert_eq!(LogLevel::Emergency.as_str(), "emergency");
}

#[test]
fn tool_results_flag_errors() {
    let ok = tool_call_result(Ok("done".to_string()));
    assert!(!ok.is_error);
    match &ok.content[0] {
        Content::Text { text } => assert_eq!(text, "done"),
        _ => panic!("text content expected"),
    }
    let err = tool_call_result(Err("boom".to_string()));
    assert!(err.is_error);
    match &err.content[0] {
        Content::Text { text } => assert_eq!(text, "Error: boom"),
        _ => panic!("text content expected"),
    }
}

#[test]
fn resources_are_listed_and_read() {
    let list = resources_list();
    assert_eq!(list.resources.len(), 2);
    assert_eq!(list.resources[0].uri, "resource://browser/screenshot");
    assert_eq!(list.resources[1].mime_type.as_deref(), Some("text/plain"));
    let kind = resource_kind("resource://browser/snapshot").unwrap();
    assert!(matches!(kind, ResourceKind::Snapshot));
    let read = resource_contents("resource://browser/snapshot", &kind, "tree".to_string());
    match &read.contents[0] {
        ResourceContents::Text { uri, mime_type, text } => {
            assert_eq!(uri, "resource://browser/snapshot");
            assert_eq!(mime_type.as_deref(), Some("text/plain"));
            assert_eq!(text, "tree");
        }
        _ => panic!("a snapshot is text"),
    }
    let shot = resource_kind("resource://browser/screenshot").unwrap();
    match &resource_contents("resource://browser/screenshot", &shot, "iVBOR".to_string()).contents[0] {
        ResourceContents::Blob { blob, mime_type, .. } => {
            assert_eq!(blob, "iVBOR");
            assert_eq!(mime_type.as_deref(), Some("image/png"));
        }
        _ => panic!("a screenshot is a blob"),
    }
    match resource_kind("resource://browser/cookies") {
        Err(e) => {
            assert_eq!(e.code, ERR_RESOURCE_NOT_FOUND);
            assert_eq!(e.message, "Resource not found: resource://browser/cookies");
        }
        Ok(_) => panic!("unknown resource"),
    }
    let failure = resource_read_failure(&shot, &"no page".to_string());
    assert_eq!(failure.code, ERR_INTERNAL);
    assert_eq!(failure.message, "Failed to take screenshot: no page");
}

#[test]
fn prompts_are_filled_from_arguments() {
    let list = prompts_list();
    assert_eq!(list.prompts.len(), 3);
    assert_eq!(list.prompts[1].name, "fill_form");
    let params = PromptGetParams {
        name: "analyze_page".to_string(),
        arguments: Some(vec![("focus_area".to_string(), "forms".to_string())]),
    };
    let got = prompt_get(&params).unwrap();
    assert_eq!(got.description.as_deref(), Some("Prompt: analyze_page"));
    let form = prompt_get(&PromptGetParams {
        name: "fill_form".to_string(),
        arguments: Some(vec![("form_data".to_string(), "email=user@example.com".to_string())]),
    })
    .unwrap();
    assert_eq!(form.description.as_deref(), Some("Guide for filling out a web form"));
    assert_eq!(form.messages.len(), 1);
    assert_eq!(form.messages[0].role, "user");
    match &form.messages[0].content {
        Content::Text { text } => assert!(text.contains("email=user@example.com")),
        _ => panic!("text prompt"),
    }
    match &got.messages[0].content {
        Content::Text { text } => assert_eq!(
            text,
            "Please analyze the current page, focusing on: forms. Use browser_snapshot to get the page structure."
        ),
        _ => panic!("text prompt"),
    }
    let defaults = prompt_get(&PromptGetParams { name: "extract_data".to_string(), arguments: None }).unwrap();
    match &defaults.messages[0].content {
        Content::Text { text } => assert!(text.starts_with("Extract data from the page using selectors: all text content.")),
        _ => panic!("text prompt"),
    }
    match prompt_get(&PromptGetParams { name: "summarize".to_string(), arguments: None }) {
        Err(e) => {
            assert_eq!(e.code, ERR_INVALID_PARAMS);
            assert_eq!(e.message, "Unknown prompt: summarize");
        }
        Ok(_) => panic!("unknown prompt"),
    }
}

#[test]
fn tool_calls_read_their_arguments() {
    match tool_command("browser_type", &args(vec![("ref_id", s("e1")), ("snapshot_id", s("s1")), ("text", s("hi"))])) {
        Ok(ToolCommand::Type { ref_id, snapshot_id, text, clear_first }) => {
            assert_eq!(ref_id, "e1");
            assert_eq!(snapshot_id, "s1");
            assert_eq!(text, "hi");
            assert!(!clear_first);
        }
        _ => panic!("browser_type"),
    }
    match tool_command("browser_type", &args(vec![("ref_id", s("e1")), ("snapshot_id", s("s1"))])) {
        Err(m) => assert_eq!(m, "Missing 'text' parameter"),
        Ok(_) => panic!("text is required"),
    }
    match tool_command("browser_scroll", &args(vec![("ref_id", s("e1")), ("snapshot_id", s("s1"))])) {
        Ok(ToolCommand::Scroll { direction, amount, .. }) => {
            assert_eq!(direction, "down");
            assert_eq!(amount, 300);
        }
        _ => panic!("browser_scroll"),
    }
    let up = vec![("ref_id", s("e1")), ("snapshot_id", s("s1")), ("direction", s("up")), ("amount", ArgValue::NegInt(-50))];
    match tool_command("browser_scroll", &args(up)) {
        Ok(ToolCommand::Scroll { direction, amount, .. }) => {
            assert_eq!(direction, "up");
            assert_eq!(amount, -50);
        }
        _ => panic!("browser_scroll"),
    }
    match tool_command("browser_wait_for_network_idle", &args(vec![("idle_ms", ArgValue::PosInt(250))])) {
        Ok(ToolCommand::WaitForNetworkIdle { idle_ms, timeout_ms }) => {
            assert_eq!(idle_ms, 250);
            assert_eq!(timeout_ms, 30000);
        }
        _ => panic!("browser_wait_for_network_idle"),
    }
    let mods = ArgValue::Array(vec![s("ctrl"), s("bogus"), s("Shift")]);
    match tool_command("browser_press_key", &args(vec![("key", s("a")), ("modifiers", mods)])) {
        Ok(ToolCommand::PressKey { key, modifiers }) => {
            assert_eq!(key, "a");
            assert_eq!(modifiers, vec![KeyModifier::Control, KeyModifier::Shift]);
        }
        _ => panic!("browser_press_key"),
    }
    match tool_command("browser_navigate_with_options", &args(vec![("url", s("https://a.test")), ("wait_until", s("networkIdle"))])) {
        Ok(ToolCommand::NavigateWithOptions { url, wait_label, wait_until }) => {
            assert_eq!(url, "https://a.test");
            assert_eq!(wait_label, "networkIdle");
            assert_eq!(wait_until, NavigationWaitUntil::NetworkIdle);
        }
        _ => panic!("browser_navigate_with_options"),
    }
    match tool_command("browser_set_viewport", &args(vec![("width", ArgValue::PosInt(800))])) {
        Err(m) => assert_eq!(m, "Missing 'height' parameter"),
        Ok(_) => panic!("height is required"),
    }
    match tool_command("browser_fly", &args(vec![])) {
        Err(m) => assert_eq!(m, "Unknown tool: browser_fly"),
        Ok(_) => panic!("unknown tool"),
    }
}

#[test]
fn tool_replies() {
    let wait = tool_command("browser_wait", &args(vec![("timeout_ms", ArgValue::PosInt(250))])).unwrap();
    assert_eq!(wait.fixed_reply().as_deref(), Some("Waited 250ms"));
    let close = tool_command("browser_close_tab", &args(vec![("tab_id", s("T1"))])).unwrap();
    assert_eq!(close.fixed_reply().as_deref(), Some("Closed tab: T1"));
    let viewport =
        tool_command("browser_set_viewport", &args(vec![("width", ArgValue::PosInt(800)), ("height", ArgValue::PosInt(600))]))
            .unwrap();
    assert_eq!(viewport.fixed_reply().as_deref(), Some("Viewport set to 800x600"));
    let snapshot = tool_command("browser_snapshot", &args(vec![])).unwrap();
    assert!(snapshot.fixed_reply().is_none());
    let url = "https://a.test".to_string();
    let title = "A".to_string();
    let final_url = "https://a.test/".to_string();
    assert_eq!(
        navigation_reply(&url, Some(&"load".to_string()), &title, &final_url),
        "Navigated to https://a.test (wait: load)\nTitle: A\nFinal URL: https://a.test/"
    );
    assert_eq!(navigation_reply(&url, None, &title, &final_url), "Navigated to https://a.test\nTitle: A\nFinal URL: https://a.test/");
    assert_eq!(iframe_reply(true, 2), "Entered iframe, depth: 2");
    assert_eq!(iframe_reply(false, 0), "Exited iframe, depth: 0");
    let result = DownloadResult {
        guid: "g1".to_string(),
        filename: "a.pdf".to_string(),
        file_path: "/tmp/a.pdf".to_string(),
        size: Some(1024),
        mime_type: None,
        status: DownloadStatus::Completed,
    };
    assert_eq!(download_reply(&result), "Download complete: g1 -> /tmp/a.pdf\nSize: 1024 bytes\nStatus: Completed");
}

#[test]
fn tool_reading_fails_only_on_missing_arguments() {
    let none: Vec<(String, ArgValue)> = Vec::new();
    assert!(tool_command("browser_wait", &none).is_ok());
    assert!(tool_command("browser_get_viewport", &none).is_ok());
    assert_eq!(tool_command("browser_type", &args(vec![("text", s("x"))])).err(), Some("Missing 'ref_id' parameter".to_string()));
    assert_eq!(tool_command("browser_type", &args(vec![("ref_id", s("ax1"))])).err(), Some("Missing 'snapshot_id' parameter".to_string()));
    let reference = || vec![("ref_id", s("ax1")), ("snapshot_id", s("s1"))];
    assert_eq!(tool_command("browser_type", &args(reference())).err(), Some("Missing 'text' parameter".to_string()));
    assert!(tool_command("browser_click", &args(reference())).is_ok());
    assert!(tool_command("browser_scroll", &args(reference())).is_ok());
    assert_eq!(tool_command("browser_scroll", &none).err(), Some("Missing 'ref_id' parameter".to_string()));
    assert_eq!(tool_command("browser_enter_iframe", &args(vec![("ref_id", s("ax1"))])).err(), Some("Missing 'snapshot_id' parameter".to_string()));
    assert_eq!(tool_command("browser_fly", &none).err(), Some("Unknown tool: browser_fly".to_string()));
}
