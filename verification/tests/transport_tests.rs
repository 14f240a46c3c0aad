use agent_browser::cli::{parse_args, parse_sse_event, CliOutcome, TransportType};
use agent_browser::mcp_client::{
    classify_message, pending_request_number, sse_url, ResponseId, SseBuffer, SseConfig, StreamMessage,
};

fn args(v: &[&str]) -> Vec<String> {
    v.iter().map(|s| s.to_string()).collect()
}

#[test]
fn cli_defaults_to_stdio_on_3000() {
    match parse_args(&args(&["agent-browser-mcp"])) {
        CliOutcome::Run { transport, port } => {
            assert_eq!(transport, TransportType::Stdio);
            assert_eq!(port, 3000);
        }
        _ => panic!("expected run"),
    }
}

#[test]
fn cli_reads_transport_and_port() {
    match parse_args(&args(&["mcp", "--transport", "SSE", "-p", "+8080", "extra"])) {
        CliOutcome::Run { transport, port } => {
            assert_eq!(transport, TransportType::Sse);
            assert_eq!(port, 8080);
        }
        _ => panic!("expected run"),
    }
    match parse_args(&args(&["mcp", "-t", "http"])) {
        CliOutcome::Run { transport, .. } => assert_eq!(transport, TransportType::Http),
        _ => panic!("expected run"),
    }
}

#[test]
fn cli_reports_errors_and_help() {
    match parse_args(&args(&["mcp", "--transport"])) {
        CliOutcome::Fail(m) => assert_eq!(m, "Error: --transport requires a value"),
        _ => panic!("expected failure"),
    }
    match parse_args(&args(&["mcp", "--transport", "carrier-pigeon"])) {
        CliOutcome::Fail(m) => assert_eq!(m, "Error: Unknown transport type: carrier-pigeon"),
        _ => panic!("expected failure"),
    }
    match parse_args(&args(&["mcp", "--port", "70000"])) {
        CliOutcome::Fail(m) => assert_eq!(m, "Error: Invalid port number"),
        _ => panic!("expected failure"),
    }
    match parse_args(&args(&["mcp", "-p"])) {
        CliOutcome::Fail(m) => assert_eq!(m, "Error: --port requires a value"),
        _ => panic!("expected failure"),
    }
    assert!(matches!(parse_args(&args(&["mcp", "-h", "--port", "x"])), CliOutcome::Help));
}

#[test]
fn transport_names_ignore_case() {
    assert_eq!(TransportType::from_str("StDiO"), Ok(TransportType::Stdio));
    assert_eq!(TransportType::from_str("tcp"), Err("Unknown transport type: tcp".to_string()));
}

#[test]
fn sse_event_joins_data_lines() {
    assert_eq!(parse_sse_event("event: message\ndata: {\"a\":1}\n"), Some("{\"a\":1}".to_string()));
    assert_eq!(parse_sse_event("data:  one \r\ndata: two\r\nid: 3"), Some("one\ntwo".to_string()));
    assert_eq!(parse_sse_event(": comment\nretry: 10"), None);
    assert_eq!(parse_sse_event("data:no-space"), None);
}

#[test]
fn sse_stream_is_framed_by_blank_lines() {
    let mut buf = SseBuffer::new();
    assert_eq!(buf.push("data: a\n"), Vec::<String>::new());
    assert_eq!(buf.push("\ndata: b\n\ndata: "), vec!["data: a".to_string(), "data: b".to_string()]);
    assert_eq!(buf.push("c\n\n\n"), vec!["data: c".to_string()]);
    assert_eq!(buf.push("\n"), vec!["".to_string()]);
}

#[test]
fn sse_url_appends_path() {
    assert_eq!(sse_url("http://host/mcp//"), "http://host/mcp/sse");
    assert_eq!(sse_url("http://host"), "http://host/sse");
    let c = SseConfig::default();
    assert_eq!(c.timeout_ms, 30000);
}

#[test]
fn stream_messages_are_sorted() {
    assert_eq!(classify_message(true, true, false, true), StreamMessage::Response);
    assert_eq!(classify_message(true, false, false, true), StreamMessage::Notification);
    assert_eq!(classify_message(false, true, true, false), StreamMessage::Other);
    assert_eq!(pending_request_number(&ResponseId::Number(Some(7))), 7);
    assert_eq!(pending_request_number(&ResponseId::Number(None)), 0);
    assert_eq!(pending_request_number(&ResponseId::Text("12".to_string())), 12);
    assert_eq!(pending_request_number(&ResponseId::Text("x".to_string())), 0);
    assert_eq!(pending_request_number(&ResponseId::Other), 0);
}
