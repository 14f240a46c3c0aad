use agent_browser::actions::ActionResult;
use agent_browser::error::Error;
use agent_browser::http_api::{event_belongs_to_session, parse_wait_until, validate_server_config, HttpConfig, is_loopback};
use agent_browser::mcp::{negotiate_version, MCP_PROTOCOL_VERSION};
use agent_browser::policy::{origin_matches, IpAddress, ParsedUrl};
use agent_browser::types::{BrowserConfig, HeadlessMode, NavigationWaitUntil, ToolResult};

#[test]
fn test_action_result_failure() {
    let result = ActionResult {
        success: false,
        message: "Element not found".to_string(),
    };

    assert!(!result.success);
    assert_eq!(result.message, "Element not found");
}

#[test]
fn test_headless_mode_default() {
    assert_eq!(HeadlessMode::default(), HeadlessMode::New);
}

#[test]
fn test_browser_config_default() {
    let config = BrowserConfig::default();
    assert_eq!(config.headless, HeadlessMode::New);
    assert!(config.stealth);
    assert_eq!(config.navigation_timeout_ms, 30_000);
    assert_eq!(config.action_timeout_ms, 10_000);
    assert!(config.extra_args.is_empty());
}

#[test]
fn test_browser_config_headless() {
    let config = BrowserConfig::headless();
    assert_eq!(config.headless, HeadlessMode::New);
}

#[test]
fn test_browser_config_headed() {
    let config = BrowserConfig::headed();
    assert_eq!(config.headless, HeadlessMode::Headed);
}

#[test]
fn test_browser_config_headless_old() {
    let config = BrowserConfig::headless_old();
    assert_eq!(config.headless, HeadlessMode::Old);
}

#[test]
fn test_browser_config_builder() {
    let config = BrowserConfig::default()
        .with_headless(HeadlessMode::Headed)
        .with_stealth(false)
        .with_browser_path("/usr/bin/chrome".to_string())
        .with_profile_dir("/tmp/profile".to_string())
        .with_arg("--disable-web-security".to_string());

    assert_eq!(config.headless, HeadlessMode::Headed);
    assert!(!config.stealth);
    assert_eq!(config.browser_path, Some("/usr/bin/chrome".to_string()));
    assert_eq!(config.profile_dir, Some("/tmp/profile".to_string()));
    assert!(config.extra_args.contains(&"--disable-web-security".to_string()));
}

#[test]
fn test_tool_result_success() {
    let result = ToolResult::success("Operation completed".to_string());
    assert!(result.success);
    assert_eq!(result.output, "Operation completed");
    assert!(result.error.is_none());
}

#[test]
fn test_tool_result_error() {
    let result = ToolResult::error("Something went wrong".to_string());
    assert!(!result.success);
    assert!(result.output.is_empty());
    assert_eq!(result.error, Some("Something went wrong".to_string()));
}

#[test]
fn test_error_display() {
    let err = Error::LaunchFailed("Chrome not found".to_string());
    assert_eq!(err.message(), "Browser launch failed: Chrome not found");

    let err = Error::NotLaunched;
    assert_eq!(err.message(), "Browser not launched");

    let err = Error::NoActivePage;
    assert_eq!(err.message(), "No active page, please use browser_navigate first");
}

#[test]
fn test_error_element_not_found() {
    let err = Error::ElementNotFound("ax42".to_string());
    assert_eq!(err.message(), "Element not found: ref_id=ax42");
}

#[test]
fn test_error_page_changed() {
    let err = Error::PageChanged {
        expected: "https://example.com/page1".to_string(),
        current: "https://example.com/page2".to_string(),
    };
    let msg = err.message();
    assert!(msg.contains("Page changed"));
    assert!(msg.contains("page1"));
    assert!(msg.contains("page2"));
}

#[test]
fn test_error_timeout() {
    let err = Error::Timeout("Operation timed out after 30s".to_string());
    assert_eq!(err.message(), "Operation timeout: Operation timed out after 30s");
}

#[test]
fn test_error_cdp() {
    let err = Error::Cdp("Connection closed".to_string());
    assert_eq!(err.message(), "CDP error: Connection closed");
}

#[test]
fn test_error_javascript() {
    let err = Error::JavaScript("undefined is not a function".to_string());
    assert_eq!(err.message(), "JavaScript error: undefined is not a function");
}

#[test]
fn test_error_invalid_parameter() {
    let err = Error::InvalidParameter("url cannot be empty".to_string());
    assert_eq!(err.message(), "Invalid parameter: url cannot be empty");
}

#[test]
fn test_result_type() {
    fn returns_ok() -> Result<i32, Error> {
        Ok(42)
    }

    fn returns_err() -> Result<i32, Error> {
        Err(Error::Timeout("test".to_string()))
    }

    assert!(returns_ok().is_ok());
    assert!(returns_err().is_err());
}

#[test]
fn http_defaults_to_loopback() {
    let config = HttpConfig::default();
    assert!(is_loopback(config.host));
    assert!(validate_server_config(&config).is_ok());
}

#[test]
fn non_loopback_requires_api_key() {
    let mut config = HttpConfig { host: IpAddress::V4(0, 0, 0, 0), ..HttpConfig::default() };
    assert!(validate_server_config(&config).is_err());
    config.api_key = Some("secret".to_string());
    assert!(validate_server_config(&config).is_ok());
}

#[test]
fn parses_navigation_wait_strategies() {
    assert_eq!(parse_wait_until(None).unwrap(), NavigationWaitUntil::Load);
    assert_eq!(
        parse_wait_until(Some("domContentLoaded")).unwrap(),
        NavigationWaitUntil::DomContentLoaded
    );
    assert_eq!(parse_wait_until(Some("networkidle")).unwrap(), NavigationWaitUntil::NetworkIdle);
    assert_eq!(parse_wait_until(Some("none")).unwrap(), NavigationWaitUntil::NoWait);
    assert!(parse_wait_until(Some("networkidle0")).is_err());
}

#[test]
fn websocket_events_are_session_scoped() {
    assert!(event_belongs_to_session(Some("session-a"), "session-a"));
    assert!(!event_belongs_to_session(Some("session-a"), "session-b"));
    assert!(!event_belongs_to_session(None, "session-a"));
}

#[test]
fn test_negotiate_version_supported() {
    assert_eq!(negotiate_version("2025-11-25"), "2025-11-25");
    assert_eq!(negotiate_version("2024-11-05"), "2024-11-05");
}

#[test]
fn test_negotiate_version_unsupported() {
    assert_eq!(negotiate_version("2099-01-01"), MCP_PROTOCOL_VERSION);
}

fn parsed(raw: &str) -> ParsedUrl {
    let u = url::Url::parse(raw).unwrap();
    ParsedUrl {
        scheme: u.scheme().to_string(),
        host: u.host_str().map(|h| h.to_string()),
        port: u.port(),
        origin: u.origin().ascii_serialization(),
    }
}

#[test]
fn wildcard_origin_matches_scheme_and_port() {
    let https = parsed("https://app.example.com/path");
    let http = parsed("http://app.example.com/path");
    let custom_port = parsed("https://app.example.com:8443/path");

    assert!(origin_matches("https://*.example.com", &https));
    assert!(!origin_matches("https://*.example.com", &http));
    assert!(!origin_matches("https://*.example.com", &custom_port));
    assert!(origin_matches("https://*.example.com:8443", &custom_port));
}
