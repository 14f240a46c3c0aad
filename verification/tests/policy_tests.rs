use agent_browser::error::Error;
use agent_browser::policy::{
    check_url_policy, finish_host_check, is_restricted_ip, is_sensitive_header, port_or_known_default,
    resolution_failed, sanitize_headers, wildcard_match, BlockRules, IpAddress, ParsedUrl, UrlPolicy,
};
use agent_browser::types::BrowserConfig;

fn denied_message(p: UrlPolicy) -> String {
    match p {
        UrlPolicy::Denied(e) => e.message(),
        _ => panic!("expected a refusal"),
    }
}

#[test]
fn default_policy_checks_the_host_of_web_urls() {
    let config = BrowserConfig::default();
    match check_url_policy(&config, "https://example.com/path") {
        UrlPolicy::CheckHost { url, host, port } => {
            assert_eq!(host, "example.com");
            assert_eq!(port, 443);
            assert_eq!(url.scheme, "https");
        }
        _ => panic!("a web URL needs its host checked"),
    }
    match check_url_policy(&config, "http://example.com:8080/") {
        UrlPolicy::CheckHost { port, .. } => assert_eq!(port, 8080),
        _ => panic!("a web URL needs its host checked"),
    }
}

#[test]
fn special_schemes_and_refusals() {
    let config = BrowserConfig::default();
    assert!(matches!(check_url_policy(&config, "about:blank"), UrlPolicy::Allowed(_)));
    assert!(matches!(check_url_policy(&config, "data:text/plain,hi"), UrlPolicy::Allowed(_)));
    assert_eq!(
        denied_message(check_url_policy(&config, "ftp://example.com/")),
        "Network access denied: Unsupported URL scheme: ftp"
    );
    match check_url_policy(&config, "not a url") {
        UrlPolicy::Denied(Error::InvalidParameter(m)) => assert!(m.starts_with("Invalid URL: ")),
        _ => panic!("an unparsable URL is an invalid parameter"),
    }
}

#[test]
fn origin_lists_and_private_networks() {
    let mut config = BrowserConfig::default();
    config.blocked_origins = vec!["https://*.ads.test".to_string()];
    assert_eq!(
        denied_message(check_url_policy(&config, "https://x.ads.test/")),
        "Network access denied: Origin is blocked: https://x.ads.test"
    );
    let mut config = BrowserConfig::default();
    config.allowed_origins = vec!["https://good.test".to_string()];
    assert_eq!(
        denied_message(check_url_policy(&config, "https://other.test/")),
        "Network access denied: Origin is not allowlisted: https://other.test"
    );
    let config = BrowserConfig::default().with_private_networks(true);
    assert!(matches!(check_url_policy(&config, "http://127.0.0.1:9000/"), UrlPolicy::Allowed(_)));
}

#[test]
fn restricted_addresses() {
    assert!(is_restricted_ip(IpAddress::V4(10, 1, 2, 3)));
    assert!(is_restricted_ip(IpAddress::V4(172, 16, 0, 1)));
    assert!(!is_restricted_ip(IpAddress::V4(172, 32, 0, 1)));
    assert!(is_restricted_ip(IpAddress::V4(192, 168, 1, 1)));
    assert!(is_restricted_ip(IpAddress::V4(169, 254, 0, 1)));
    assert!(is_restricted_ip(IpAddress::V4(100, 64, 0, 1)));
    assert!(is_restricted_ip(IpAddress::V4(224, 0, 0, 1)));
    assert!(!is_restricted_ip(IpAddress::V4(93, 184, 216, 34)));
    assert!(is_restricted_ip(IpAddress::V6(0, 0, 0, 0, 0, 0, 0, 1)));
    assert!(is_restricted_ip(IpAddress::V6(0xfd00, 0, 0, 0, 0, 0, 0, 1)));
    assert!(is_restricted_ip(IpAddress::V6(0xfe80, 0, 0, 0, 0, 0, 0, 1)));
    assert!(!is_restricted_ip(IpAddress::V6(0x2001, 0xdb8, 0, 0, 0, 0, 0, 1)));
}

fn parsed(host: &str) -> ParsedUrl {
    ParsedUrl {
        scheme: "https".to_string(),
        host: Some(host.to_string()),
        port: None,
        origin: format!("https://{host}"),
    }
}

#[test]
fn host_checks_need_public_addresses() {
    let host = "example.com".to_string();
    let ok = finish_host_check(parsed("example.com"), &host, &vec![IpAddress::V4(93, 184, 216, 34)]).unwrap();
    assert_eq!(ok.origin, "https://example.com");
    let mixed = vec![IpAddress::V4(93, 184, 216, 34), IpAddress::V4(10, 0, 0, 1)];
    match finish_host_check(parsed("example.com"), &host, &mixed) {
        Err(e) => assert_eq!(e.message(), "Network access denied: Host resolves to a private or local network: example.com"),
        Ok(_) => panic!("a private address must be refused"),
    }
    assert!(finish_host_check(parsed("example.com"), &host, &vec![]).is_err());
    let e = resolution_failed(&host, &"no such host".to_string());
    assert_eq!(e.message(), "Network access denied: Failed to resolve host example.com: no such host");
}

#[test]
fn default_ports_by_scheme() {
    let mut u = parsed("a.test");
    assert_eq!(port_or_known_default(&u), Some(443));
    u.scheme = "http".to_string();
    assert_eq!(port_or_known_default(&u), Some(80));
    u.port = Some(8443);
    assert_eq!(port_or_known_default(&u), Some(8443));
}

#[test]
fn credentials_are_redacted_from_headers() {
    assert!(is_sensitive_header(&"Authorization".to_string()));
    assert!(is_sensitive_header(&"X-API-KEY".to_string()));
    assert!(!is_sensitive_header(&"Accept".to_string()));
    let headers = vec![
        ("Cookie".to_string(), "session=1".to_string()),
        ("Accept".to_string(), "text/html".to_string()),
    ];
    let redacted = sanitize_headers(headers.clone(), false);
    assert_eq!(
        redacted,
        vec![
            ("Cookie".to_string(), "<redacted>".to_string()),
            ("Accept".to_string(), "text/html".to_string()),
        ]
    );
    assert_eq!(sanitize_headers(headers.clone(), true), headers);
}

#[test]
fn wildcard_patterns() {
    assert!(wildcard_match("*", "anything"));
    assert!(wildcard_match("*.png", "https://a.test/x.png"));
    assert!(!wildcard_match("*.png", "https://a.test/x.png?v=1"));
    assert!(wildcard_match("https://ads.*", "https://ads.test/banner"));
    assert!(!wildcard_match("https://ads.*", "http://ads.test/banner"));
    assert!(wildcard_match("*tracker*", "https://cdn.test/tracker.js"));
    assert!(wildcard_match("exact", "exact"));
    assert!(!wildcard_match("exact", "exactly"));
}

#[test]
fn block_rules_block_and_unblock() {
    let mut rules = BlockRules::new();
    rules.update("*.png", true).unwrap();
    rules.update("*.png", true).unwrap();
    rules.update("*tracker*", true).unwrap();
    assert_eq!(rules.patterns(), vec!["*.png".to_string(), "*tracker*".to_string()]);
    assert!(rules.blocks("https://a.test/logo.png"));
    rules.update("*.png", false).unwrap();
    assert!(!rules.blocks("https://a.test/logo.png"));
    assert!(rules.blocks("https://a.test/tracker.js"));
    match rules.request_block("https://a.test/tracker.js") {
        Some(e) => assert_eq!(e.message(), "Network access denied: URL matches a runtime block rule: https://a.test/tracker.js"),
        None => panic!("the tracker is blocked"),
    }
    assert!(rules.request_block("https://a.test/logo.png").is_none());
    match rules.update("   ", true) {
        Err(e) => assert_eq!(e.message(), "Invalid parameter: URL interception pattern cannot be empty"),
        Ok(_) => panic!("a blank pattern must be refused"),
    }
    assert_eq!(rules.patterns().len(), 1);
    rules.clear();
    assert!(rules.patterns().is_empty());
}

#[test]
fn patterns_without_a_star_match_only_themselves() {
    assert!(wildcard_match("https://a.test/x", "https://a.test/x"));
    assert!(!wildcard_match("https://a.test/x", "https://a.test/xy"));
    assert!(!wildcard_match("https://a.test/x", "zhttps://a.test/x"));
    assert!(wildcard_match("", ""));
    assert!(!wildcard_match("", "a"));
    assert!(wildcard_match("https://ads.*", "https://ads.example.com/x.js"));
    assert!(!wildcard_match("*.png", "x.png.bak"));
}
