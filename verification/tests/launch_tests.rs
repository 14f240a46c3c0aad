use agent_browser::types::{BrowserConfig, HeadlessMode};

#[test]
fn default_launch_is_new_headless_with_stealth() {
    let plan = BrowserConfig::default().launch_plan();
    assert!(!plan.with_head);
    assert_eq!(
        plan.args,
        vec![
            "--headless=new",
            "--disable-blink-features=AutomationControlled",
            "--disable-infobars",
            "--disable-dev-shm-usage",
            "--disable-gpu",
            "--window-size=1920,1080",
        ]
    );
    assert_eq!(plan.request_timeout_ms, 30_000);
    assert!(plan.user_data_dir.is_none());
    assert!(plan.executable.is_none());
}

#[test]
fn headed_launch_keeps_extra_arguments_last() {
    let mut config = BrowserConfig::headed()
        .with_stealth(false)
        .with_arg("--lang=en".to_string())
        .with_profile_dir("/tmp/profile".to_string())
        .with_browser_path("/usr/bin/chromium".to_string());
    config.no_sandbox = true;
    config.action_timeout_ms = 45_000;
    let plan = config.launch_plan();
    assert!(plan.with_head);
    assert_eq!(plan.args, vec!["--no-sandbox", "--lang=en"]);
    assert_eq!(plan.request_timeout_ms, 45_000);
    assert_eq!(config.request_timeout_ms(), 45_000);
    assert_eq!(plan.user_data_dir.as_deref(), Some("/tmp/profile"));
    assert_eq!(plan.executable.as_deref(), Some("/usr/bin/chromium"));
    let old = BrowserConfig::headless_old().launch_plan();
    assert!(!old.with_head);
    assert!(!old.args.iter().any(|a| a == "--headless=new"));
}

#[test]
fn environment_and_browser_detection() {
    let c = BrowserConfig::default().with_environment(
        Some("/opt/chrome".to_string()),
        "/tmp".to_string(),
        Some("/work".to_string()),
    );
    assert_eq!(c.browser_path.as_deref(), Some("/opt/chrome"));
    assert_eq!(c.allowed_file_roots, vec!["/tmp", "/work"]);
    assert_eq!(c.headless, HeadlessMode::New);
    let candidates = vec!["/a".to_string(), "/b".to_string(), "/c".to_string()];
    assert_eq!(BrowserConfig::detect_chrome_path(&candidates, &vec![false, true, true]).as_deref(), Some("/b"));
    assert_eq!(BrowserConfig::detect_chrome_path(&candidates, &vec![false, false, false]), None);
}
