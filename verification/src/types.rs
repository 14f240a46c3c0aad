//! Plain data types shared by the browser engine, the HTTP API and the MCP server.
use vstd::prelude::*;

verus! {

/// Headless mode configuration.
#[derive(Debug, Clone, Copy, PartialEq, Eq, Structural)]
pub enum HeadlessMode {
    /// No headless mode (visible browser window).
    Headed,
    /// Old headless mode (easier to detect).
    Old,
    /// New headless mode (Chrome 112+, harder to detect).
    New,
}

impl Default for HeadlessMode {
    fn default() -> (mode: Self)
        ensures
            mode == HeadlessMode::New,
    {
        HeadlessMode::New
    }
}

/// Browser configuration.
pub struct BrowserConfig {
    /// Headless mode setting.
    pub headless: HeadlessMode,
    /// Browser executable path.
    pub browser_path: Option<String>,
    /// User data directory (for cookie persistence).
    pub profile_dir: Option<String>,
    /// Default navigation timeout in milliseconds.
    pub navigation_timeout_ms: u64,
    /// Default action timeout in milliseconds.
    pub action_timeout_ms: u64,
    /// Enable anti-detection scripts.
    pub stealth: bool,
    /// Extra browser launch arguments.
    pub extra_args: Vec<String>,
    /// Filesystem roots that uploads and downloads may access.
    pub allowed_file_roots: Vec<String>,
    /// Origin patterns the browser may never reach.
    pub blocked_origins: Vec<String>,
    /// When not empty, the only origin patterns the browser may reach.
    pub allowed_origins: Vec<String>,
    /// Whether hosts on private, loopback or link-local networks may be reached.
    pub allow_private_networks: bool,
    /// Launch Chrome without its sandbox.
    pub no_sandbox: bool,
    /// Keep credentials (cookies, authorization headers) in captured traffic.
    pub capture_sensitive_data: bool,
}

/// The model of a configuration's defaults, apart from what the host
/// environment decides (browser path, temporary and working directories).
pub open spec fn is_default_config(c: BrowserConfig) -> bool {
    &&& c.headless == HeadlessMode::New
    &&& c.browser_path is None
    &&& c.profile_dir is None
    &&& c.navigation_timeout_ms == 30_000
    &&& c.action_timeout_ms == 10_000
    &&& c.stealth
    &&& c.extra_args@.len() == 0
    &&& c.allowed_file_roots@.len() == 0
    &&& c.blocked_origins@.len() == 0
    &&& c.allowed_origins@.len() == 0
    &&& !c.allow_private_networks
    &&& !c.no_sandbox
    &&& !c.capture_sensitive_data
}

/// The fields of two configurations agree, apart from the headless mode.
pub open spec fn same_but_headless(a: BrowserConfig, b: BrowserConfig) -> bool {
    &&& opt_string_view(a.browser_path) == opt_string_view(b.browser_path)
    &&& opt_string_view(a.profile_dir) == opt_string_view(b.profile_dir)
    &&& a.navigation_timeout_ms == b.navigation_timeout_ms
    &&& a.action_timeout_ms == b.action_timeout_ms
    &&& a.stealth == b.stealth
    &&& strings_view(a.extra_args@) == strings_view(b.extra_args@)
    &&& strings_view(a.allowed_file_roots@) == strings_view(b.allowed_file_roots@)
    &&& strings_view(a.blocked_origins@) == strings_view(b.blocked_origins@)
    &&& strings_view(a.allowed_origins@) == strings_view(b.allowed_origins@)
    &&& a.allow_private_networks == b.allow_private_networks
    &&& a.no_sandbox == b.no_sandbox
    &&& a.capture_sensitive_data == b.capture_sensitive_data
}

/// The view of an optional string.
pub open spec fn opt_string_view(o: Option<String>) -> Option<Seq<char>> {
    match o {
        Some(s) => Some(s@),
        None => None,
    }
}

/// The views of a list of strings.
pub open spec fn strings_view(v: Seq<String>) -> Seq<Seq<char>> {
    Seq::new(v.len(), |i: int| v[i]@)
}

impl Default for BrowserConfig {
    fn default() -> (c: Self)
        ensures
            is_default_config(c),
    {
        BrowserConfig {
            headless: HeadlessMode::New,
            browser_path: None,
            profile_dir: None,
            navigation_timeout_ms: 30_000,
            action_timeout_ms: 10_000,
            stealth: true,
            extra_args: Vec::new(),
            allowed_file_roots: Vec::new(),
            blocked_origins: Vec::new(),
            allowed_origins: Vec::new(),
            allow_private_networks: false,
            no_sandbox: false,
            capture_sensitive_data: false,
        }
    }
}

/// Returns the first candidate path that exists (`exists[i]` tells whether
/// `candidates[i]` exists).
pub fn first_existing(candidates: &Vec<String>, exists: &Vec<bool>) -> (r: Option<String>)
    requires
        candidates.len() == exists.len(),
    ensures
        match r {
            Some(p) => exists|i: int|
                0 <= i < candidates.len() && exists@[i] && p@ == candidates@[i]@ && forall|j: int|
                    0 <= j < i ==> !exists@[j],
            None => forall|j: int| 0 <= j < candidates.len() ==> !exists@[j],
        },
{
    let mut i: usize = 0;
    while i < candidates.len()
        invariant
            i <= candidates.len(),
            candidates.len() == exists.len(),
            forall|j: int| 0 <= j < i ==> !exists@[j],
        decreases candidates.len() - i,
    {
        if exists[i] {
            return Some(candidates[i].clone());
        }
        i = i + 1;
    }
    None
}

impl BrowserConfig {
    /// A configuration in new headless mode.
    pub fn headless() -> (c: Self)
        ensures
            is_default_config(c),
            c.headless == HeadlessMode::New,
    {
        let mut c = Self::default();
        c.headless = HeadlessMode::New;
        c
    }

    /// A configuration with a visible browser window.
    pub fn headed() -> (c: Self)
        ensures
            c.headless == HeadlessMode::Headed,
            is_default_config(BrowserConfig { headless: HeadlessMode::New, ..c }),
    {
        let mut c = Self::default();
        c.headless = HeadlessMode::Headed;
        c
    }

    /// A configuration in old headless mode (better compatibility, easier to detect).
    pub fn headless_old() -> (c: Self)
        ensures
            c.headless == HeadlessMode::Old,
            is_default_config(BrowserConfig { headless: HeadlessMode::New, ..c }),
    {
        let mut c = Self::default();
        c.headless = HeadlessMode::Old;
        c
    }

    /// Sets the browser executable path.
    pub fn with_browser_path(self, path: String) -> (c: Self)
        ensures
            c == (BrowserConfig { browser_path: Some(path), ..self }),
    {
        let mut c = self;
        c.browser_path = Some(path);
        c
    }

    /// Sets the user data directory.
    pub fn with_profile_dir(self, dir: String) -> (c: Self)
        ensures
            c == (BrowserConfig { profile_dir: Some(dir), ..self }),
    {
        let mut c = self;
        c.profile_dir = Some(dir);
        c
    }

    /// Sets the headless mode.
    pub fn with_headless(self, mode: HeadlessMode) -> (c: Self)
        ensures
            c == (BrowserConfig { headless: mode, ..self }),
    {
        let mut c = self;
        c.headless = mode;
        c
    }

    /// Enables or disables stealth mode.
    pub fn with_stealth(self, stealth: bool) -> (c: Self)
        ensures
            c == (BrowserConfig { stealth, ..self }),
    {
        let mut c = self;
        c.stealth = stealth;
        c
    }

    /// Allows or forbids hosts on private networks.
    pub fn with_private_networks(self, allow: bool) -> (c: Self)
        ensures
            c == (BrowserConfig { allow_private_networks: allow, ..self }),
    {
        let mut c = self;
        c.allow_private_networks = allow;
        c
    }

    /// Adds a browser launch argument.
    pub fn with_arg(self, arg: String) -> (c: Self)
        ensures
            c.extra_args@ == self.extra_args@.push(arg),
            c == (BrowserConfig { extra_args: c.extra_args, ..self }),
    {
        let mut c = self;
        c.extra_args.push(arg);
        c
    }

    /// Adds a filesystem root that uploads and downloads may access.
    pub fn with_allowed_file_root(self, root: String) -> (c: Self)
        ensures
            c.allowed_file_roots@ == self.allowed_file_roots@.push(root),
            c == (BrowserConfig { allowed_file_roots: c.allowed_file_roots, ..self }),
    {
        let mut c = self;
        c.allowed_file_roots.push(root);
        c
    }

    /// Replaces the filesystem roots that uploads and downloads may access.
    pub fn with_allowed_file_roots(self, roots: Vec<String>) -> (c: Self)
        ensures
            c == (BrowserConfig { allowed_file_roots: roots, ..self }),
    {
        let mut c = self;
        c.allowed_file_roots = roots;
        c
    }

    /// Picks the browser executable: the first candidate that exists.
    pub fn detect_chrome_path(candidates: &Vec<String>, exists: &Vec<bool>) -> (r: Option<String>)
        requires
            candidates.len() == exists.len(),
        ensures
            match r {
                Some(p) => exists|i: int|
                    0 <= i < candidates.len() && exists@[i] && p@ == candidates@[i]@ && forall|j: int|
                        0 <= j < i ==> !exists@[j],
                None => forall|j: int| 0 <= j < candidates.len() ==> !exists@[j],
            },
    {
        first_existing(candidates, exists)
    }

    /// Fills in what the host environment decides: the detected browser
    /// path, then the temporary directory and (when known) the working
    /// directory as allowed file roots.
    pub fn with_environment(self, browser_path: Option<String>, temp_dir: String, current_dir: Option<String>) -> (c: Self)
        ensures
            c.browser_path == browser_path,
            c.allowed_file_roots@ == (match current_dir {
                Some(d) => self.allowed_file_roots@.push(temp_dir).push(d),
                None => self.allowed_file_roots@.push(temp_dir),
            }),
            c == (BrowserConfig { browser_path: c.browser_path, allowed_file_roots: c.allowed_file_roots, ..self }),
    {
        let mut c = self;
        c.browser_path = browser_path;
        c.allowed_file_roots.push(temp_dir);
        match current_dir {
            Some(d) => c.allowed_file_roots.push(d),
            None => {},
        }
        c
    }

    /// The CDP request timeout: the larger of the two configured timeouts.
    pub fn request_timeout_ms(&self) -> (r: u64)
        ensures
            r == if self.navigation_timeout_ms >= self.action_timeout_ms {
                self.navigation_timeout_ms
            } else {
                self.action_timeout_ms
            },
    {
        if self.navigation_timeout_ms >= self.action_timeout_ms {
            self.navigation_timeout_ms
        } else {
            self.action_timeout_ms
        }
    }
}

} // verus!

verus! {

/// Navigation wait strategy: when a navigation counts as complete.
#[derive(Debug, Clone, Copy, PartialEq, Eq, Structural)]
pub enum NavigationWaitUntil {
    /// Wait for the `load` event (default).
    Load,
    /// Wait for the `DOMContentLoaded` event.
    DomContentLoaded,
    /// Wait until the network has been idle for at least 500ms.
    NetworkIdle,
    /// Don't wait for any event; return as soon as the navigation is sent.
    NoWait,
}

impl Default for NavigationWaitUntil {
    fn default() -> (w: Self)
        ensures
            w == NavigationWaitUntil::Load,
    {
        NavigationWaitUntil::Load
    }
}

} // verus!

verus! {

/// Page information.
pub struct PageInfo {
    /// Current URL.
    pub url: String,
    /// Page title.
    pub title: String,
}

/// Screenshot result.
pub struct ScreenshotResult {
    /// Base64 encoded image data.
    pub data: String,
    /// Image format (png/jpeg).
    pub format: String,
    /// Image width.
    pub width: u32,
    /// Image height.
    pub height: u32,
}

/// Cookie information.
pub struct CookieInfo {
    pub name: String,
    pub value: String,
    pub domain: Option<String>,
    pub path: Option<String>,
    pub secure: bool,
    pub http_only: bool,
}

/// Cookie parameter for setting cookies.
pub struct SetCookieParam {
    pub name: String,
    pub value: String,
    pub domain: Option<String>,
    pub path: Option<String>,
    pub secure: Option<bool>,
    pub http_only: Option<bool>,
}

/// Tab information.
pub struct TabInfo {
    pub tab_id: String,
    pub url: String,
    pub title: String,
    pub active: bool,
}

/// Screenshot options.
pub struct ScreenshotOptions {
    /// Whether to capture the full page.
    pub full_page: Option<bool>,
    /// CSS selector of an element to capture.
    pub selector: Option<String>,
}

/// Wait options.
pub struct WaitOptions {
    /// CSS selector to wait for.
    pub selector: Option<String>,
    /// Timeout in milliseconds.
    pub timeout_ms: Option<u64>,
}

/// Download options.
pub struct DownloadOptions {
    /// Download directory (defaults to a temporary directory).
    pub save_path: Option<String>,
    /// Download timeout in milliseconds (default 60000).
    pub timeout_ms: Option<u64>,
}

impl Default for DownloadOptions {
    fn default() -> (o: Self)
        ensures
            o.save_path is None,
            o.timeout_ms is None,
    {
        DownloadOptions { save_path: None, timeout_ms: None }
    }
}

/// Download status.
#[derive(Debug, Clone, Copy, PartialEq, Eq, Structural)]
pub enum DownloadStatus {
    InProgress,
    Completed,
    Canceled,
}

/// Download result.
pub struct DownloadResult {
    /// Download GUID.
    pub guid: String,
    /// File name.
    pub filename: String,
    /// Full file path.
    pub file_path: String,
    /// File size in bytes.
    pub size: Option<u64>,
    /// MIME type.
    pub mime_type: Option<String>,
    /// Download status.
    pub status: DownloadStatus,
}

/// Key press options.
pub struct PressOptions {
    /// The key to press.
    pub key: String,
    /// Modifier keys.
    pub modifiers: Vec<crate::keys::KeyModifier>,
}

/// Navigation result.
pub struct NavigateResult {
    /// Requested URL.
    pub url: String,
    /// Page title.
    pub title: String,
    /// Final URL (after redirects).
    pub final_url: String,
}

/// Generic tool execution result.
pub struct ToolResult {
    /// Whether the operation succeeded.
    pub success: bool,
    /// Output content.
    pub output: String,
    /// Error message (when failed).
    pub error: Option<String>,
}

impl ToolResult {
    /// A successful result with `output`.
    pub fn success(output: String) -> (r: Self)
        ensures
            r.success,
            r.output == output,
            r.error is None,
    {
        ToolResult { success: true, output, error: None }
    }

    /// A failed result with the message `error` and no output.
    pub fn error(error: String) -> (r: Self)
        ensures
            !r.success,
            r.output@.len() == 0,
            r.error == Some(error),
    {
        ToolResult { success: false, output: String::new(), error: Some(error) }
    }
}

/// Runtime lifecycle events of a browser session.
pub enum BrowserEvent {
    Navigated { url: String, title: String },
    ActionCompleted { action: String, ref_id: String },
    TabActivated { tab_id: String },
    TabClosed { tab_id: String },
    DialogOpened { message: String, dialog_type: String },
    DownloadCompleted(DownloadResult),
    BrowserCrashed,
}

} // verus!

verus! {

/// How to start Chrome for a configuration.
pub struct LaunchPlan {
    /// Show a browser window.
    pub with_head: bool,
    /// Command-line arguments, in order.
    pub args: Vec<String>,
    /// CDP request timeout in milliseconds.
    pub request_timeout_ms: u64,
    /// User data directory.
    pub user_data_dir: Option<String>,
    /// Browser executable.
    pub executable: Option<String>,
}

/// The arguments that hide automation.
pub open spec fn stealth_args() -> Seq<Seq<char>> {
    seq![
        "--disable-blink-features=AutomationControlled"@,
        "--disable-infobars"@,
        "--disable-dev-shm-usage"@,
        "--disable-gpu"@,
        "--window-size=1920,1080"@,
    ]
}

/// The launch arguments of a configuration: the new headless flag, the
/// stealth flags, the no-sandbox flag, then the extra arguments.
pub open spec fn launch_args(c: BrowserConfig) -> Seq<Seq<char>> {
    (if c.headless == HeadlessMode::New {
        seq!["--headless=new"@]
    } else {
        Seq::empty()
    }) + (if c.stealth {
        stealth_args()
    } else {
        Seq::empty()
    }) + (if c.no_sandbox {
        seq!["--no-sandbox"@]
    } else {
        Seq::empty()
    }) + strings_view(c.extra_args@)
}

fn push_arg(args: &mut Vec<String>, a: &str)
    ensures
        strings_view(final(args)@) == strings_view(old(args)@).push(a@),
{
    let ghost before = strings_view(args@);
    args.push(String::from_str(a));
    proof {
        assert(strings_view(args@) =~= before.push(a@));
    }
}

impl BrowserConfig {
    /// How to start Chrome: with a window only in headed mode, with the
    /// [`launch_args`], the larger timeout as CDP request timeout, and the
    /// configured profile directory and executable.
    pub fn launch_plan(&self) -> (p: LaunchPlan)
        ensures
            p.with_head == (self.headless == HeadlessMode::Headed),
            strings_view(p.args@) == launch_args(*self),
            p.request_timeout_ms == if self.navigation_timeout_ms >= self.action_timeout_ms {
                self.navigation_timeout_ms
            } else {
                self.action_timeout_ms
            },
            opt_string_view(p.user_data_dir) == opt_string_view(self.profile_dir),
            opt_string_view(p.executable) == opt_string_view(self.browser_path),
    {
        let mut args: Vec<String> = Vec::new();
        let ghost mut expected: Seq<Seq<char>> = Seq::empty();
        proof {
            assert(strings_view(args@) =~= expected);
        }
        if self.headless == HeadlessMode::New {
            push_arg(&mut args, "--headless=new");
        }
        proof {
            assert(strings_view(args@) =~= (if self.headless == HeadlessMode::New {
                seq!["--headless=new"@]
            } else {
                Seq::<Seq<char>>::empty()
            }));
        }
        let ghost a1 = strings_view(args@);
        if self.stealth {
            push_arg(&mut args, "--disable-blink-features=AutomationControlled");
            push_arg(&mut args, "--disable-infobars");
            push_arg(&mut args, "--disable-dev-shm-usage");
            push_arg(&mut args, "--disable-gpu");
            push_arg(&mut args, "--window-size=1920,1080");
            proof {
                assert(strings_view(args@) =~= a1 + stealth_args());
            }
        } else {
            proof {
                assert(strings_view(args@) =~= a1 + Seq::<Seq<char>>::empty());
            }
        }
        let ghost a2 = strings_view(args@);
        if self.no_sandbox {
            push_arg(&mut args, "--no-sandbox");
            proof {
                assert(strings_view(args@) =~= a2 + seq!["--no-sandbox"@]);
            }
        } else {
            proof {
                assert(strings_view(args@) =~= a2 + Seq::<Seq<char>>::empty());
            }
        }
        let ghost a3 = strings_view(args@);
        let mut i: usize = 0;
        while i < self.extra_args.len()
            invariant
                i <= self.extra_args.len(),
                strings_view(args@) == a3 + strings_view(self.extra_args@.take(i as int)),
            decreases self.extra_args.len() - i,
        {
            let ghost before = strings_view(args@);
            args.push(self.extra_args[i].clone());
            proof {
                assert(strings_view(args@) =~= before.push(self.extra_args@[i as int]@));
                assert(strings_view(self.extra_args@.take(i + 1)) =~= strings_view(
                    self.extra_args@.take(i as int),
                ).push(self.extra_args@[i as int]@));
                assert(strings_view(args@) =~= a3 + strings_view(self.extra_args@.take(i + 1)));
            }
            i = i + 1;
        }
        proof {
            assert(self.extra_args@.take(self.extra_args@.len() as int) =~= self.extra_args@);
            assert(strings_view(args@) =~= launch_args(*self));
        }
        let user_data_dir = match &self.profile_dir {
            Some(d) => Some(d.clone()),
            None => None,
        };
        let executable = match &self.browser_path {
            Some(p) => Some(p.clone()),
            None => None,
        };
        LaunchPlan {
            with_head: self.headless == HeadlessMode::Headed,
            args,
            request_timeout_ms: self.request_timeout_ms(),
            user_data_dir,
            executable,
        }
    }
}

} // verus!
