//! The HTTP API server: its configuration, request types and the decisions
//! its handlers make before and after calling the browser.
use vstd::prelude::*;
use crate::actions::ActionKind;
use crate::keys::KeyModifier;
use crate::policy::{IpAddress, parse_port, parse_u16};
use crate::snapshot::SnapshotOptions;
use crate::text::{chars_of, eq_str, has_prefix, slice_chars, starts_with, string_of};
use crate::types::{BrowserConfig, NavigationWaitUntil, SetCookieParam, is_default_config};

verus! {

/// HTTP server configuration.
pub struct HttpConfig {
    /// Address to bind (loopback by default).
    pub host: IpAddress,
    /// Server port.
    pub port: u16,
    /// API key required from clients, if any.
    pub api_key: Option<String>,
    /// Default timeout in milliseconds.
    pub default_timeout_ms: u64,
    /// Browser configuration.
    pub browser: BrowserConfig,
}

impl Default for HttpConfig {
    fn default() -> (c: Self)
        ensures
            c.host == IpAddress::V4(127, 0, 0, 1),
            c.port == 3000,
            c.api_key is None,
            c.default_timeout_ms == 30_000,
            is_default_config(c.browser),
    {
        HttpConfig {
            host: IpAddress::V4(127, 0, 0, 1),
            port: 3000,
            api_key: None,
            default_timeout_ms: 30_000,
            browser: BrowserConfig::default(),
        }
    }
}

/// Loopback addresses: `127.0.0.0/8` and `::1`.
pub open spec fn loopback(ip: IpAddress) -> bool {
    match ip {
        IpAddress::V4(a, _, _, _) => a == 127,
        IpAddress::V6(s0, s1, s2, s3, s4, s5, s6, s7) => s0 == 0 && s1 == 0 && s2 == 0 && s3 == 0
            && s4 == 0 && s5 == 0 && s6 == 0 && s7 == 1,
    }
}

/// Whether an address is a loopback address.
pub fn is_loopback(ip: IpAddress) -> (r: bool)
    ensures
        r == loopback(ip),
{
    match ip {
        IpAddress::V4(a, _, _, _) => a == 127,
        IpAddress::V6(s0, s1, s2, s3, s4, s5, s6, s7) => s0 == 0 && s1 == 0 && s2 == 0 && s3 == 0
            && s4 == 0 && s5 == 0 && s6 == 0 && s7 == 1,
    }
}

/// A server bound to a non-loopback address must require an API key.
pub fn validate_server_config(config: &HttpConfig) -> (r: Result<(), String>)
    ensures
        r is Err <==> (!loopback(config.host) && config.api_key is None),
        r matches Err(m) ==> m@
            == "BROWSER_API_KEY is required when binding the HTTP server to a non-loopback address"@,
{
    if !is_loopback(config.host) && config.api_key.is_none() {
        return Err(
            String::from_str(
                "BROWSER_API_KEY is required when binding the HTTP server to a non-loopback address",
            ),
        );
    }
    Ok(())
}

/// `str::parse::<u64>`: an optional `+`, then one or more digits whose
/// value fits in 64 bits.
pub open spec fn parse_u64(s: Seq<char>) -> Option<u64> {
    let d = if s.len() > 0 && s[0] == '+' {
        s.drop_first()
    } else {
        s
    };
    if d.len() > 0 && crate::policy::all_digits(d) && crate::policy::digits_value(d) <= u64::MAX {
        Some(crate::policy::digits_value(d) as u64)
    } else {
        None
    }
}

/// Parses an unsigned 64-bit number as `str::parse::<u64>` does.
pub fn parse_u64_text(s: &Vec<char>) -> (r: Option<u64>)
    ensures
        r == parse_u64(s@),
{
    let start: usize = if s.len() > 0 && s[0] == '+' { 1 } else { 0 };
    let ghost d = if s@.len() > 0 && s@[0] == '+' { s@.drop_first() } else { s@ };
    proof {
        assert(d =~= s@.skip(start as int));
    }
    if start >= s.len() {
        return None;
    }
    let mut value: u64 = 0;
    let mut i: usize = start;
    while i < s.len()
        invariant
            start <= i <= s.len(),
            d == s@.skip(start as int),
            d == (if s@.len() > 0 && s@[0] == '+' {
                s@.drop_first()
            } else {
                s@
            }),
            value == crate::policy::digits_value(d.take(i - start)),
            crate::policy::all_digits(d.take(i - start)),
        decreases s.len() - i,
    {
        let c = s[i];
        if c < '0' || c > '9' {
            proof {
                assert(d[i - start] == c);
                assert(!crate::policy::all_digits(d));
            }
            return None;
        }
        let digit: u64 = (c as u32 - 48) as u64;
        let ghost t = d.take(i - start + 1);
        proof {
            assert(t.drop_last() =~= d.take(i - start));
            assert(t.last() == c);
            assert(crate::policy::digits_value(t) == crate::policy::digits_value(t.drop_last()) * 10
                + ((t.last() as nat) - 48) as nat);
            assert forall|j: int| 0 <= j < i - start + 1 implies '0' <= #[trigger] t[j] && t[j] <= '9' by {
                if j < i - start {
                    assert(t[j] == d.take(i - start)[j]);
                }
            }
        }
        if value > (u64::MAX - digit) / 10 {
            proof {
                assert(crate::policy::digits_value(t) > u64::MAX) by (nonlinear_arith)
                    requires
                        value > (u64::MAX - digit) / 10,
                        crate::policy::digits_value(t) == value * 10 + digit,
                        digit <= 9,
                ;
                if crate::policy::all_digits(d) {
                    crate::policy::lemma_digits_monotone(d, i - start + 1);
                }
            }
            return None;
        }
        proof {
            assert(value * 10 + digit <= u64::MAX) by (nonlinear_arith)
                requires
                    value <= (u64::MAX - digit) / 10,
                    digit <= 9,
            ;
        }
        value = value * 10 + digit;
        i = i + 1;
    }
    proof {
        assert(d.take(i - start) =~= d);
    }
    Some(value)
}

/// The environment variables the server reads, as the caller found them.
pub struct ServerEnv {
    /// `BROWSER_HTTP_HOST`, when set and a valid address.
    pub host: Option<IpAddress>,
    /// `BROWSER_HTTP_PORT`.
    pub port: Option<String>,
    /// `BROWSER_API_KEY`.
    pub api_key: Option<String>,
    /// `BROWSER_DEFAULT_TIMEOUT_MS`.
    pub default_timeout_ms: Option<String>,
}

/// Applies the environment to a configuration: a valid host replaces the
/// host, a port replaces the port (3000 when it does not parse), a
/// non-empty API key is required from clients, and a timeout replaces the
/// default timeout (30000 when it does not parse).
pub fn apply_env(config: HttpConfig, env: ServerEnv) -> (r: HttpConfig)
    ensures
        r.host == (match env.host {
            Some(h) => h,
            None => config.host,
        }),
        r.port == (match env.port {
            Some(p) => match parse_u16(p@) {
                Some(n) => n,
                None => 3000,
            },
            None => config.port,
        }),
        r.api_key == (match env.api_key {
            Some(k) => if k@.len() > 0 {
                Some(k)
            } else {
                config.api_key
            },
            None => config.api_key,
        }),
        r.default_timeout_ms == (match env.default_timeout_ms {
            Some(t) => match parse_u64(t@) {
                Some(n) => n,
                None => 30_000,
            },
            None => config.default_timeout_ms,
        }),
        r.browser == config.browser,
{
    let mut c = config;
    match env.host {
        Some(h) => c.host = h,
        None => {},
    }
    match env.port {
        Some(p) => {
            let chars = chars_of(p.as_str());
            c.port = match parse_port(&chars) {
                Some(n) => n,
                None => 3000,
            };
        },
        None => {},
    }
    match env.api_key {
        Some(k) => {
            if k.as_str().unicode_len() > 0 {
                c.api_key = Some(k);
            }
        },
        None => {},
    }
    match env.default_timeout_ms {
        Some(t) => {
            let chars = chars_of(t.as_str());
            c.default_timeout_ms = match parse_u64_text(&chars) {
                Some(n) => n,
                None => 30_000,
            };
        },
        None => {},
    }
    c
}

/// An API error: a code and details.
pub struct ApiError {
    pub error: String,
    pub details: Option<String>,
}

impl ApiError {
    /// An error with a code and details.
    pub fn new(error: &str, details: String) -> (r: Self)
        ensures
            r.error@ == error@,
            r.details == Some(details),
    {
        ApiError { error: String::from_str(error), details: Some(details) }
    }
}

/// Whether a request carries the API key, either in `X-API-Key` or as a
/// `Bearer` authorization; without a configured key every request is allowed.
pub open spec fn authorized_spec(required: Option<Seq<char>>, x_api_key: Option<Seq<char>>, authorization: Option<Seq<char>>) -> bool {
    match required {
        None => true,
        Some(k) => x_api_key == Some(k) || (authorization matches Some(a) && has_prefix(a, "Bearer "@)
            && a.skip(7) == k),
    }
}

/// Whether a request is authorized.
pub fn authorized(required: Option<&String>, x_api_key: Option<&str>, authorization: Option<&str>) -> (r: bool)
    ensures
        r == authorized_spec(
            match required {
                Some(k) => Some(k@),
                None => None,
            },
            match x_api_key {
                Some(x) => Some(x@),
                None => None,
            },
            match authorization {
                Some(a) => Some(a@),
                None => None,
            },
        ),
{
    let key = match required {
        None => {
            return true;
        },
        Some(k) => k,
    };
    match x_api_key {
        Some(x) => {
            if eq_str(key, x) {
                return true;
            }
        },
        None => {},
    }
    match authorization {
        Some(a) => {
            let chars = chars_of(a);
            let prefix = chars_of("Bearer ");
            proof {
                reveal_strlit("Bearer ");
            }
            if starts_with(&chars, &prefix) {
                let rest = string_of(&slice_chars(&chars, 7, chars.len()));
                return eq_str(&rest, key.as_str()) || {
                    proof {
                        assert(chars@.skip(7) =~= chars@.subrange(7, chars@.len() as int));
                    }
                    false
                };
            }
            false
        },
        None => false,
    }
}

/// The session a request addresses: `X-Browser-Session` when present and
/// not empty, else the default session (`None`).
pub fn session_of(header: Option<&str>) -> (r: Option<String>)
    ensures
        match header {
            Some(h) => if h@.len() > 0 {
                r matches Some(s) && s@ == h@
            } else {
                r is None
            },
            None => r is None,
        },
{
    match header {
        Some(h) => {
            if h.unicode_len() > 0 {
                Some(String::from_str(h))
            } else {
                None
            }
        },
        None => None,
    }
}

/// Whether a broadcast event belongs to a session (its `session_id` field).
pub fn event_belongs_to_session(event_session: Option<&str>, session_id: &str) -> (r: bool)
    ensures
        r == (match event_session {
            Some(s) => s@ == session_id@,
            None => false,
        }),
{
    match event_session {
        Some(s) => str_eq_local(s, session_id),
        None => false,
    }
}

fn str_eq_local(a: &str, b: &str) -> (r: bool)
    ensures
        r == (a@ == b@),
{
    crate::text::str_eq(a, b)
}

/// The wait strategy a request names: `load` when absent, several spellings
/// of DOM-content-loaded and network-idle, `none`; anything else is refused.
pub open spec fn wait_until_spec(value: Option<Seq<char>>) -> Option<NavigationWaitUntil> {
    match value {
        None => Some(NavigationWaitUntil::Load),
        Some(v) => if v == "load"@ {
            Some(NavigationWaitUntil::Load)
        } else if v == "domContentLoaded"@ || v == "dom_content_loaded"@ || v == "DOMContentLoaded"@ {
            Some(NavigationWaitUntil::DomContentLoaded)
        } else if v == "networkIdle"@ || v == "networkidle"@ || v == "network_idle"@ {
            Some(NavigationWaitUntil::NetworkIdle)
        } else if v == "none"@ {
            Some(NavigationWaitUntil::NoWait)
        } else {
            None
        },
    }
}

/// Parses a navigation wait strategy.
pub fn parse_wait_until(value: Option<&str>) -> (r: Result<NavigationWaitUntil, String>)
    ensures
        ({
            let v = match value {
                Some(x) => Some(x@),
                None => None,
            };
            match wait_until_spec(v) {
                Some(w) => r == Ok::<NavigationWaitUntil, String>(w),
                None => r matches Err(m) && m@ == "Unsupported wait_until value: "@ + v->0,
            }
        }),
{
    match value {
        None => Ok(NavigationWaitUntil::Load),
        Some(x) => {
            let v = String::from_str(x);
            if eq_str(&v, "load") {
                Ok(NavigationWaitUntil::Load)
            } else if eq_str(&v, "domContentLoaded") || eq_str(&v, "dom_content_loaded") || eq_str(
                &v,
                "DOMContentLoaded",
            ) {
                Ok(NavigationWaitUntil::DomContentLoaded)
            } else if eq_str(&v, "networkIdle") || eq_str(&v, "networkidle") || eq_str(
                &v,
                "network_idle",
            ) {
                Ok(NavigationWaitUntil::NetworkIdle)
            } else if eq_str(&v, "none") {
                Ok(NavigationWaitUntil::NoWait)
            } else {
                let mut m = String::from_str("Unsupported wait_until value: ");
                m.append(x);
                Err(m)
            }
        },
    }
}

/// `POST /navigate` body.
pub struct NavigateRequest {
    pub url: String,
    pub wait_until: Option<String>,
}

/// Optional tab id query.
pub struct TabIdQuery {
    pub tab_id: Option<String>,
}

/// `GET /screenshot` query.
pub struct ScreenshotQuery {
    pub full_page: Option<bool>,
    pub selector: Option<String>,
}

/// `GET /snapshot` query.
pub struct SnapshotQuery {
    pub interactive_only: Option<bool>,
    pub root_ref: Option<String>,
    pub max_depth: Option<usize>,
    pub max_nodes: Option<usize>,
}

/// The snapshot options of a query: each field given replaces the default
/// (interactive only, depth 8, 250 nodes); the node budget is clamped to
/// 1..=5000.
pub fn snapshot_options(query: SnapshotQuery) -> (r: SnapshotOptions)
    ensures
        r.interactive_only == (match query.interactive_only {
            Some(b) => b,
            None => true,
        }),
        r.root_ref == query.root_ref,
        r.max_depth == (match query.max_depth {
            Some(d) => Some(d),
            None => Some(8usize),
        }),
        r.max_nodes == ({
            let n = match query.max_nodes {
                Some(n) => n,
                None => 250,
            };
            if n < 1 {
                1
            } else if n > 5000 {
                5000
            } else {
                n
            }
        }),
{
    let defaults = SnapshotOptions::default();
    let n: usize = match query.max_nodes {
        Some(n) => n,
        None => defaults.max_nodes,
    };
    let max_nodes: usize = if n < 1 {
        1
    } else if n > 5000 {
        5000
    } else {
        n
    };
    SnapshotOptions {
        interactive_only: match query.interactive_only {
            Some(b) => b,
            None => defaults.interactive_only,
        },
        root_ref: query.root_ref,
        max_depth: match query.max_depth {
            Some(d) => Some(d),
            None => defaults.max_depth,
        },
        max_nodes,
    }
}

/// `POST /snapshot/search` body.
pub struct SnapshotSearchRequest {
    pub query: String,
    pub max_results: Option<usize>,
}

/// The number of matches a search returns: 20 by default, clamped to 1..=200.
pub fn search_limit(max_results: Option<usize>) -> (r: usize)
    ensures
        r == ({
            let n = match max_results {
                Some(n) => n,
                None => 20,
            };
            if n < 1 {
                1
            } else if n > 200 {
                200
            } else {
                n
            }
        }),
{
    let n: usize = match max_results {
        Some(n) => n,
        None => 20,
    };
    if n < 1 {
        1
    } else if n > 200 {
        200
    } else {
        n
    }
}

/// `POST /act` body.
pub struct ActRequest {
    pub snapshot_id: String,
    pub ref_id: String,
    pub action: String,
    pub text: Option<String>,
    pub key: Option<String>,
    pub clear_first: Option<bool>,
    pub values: Option<Vec<String>>,
    pub target_ref_id: Option<String>,
    pub direction: Option<String>,
    pub amount: Option<i32>,
    pub timeout_ms: Option<u64>,
}

/// The error of a missing parameter.
pub open spec fn missing_param(r: Result<ActionKind, ApiError>, details: Seq<char>) -> bool {
    &&& r matches Err(e)
    &&& e.error@ == "missing_param"@
    &&& e.details matches Some(d)
    &&& d@ == details
}

/// The action an `/act` request names, with its parameters.
pub open spec fn act_action(req: ActRequest, r: Result<ActionKind, ApiError>) -> bool {
    let a = req.action@;
    if a == "click"@ {
        r matches Ok(ActionKind::Click)
    } else if a == "double_click"@ {
        r matches Ok(ActionKind::DoubleClick)
    } else if a == "right_click"@ {
        r matches Ok(ActionKind::RightClick)
    } else if a == "hover"@ {
        r matches Ok(ActionKind::Hover)
    } else if a == "focus"@ {
        r matches Ok(ActionKind::Focus)
    } else if a == "type"@ {
        match req.text {
            None => missing_param(r, "'text' required for type"@),
            Some(t) => r matches Ok(ActionKind::Type { text, clear_first }) && text == t && clear_first
                == req.clear_first,
        }
    } else if a == "press"@ {
        match req.key {
            None => missing_param(r, "'key' required for press"@),
            Some(k) => r matches Ok(ActionKind::Press { key }) && key == k,
        }
    } else if a == "select"@ {
        match req.values {
            None => missing_param(r, "'values' required for select"@),
            Some(v) => r matches Ok(ActionKind::Select { values }) && values == v,
        }
    } else if a == "drag"@ {
        match req.target_ref_id {
            None => missing_param(r, "'target_ref_id' required for drag"@),
            Some(t) => r matches Ok(ActionKind::Drag { target_ref_id }) && target_ref_id == t,
        }
    } else if a == "scroll"@ {
        r matches Ok(ActionKind::Scroll { direction, amount }) && (direction matches Some(d) && d@
            == (match req.direction {
            Some(x) => x@,
            None => "down"@,
        })) && amount == Some(
            match req.amount {
                Some(n) => n,
                None => 300i32,
            },
        )
    } else if a == "wait"@ {
        r matches Ok(ActionKind::Wait { timeout_ms }) && timeout_ms == Some(
            match req.timeout_ms {
                Some(t) => t,
                None => 1000u64,
            },
        )
    } else {
        &&& r matches Err(e)
        &&& e.error@ == "unknown_action"@
        &&& e.details matches Some(d)
        &&& d@ == "Unknown action: "@ + a
    }
}

fn missing(details: &str) -> (r: ApiError)
    ensures
        r.error@ == "missing_param"@,
        (r.details matches Some(d) && d@ == details@),
{
    ApiError::new("missing_param", String::from_str(details))
}

/// Reads the action of an `/act` request.
pub fn act_request_action(req: ActRequest) -> (r: Result<ActionKind, ApiError>)
    ensures
        act_action(req, r),
{
    let a = &req.action;
    if eq_str(a, "click") {
        Ok(ActionKind::Click)
    } else if eq_str(a, "double_click") {
        Ok(ActionKind::DoubleClick)
    } else if eq_str(a, "right_click") {
        Ok(ActionKind::RightClick)
    } else if eq_str(a, "hover") {
        Ok(ActionKind::Hover)
    } else if eq_str(a, "focus") {
        Ok(ActionKind::Focus)
    } else if eq_str(a, "type") {
        match req.text {
            None => Err(missing("'text' required for type")),
            Some(text) => Ok(ActionKind::Type { text, clear_first: req.clear_first }),
        }
    } else if eq_str(a, "press") {
        match req.key {
            None => Err(missing("'key' required for press")),
            Some(key) => Ok(ActionKind::Press { key }),
        }
    } else if eq_str(a, "select") {
        match req.values {
            None => Err(missing("'values' required for select")),
            Some(values) => Ok(ActionKind::Select { values }),
        }
    } else if eq_str(a, "drag") {
        match req.target_ref_id {
            None => Err(missing("'target_ref_id' required for drag")),
            Some(target_ref_id) => Ok(ActionKind::Drag { target_ref_id }),
        }
    } else if eq_str(a, "scroll") {
        let direction = match req.direction {
            Some(d) => d,
            None => String::from_str("down"),
        };
        let amount: i32 = match req.amount {
            Some(n) => n,
            None => 300,
        };
        Ok(ActionKind::Scroll { direction: Some(direction), amount: Some(amount) })
    } else if eq_str(a, "wait") {
        let t: u64 = match req.timeout_ms {
            Some(t) => t,
            None => 1000,
        };
        Ok(ActionKind::Wait { timeout_ms: Some(t) })
    } else {
        let mut d = String::from_str("Unknown action: ");
        d.append(a.as_str());
        Err(ApiError::new("unknown_action", d))
    }
}

/// `POST /wait` body.
pub struct WaitRequest {
    pub selector: Option<String>,
    pub timeout_ms: Option<u64>,
    pub idle_duration_ms: Option<u64>,
}

/// What a `/wait` request waits for.
pub enum WaitPlan {
    /// An element matching the selector, within the timeout.
    Selector { selector: String, timeout_ms: u64 },
    /// Network idleness of the given duration, within the timeout.
    NetworkIdle { idle_ms: u64, timeout_ms: u64 },
    /// Just the timeout.
    Sleep { timeout_ms: u64 },
}

/// Decides what a `/wait` request waits for: a selector first, else network
/// idleness, else the timeout alone (the server's default timeout when the
/// request gives none).
pub fn wait_plan(req: WaitRequest, default_timeout_ms: u64) -> (r: WaitPlan)
    ensures
        ({
            let t = match req.timeout_ms {
                Some(t) => t,
                None => default_timeout_ms,
            };
            match req.selector {
                Some(s) => r == (WaitPlan::Selector { selector: s, timeout_ms: t }),
                None => match req.idle_duration_ms {
                    Some(i) => r == (WaitPlan::NetworkIdle { idle_ms: i, timeout_ms: t }),
                    None => r == (WaitPlan::Sleep { timeout_ms: t }),
                },
            }
        }),
{
    let t = match req.timeout_ms {
        Some(t) => t,
        None => default_timeout_ms,
    };
    match req.selector {
        Some(selector) => WaitPlan::Selector { selector, timeout_ms: t },
        None => match req.idle_duration_ms {
            Some(idle_ms) => WaitPlan::NetworkIdle { idle_ms, timeout_ms: t },
            None => WaitPlan::Sleep { timeout_ms: t },
        },
    }
}

/// `POST /evaluate` body.
pub struct EvaluateRequest {
    pub script: String,
}

/// `POST /cookies` body.
pub struct SetCookiesRequest {
    pub cookies: Vec<SetCookieParam>,
}

/// `POST /upload` body.
pub struct UploadRequest {
    pub snapshot_id: String,
    pub ref_id: String,
    pub file_path: String,
}

/// `POST /dialog` body.
pub struct DialogRequest {
    /// Accept the dialog (default true).
    pub accept: bool,
    pub prompt_text: Option<String>,
}

/// A selector request.
pub struct SelectorRequest {
    pub selector: String,
    pub timeout_ms: Option<u64>,
}

/// `POST /type-selector` body.
pub struct TypeSelectorRequest {
    pub selector: String,
    pub text: String,
    pub clear_first: Option<bool>,
    pub timeout_ms: Option<u64>,
}

/// `POST /get-attribute` body.
pub struct GetAttributeRequest {
    pub selector: String,
    pub attribute: String,
    pub timeout_ms: Option<u64>,
}

/// `POST /select-option` body.
pub struct SelectOptionRequest {
    pub selector: String,
    pub value: String,
    pub by_text: Option<bool>,
    pub timeout_ms: Option<u64>,
}

/// `POST /submenu` body.
pub struct SubmenuRequest {
    pub menu_selector: String,
    pub submenu_selector: String,
    pub timeout_ms: Option<u64>,
}

/// `POST /navigate` answer.
pub struct NavigateResponse {
    pub url: String,
    pub title: String,
}

/// An iframe mapping in a snapshot answer.
pub struct IframeMappingInfo {
    pub ref_id: String,
    pub frame_id: String,
    pub name: Option<String>,
    pub src: Option<String>,
}

/// `GET /screenshot` answer.
pub struct ScreenshotResponse {
    pub image: String,
    pub format: String,
    pub width: u32,
    pub height: u32,
}

/// A browser session.
pub struct SessionInfo {
    pub session_id: String,
    pub browser_running: bool,
    pub responsive: bool,
}

/// Whether a session counts as responsive: a session without a running
/// browser is, one with a browser is when its health check passes.
pub fn session_responsive(browser_running: bool, healthy: bool) -> (r: bool)
    ensures
        r == (!browser_running || healthy),
{
    !browser_running || healthy
}

/// `POST /iframe/enter` body.
pub struct EnterIframeRequest {
    pub snapshot_id: String,
    pub ref_id: String,
}

/// `POST /download` body.
pub struct DownloadFileRequest {
    pub url: String,
    pub save_path: Option<String>,
    pub timeout_ms: Option<u64>,
}

/// `POST /click-download` body.
pub struct ClickDownloadRequest {
    pub snapshot_id: String,
    pub ref_id: String,
    pub save_path: Option<String>,
    pub timeout_ms: Option<u64>,
}

/// `POST /press-key` body.
pub struct PressKeyRequest {
    pub key: String,
    pub modifiers: Vec<String>,
}

/// The modifiers a `/press-key` request names (unknown names are skipped).
pub fn press_key_modifiers(req: &PressKeyRequest) -> (r: Vec<KeyModifier>)
    ensures
        r@ == crate::keys::modifiers_named(Seq::new(req.modifiers@.len(), |i: int| req.modifiers@[i]@)),
{
    crate::keys::parse_modifiers(&req.modifiers)
}

/// `POST /shortcut` body.
pub struct ShortcutRequest {
    pub shortcut: String,
}

} // verus!

verus! {

/// Without a configured key every request is authorized; with one, a
/// request is authorized by the key in `X-API-Key` or as a `Bearer` token,
/// and refused without either.
pub proof fn law_api_key_gate(k: Seq<char>, x: Option<Seq<char>>, a: Option<Seq<char>>)
    ensures
        authorized_spec(None, x, a),
        authorized_spec(Some(k), Some(k), a),
        authorized_spec(Some(k), x, Some("Bearer "@ + k)),
        !authorized_spec(Some(k), None, None),
{
    reveal_strlit("Bearer ");
    let b = "Bearer "@ + k;
    assert(b.take(7) =~= "Bearer "@);
    assert(b.skip(7) =~= k);
}

} // verus!
