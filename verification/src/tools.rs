//! The browser tools of the MCP server: reading a tool call's arguments
//! into a command, and rendering what the browser reports.
use vstd::prelude::*;
use crate::keys::{KeyModifier, modifiers_named, parse_modifiers};
use crate::text::{decimal, decimal_string, eq_str};
use crate::types::NavigationWaitUntil;

verus! {

/// A JSON argument value, as far as the tools read it.
pub enum ArgValue {
    Null,
    Bool(bool),
    /// A non-negative integer.
    PosInt(u64),
    /// A negative integer.
    NegInt(i64),
    /// A number with a fractional part or exponent.
    Float,
    Str(String),
    Array(Vec<ArgValue>),
    Object,
}

/// The value of the first argument called `name` (`Null` when absent).
pub open spec fn arg(args: Seq<(String, ArgValue)>, name: Seq<char>) -> ArgValue
    decreases args.len(),
{
    if args.len() == 0 {
        ArgValue::Null
    } else if args[0].0@ == name {
        args[0].1
    } else {
        arg(args.drop_first(), name)
    }
}

/// The string inside a value.
pub open spec fn as_str(v: ArgValue) -> Option<Seq<char>> {
    match v {
        ArgValue::Str(s) => Some(s@),
        _ => None,
    }
}

/// The boolean inside a value.
pub open spec fn as_bool(v: ArgValue) -> Option<bool> {
    match v {
        ArgValue::Bool(b) => Some(b),
        _ => None,
    }
}

/// The value as a signed 64-bit integer, when it is one.
pub open spec fn as_i64(v: ArgValue) -> Option<i64> {
    match v {
        ArgValue::PosInt(n) => if n <= i64::MAX {
            Some(n as i64)
        } else {
            None
        },
        ArgValue::NegInt(n) => Some(n),
        _ => None,
    }
}

/// The value as an unsigned 64-bit integer, when it is one.
pub open spec fn as_u64(v: ArgValue) -> Option<u64> {
    match v {
        ArgValue::PosInt(n) => Some(n),
        _ => None,
    }
}

fn lookup<'a>(args: &'a Vec<(String, ArgValue)>, name: &str) -> (r: Option<&'a ArgValue>)
    ensures
        match r {
            Some(v) => arg(args@, name@) == *v,
            None => arg(args@, name@) == ArgValue::Null,
        },
{
    let mut i: usize = 0;
    proof {
        assert(args@.skip(0) =~= args@);
    }
    while i < args.len()
        invariant
            i <= args.len(),
            arg(args@, name@) == arg(args@.skip(i as int), name@),
        decreases args.len() - i,
    {
        proof {
            assert(args@.skip(i as int).drop_first() =~= args@.skip(i + 1));
            assert(args@.skip(i as int)[0] == args@[i as int]);
        }
        if eq_str(&args[i].0, name) {
            return Some(&args[i].1);
        }
        i = i + 1;
    }
    proof {
        assert(args@.skip(i as int) =~= Seq::<(String, ArgValue)>::empty());
    }
    None
}

fn get_str(args: &Vec<(String, ArgValue)>, name: &str) -> (r: Option<String>)
    ensures
        match r {
            Some(s) => as_str(arg(args@, name@)) == Some(s@),
            None => as_str(arg(args@, name@)) is None,
        },
{
    match lookup(args, name) {
        Some(ArgValue::Str(s)) => Some(s.clone()),
        _ => None,
    }
}

fn get_bool(args: &Vec<(String, ArgValue)>, name: &str) -> (r: Option<bool>)
    ensures
        r == as_bool(arg(args@, name@)),
{
    match lookup(args, name) {
        Some(ArgValue::Bool(b)) => Some(*b),
        _ => None,
    }
}

fn get_i64(args: &Vec<(String, ArgValue)>, name: &str) -> (r: Option<i64>)
    ensures
        r == as_i64(arg(args@, name@)),
{
    match lookup(args, name) {
        Some(ArgValue::PosInt(n)) => if *n <= 9223372036854775807u64 {
            Some(*n as i64)
        } else {
            None
        },
        Some(ArgValue::NegInt(n)) => Some(*n),
        _ => None,
    }
}

fn get_u64(args: &Vec<(String, ArgValue)>, name: &str) -> (r: Option<u64>)
    ensures
        r == as_u64(arg(args@, name@)),
{
    match lookup(args, name) {
        Some(ArgValue::PosInt(n)) => Some(*n),
        _ => None,
    }
}

/// The string elements of an array value (others are skipped).
pub open spec fn string_items(v: Seq<ArgValue>) -> Seq<Seq<char>>
    decreases v.len(),
{
    if v.len() == 0 {
        Seq::empty()
    } else {
        let rest = string_items(v.drop_last());
        match v.last() {
            ArgValue::Str(s) => rest.push(s@),
            _ => rest,
        }
    }
}

fn strings_in(v: &Vec<ArgValue>) -> (r: Vec<String>)
    ensures
        Seq::new(r@.len(), |i: int| r@[i]@) == string_items(v@),
{
    let mut out: Vec<String> = Vec::new();
    let mut i: usize = 0;
    proof {
        assert(v@.take(0) =~= Seq::<ArgValue>::empty());
        assert(Seq::new(out@.len(), |i: int| out@[i]@) =~= Seq::<Seq<char>>::empty());
    }
    while i < v.len()
        invariant
            i <= v.len(),
            Seq::new(out@.len(), |i: int| out@[i]@) == string_items(v@.take(i as int)),
        decreases v.len() - i,
    {
        let ghost before = Seq::new(out@.len(), |i: int| out@[i]@);
        proof {
            assert(v@.take(i + 1).drop_last() =~= v@.take(i as int));
            assert(v@.take(i + 1).last() == v@[i as int]);
        }
        match &v[i] {
            ArgValue::Str(s) => {
                out.push(s.clone());
                proof {
                    assert(Seq::new(out@.len(), |i: int| out@[i]@) =~= before.push(s@));
                }
            },
            _ => {},
        }
        i = i + 1;
    }
    proof {
        assert(v@.take(v@.len() as int) =~= v@);
    }
    out
}

/// A browser tool call, with its arguments read.
pub enum ToolCommand {
    Navigate { url: String },
    Snapshot,
    Click { ref_id: String, snapshot_id: String },
    Type { ref_id: String, snapshot_id: String, text: String, clear_first: bool },
    Press { ref_id: String, snapshot_id: String, key: String },
    Scroll { ref_id: String, snapshot_id: String, direction: String, amount: i32 },
    Wait { timeout_ms: u64, selector: Option<String> },
    Evaluate { script: String },
    GetCookies,
    /// The cookies are read from the `cookies` argument by the caller.
    SetCookies,
    ListTabs,
    ActivateTab { tab_id: String },
    CloseTab { tab_id: String },
    Upload { ref_id: String, snapshot_id: String, file_path: String },
    WaitForNetworkIdle { idle_ms: u64, timeout_ms: u64 },
    Shutdown,
    EnterIframe { ref_id: String, snapshot_id: String },
    ExitIframe,
    ExitAllIframes,
    DownloadFile { url: String, save_path: Option<String>, timeout_ms: u64 },
    ClickAndDownload { ref_id: String, snapshot_id: String, save_path: Option<String>, timeout_ms: u64 },
    PressKey { key: String, modifiers: Vec<KeyModifier> },
    Shortcut { shortcut: String },
    NavigateWithOptions { url: String, wait_label: String, wait_until: NavigationWaitUntil },
    EnableNetworkMonitoring,
    GetNetworkRequests,
    ClearNetworkRequests,
    EnableConsoleMonitoring,
    GetConsoleMessages,
    ClearConsoleMessages,
    /// The device scale factor is read from the arguments by the caller.
    SetViewport { width: u32, height: u32 },
    GetViewport,
}

/// The error for a missing required argument.
pub open spec fn missing(name: Seq<char>) -> Seq<char> {
    "Missing '"@ + name + "' parameter"@
}

fn missing_arg(name: &str) -> (r: String)
    ensures
        r@ == missing(name@),
{
    let mut m = String::from_str("Missing '");
    m.append(name);
    m.append("' parameter");
    m
}

fn required_str(args: &Vec<(String, ArgValue)>, name: &str) -> (r: Result<String, String>)
    ensures
        match as_str(arg(args@, name@)) {
            Some(s) => r matches Ok(v) && v@ == s,
            None => r matches Err(e) && e@ == missing(name@),
        },
{
    match get_str(args, name) {
        Some(s) => Ok(s),
        None => Err(missing_arg(name)),
    }
}

/// The navigation wait strategy named by a tool argument (`load` otherwise).
pub open spec fn tool_wait_strategy(label: Seq<char>) -> NavigationWaitUntil {
    if label == "domContentLoaded"@ {
        NavigationWaitUntil::DomContentLoaded
    } else if label == "networkIdle"@ {
        NavigationWaitUntil::NetworkIdle
    } else if label == "none"@ {
        NavigationWaitUntil::NoWait
    } else {
        NavigationWaitUntil::Load
    }
}

/// `r` is the error `message`.
pub open spec fn fails_with(r: Result<ToolCommand, String>, message: Seq<char>) -> bool {
    r matches Err(e) && e@ == message
}

/// The string argument `name`.
pub open spec fn str_arg(args: Seq<(String, ArgValue)>, name: Seq<char>) -> Option<Seq<char>> {
    as_str(arg(args, name))
}

/// An optional string argument holds what the command holds.
pub open spec fn same_opt(o: Option<String>, v: Option<Seq<char>>) -> bool {
    match o {
        Some(x) => v == Some(x@),
        None => v is None,
    }
}

/// An unsigned argument, or a default.
pub open spec fn u64_or(args: Seq<(String, ArgValue)>, name: Seq<char>, default: u64) -> u64 {
    match as_u64(arg(args, name)) {
        Some(t) => t,
        None => default,
    }
}

/// The element reference of a ref-based tool: its `ref_id` and the
/// `snapshot_id` of the snapshot it was taken from, both required (in that
/// order).
pub open spec fn reference(args: Seq<(String, ArgValue)>) -> Result<(Seq<char>, Seq<char>), Seq<char>> {
    match (str_arg(args, "ref_id"@), str_arg(args, "snapshot_id"@)) {
        (None, _) => Err(missing("ref_id"@)),
        (Some(_), None) => Err(missing("snapshot_id"@)),
        (Some(x), Some(y)) => Ok((x, y)),
    }
}

fn required_reference(args: &Vec<(String, ArgValue)>) -> (r: Result<(String, String), String>)
    ensures
        match reference(args@) {
            Ok((x, y)) => r matches Ok(p) && p.0@ == x && p.1@ == y,
            Err(m) => r matches Err(e) && e@ == m,
        },
{
    let ref_id = required_str(args, "ref_id")?;
    let snapshot_id = required_str(args, "snapshot_id")?;
    Ok((ref_id, snapshot_id))
}

/// What reading a tool call gives: for each tool, a missing required
/// string argument is the error `Missing '<arg>' parameter` (arguments are
/// read in order), and otherwise the command with its arguments, defaults
/// filled in; an unknown tool is the error `Unknown tool: <name>`.
pub open spec fn tool_read(name: Seq<char>, args: Seq<(String, ArgValue)>, r: Result<ToolCommand, String>) -> bool {
    let s = |n: Seq<char>| str_arg(args, n);
    if name == "browser_navigate"@ {
        match s("url"@) {
            None => fails_with(r, missing("url"@)),
            Some(u) => r matches Ok(ToolCommand::Navigate { url }) && url@ == u,
        }
    } else if name == "browser_snapshot"@ {
        r matches Ok(ToolCommand::Snapshot)
    } else if name == "browser_click"@ {
        match reference(args) {
            Err(m) => fails_with(r, m),
            Ok((x, y)) => r matches Ok(ToolCommand::Click { ref_id, snapshot_id }) && ref_id@ == x
                && snapshot_id@ == y,
        }
    } else if name == "browser_type"@ {
        match (reference(args), s("text"@)) {
            (Err(m), _) => fails_with(r, m),
            (Ok(_), None) => fails_with(r, missing("text"@)),
            (Ok((x, y)), Some(t)) => r matches Ok(ToolCommand::Type { ref_id, snapshot_id, text, clear_first })
                && ref_id@ == x && snapshot_id@ == y && text@ == t && clear_first == (match as_bool(
                arg(args, "clear_first"@),
            ) {
                Some(b) => b,
                None => false,
            }),
        }
    } else if name == "browser_press"@ {
        match (reference(args), s("key"@)) {
            (Err(m), _) => fails_with(r, m),
            (Ok(_), None) => fails_with(r, missing("key"@)),
            (Ok((x, y)), Some(k)) => r matches Ok(ToolCommand::Press { ref_id, snapshot_id, key }) && ref_id@
                == x && snapshot_id@ == y && key@ == k,
        }
    } else if name == "browser_scroll"@ {
        match reference(args) {
            Err(m) => fails_with(r, m),
            Ok((x, y)) => r matches Ok(ToolCommand::Scroll { ref_id, snapshot_id, direction, amount })
                && ref_id@ == x && snapshot_id@ == y && direction@ == (match s("direction"@) {
                Some(d) => d,
                None => "down"@,
            }) && amount == (match as_i64(arg(args, "amount"@)) {
                Some(a) => a,
                None => 300,
            }) as i32,
        }
    } else if name == "browser_wait"@ {
        r matches Ok(ToolCommand::Wait { timeout_ms, selector }) && timeout_ms == u64_or(
            args,
            "timeout_ms"@,
            1000,
        ) && same_opt(selector, s("selector"@))
    } else if name == "browser_evaluate"@ {
        match s("script"@) {
            None => fails_with(r, missing("script"@)),
            Some(x) => r matches Ok(ToolCommand::Evaluate { script }) && script@ == x,
        }
    } else if name == "browser_get_cookies"@ {
        r matches Ok(ToolCommand::GetCookies)
    } else if name == "browser_set_cookies"@ {
        r matches Ok(ToolCommand::SetCookies)
    } else if name == "browser_list_tabs"@ {
        r matches Ok(ToolCommand::ListTabs)
    } else if name == "browser_activate_tab"@ {
        match s("tab_id"@) {
            None => fails_with(r, missing("tab_id"@)),
            Some(x) => r matches Ok(ToolCommand::ActivateTab { tab_id }) && tab_id@ == x,
        }
    } else if name == "browser_close_tab"@ {
        match s("tab_id"@) {
            None => fails_with(r, missing("tab_id"@)),
            Some(x) => r matches Ok(ToolCommand::CloseTab { tab_id }) && tab_id@ == x,
        }
    } else if name == "browser_upload"@ {
        match (reference(args), s("file_path"@)) {
            (Err(m), _) => fails_with(r, m),
            (Ok(_), None) => fails_with(r, missing("file_path"@)),
            (Ok((x, y)), Some(f)) => r matches Ok(ToolCommand::Upload { ref_id, snapshot_id, file_path })
                && ref_id@ == x && snapshot_id@ == y && file_path@ == f,
        }
    } else if name == "browser_wait_for_network_idle"@ {
        r matches Ok(ToolCommand::WaitForNetworkIdle { idle_ms, timeout_ms }) && idle_ms == u64_or(
            args,
            "idle_ms"@,
            500,
        ) && timeout_ms == u64_or(args, "timeout_ms"@, 30000)
    } else if name == "browser_shutdown"@ {
        r matches Ok(ToolCommand::Shutdown)
    } else if name == "browser_enter_iframe"@ {
        match reference(args) {
            Err(m) => fails_with(r, m),
            Ok((x, y)) => r matches Ok(ToolCommand::EnterIframe { ref_id, snapshot_id }) && ref_id@ == x
                && snapshot_id@ == y,
        }
    } else if name == "browser_exit_iframe"@ {
        r matches Ok(ToolCommand::ExitIframe)
    } else if name == "browser_exit_all_iframes"@ {
        r matches Ok(ToolCommand::ExitAllIframes)
    } else if name == "browser_download_file"@ {
        match s("url"@) {
            None => fails_with(r, missing("url"@)),
            Some(u) => r matches Ok(ToolCommand::DownloadFile { url, save_path, timeout_ms }) && url@
                == u && same_opt(save_path, s("save_path"@)) && timeout_ms == u64_or(
                args,
                "timeout_ms"@,
                60000,
            ),
        }
    } else if name == "browser_click_and_download"@ {
        match reference(args) {
            Err(m) => fails_with(r, m),
            Ok((x, y)) => r matches Ok(ToolCommand::ClickAndDownload { ref_id, snapshot_id, save_path, timeout_ms })
                && ref_id@ == x && snapshot_id@ == y && same_opt(save_path, s("save_path"@)) && timeout_ms == u64_or(
                args,
                "timeout_ms"@,
                60000,
            ),
        }
    } else if name == "browser_press_key"@ {
        match s("key"@) {
            None => fails_with(r, missing("key"@)),
            Some(k) => r matches Ok(ToolCommand::PressKey { key, modifiers }) && key@ == k
                && modifiers@ == (match arg(args, "modifiers"@) {
                ArgValue::Array(items) => modifiers_named(string_items(items@)),
                _ => Seq::empty(),
            }),
        }
    } else if name == "browser_shortcut"@ {
        match s("shortcut"@) {
            None => fails_with(r, missing("shortcut"@)),
            Some(x) => r matches Ok(ToolCommand::Shortcut { shortcut }) && shortcut@ == x,
        }
    } else if name == "browser_navigate_with_options"@ {
        match s("url"@) {
            None => fails_with(r, missing("url"@)),
            Some(u) => r matches Ok(ToolCommand::NavigateWithOptions { url, wait_label, wait_until })
                && url@ == u && wait_label@ == (match s("wait_until"@) {
                Some(w) => w,
                None => "load"@,
            }) && wait_until == tool_wait_strategy(wait_label@),
        }
    } else if name == "browser_enable_network_monitoring"@ {
        r matches Ok(ToolCommand::EnableNetworkMonitoring)
    } else if name == "browser_get_network_requests"@ {
        r matches Ok(ToolCommand::GetNetworkRequests)
    } else if name == "browser_clear_network_requests"@ {
        r matches Ok(ToolCommand::ClearNetworkRequests)
    } else if name == "browser_enable_console_monitoring"@ {
        r matches Ok(ToolCommand::EnableConsoleMonitoring)
    } else if name == "browser_get_console_messages"@ {
        r matches Ok(ToolCommand::GetConsoleMessages)
    } else if name == "browser_clear_console_messages"@ {
        r matches Ok(ToolCommand::ClearConsoleMessages)
    } else if name == "browser_set_viewport"@ {
        match (as_u64(arg(args, "width"@)), as_u64(arg(args, "height"@))) {
            (None, _) => fails_with(r, missing("width"@)),
            (Some(_), None) => fails_with(r, missing("height"@)),
            (Some(w), Some(h)) => r matches Ok(ToolCommand::SetViewport { width, height }) && width
                == w as u32 && height == h as u32,
        }
    } else if name == "browser_get_viewport"@ {
        r matches Ok(ToolCommand::GetViewport)
    } else {
        fails_with(r, "Unknown tool: "@ + name)
    }
}

/// Reads a tool call (see [`tool_read`]).
pub fn tool_command(name: &str, args: &Vec<(String, ArgValue)>) -> (r: Result<ToolCommand, String>)
    ensures
        tool_read(name@, args@, r),
{
    let n = String::from_str(name);
    if eq_str(&n, "browser_navigate") {
        let url = match required_str(args, "url") {
            Ok(v) => v,
            Err(e) => {
                return Err(e);
            },
        };
        Ok(ToolCommand::Navigate { url })
    } else if eq_str(&n, "browser_snapshot") {
        Ok(ToolCommand::Snapshot)
    } else if eq_str(&n, "browser_click") {
        let (ref_id, snapshot_id) = required_reference(args)?;
        Ok(ToolCommand::Click { ref_id, snapshot_id })
    } else if eq_str(&n, "browser_type") {
        let (ref_id, snapshot_id) = required_reference(args)?;
        let text = match required_str(args, "text") {
            Ok(v) => v,
            Err(e) => {
                return Err(e);
            },
        };
        let clear_first = match get_bool(args, "clear_first") {
            Some(b) => b,
            None => false,
        };
        Ok(ToolCommand::Type { ref_id, snapshot_id, text, clear_first })
    } else if eq_str(&n, "browser_press") {
        let (ref_id, snapshot_id) = required_reference(args)?;
        let key = match required_str(args, "key") {
            Ok(v) => v,
            Err(e) => {
                return Err(e);
            },
        };
        Ok(ToolCommand::Press { ref_id, snapshot_id, key })
    } else if eq_str(&n, "browser_scroll") {
        let (ref_id, snapshot_id) = required_reference(args)?;
        let direction = match get_str(args, "direction") {
            Some(d) => d,
            None => String::from_str("down"),
        };
        let amount: i64 = match get_i64(args, "amount") {
            Some(a) => a,
            None => 300,
        };
        let amount32 = amount as i32;
        Ok(ToolCommand::Scroll { ref_id, snapshot_id, direction, amount: amount32 })
    } else if eq_str(&n, "browser_wait") {
        let timeout_ms = match get_u64(args, "timeout_ms") {
            Some(t) => t,
            None => 1000,
        };
        let selector = get_str(args, "selector");
        Ok(ToolCommand::Wait { timeout_ms, selector })
    } else if eq_str(&n, "browser_evaluate") {
        let script = match required_str(args, "script") {
            Ok(v) => v,
            Err(e) => {
                return Err(e);
            },
        };
        Ok(ToolCommand::Evaluate { script })
    } else if eq_str(&n, "browser_get_cookies") {
        Ok(ToolCommand::GetCookies)
    } else if eq_str(&n, "browser_set_cookies") {
        Ok(ToolCommand::SetCookies)
    } else if eq_str(&n, "browser_list_tabs") {
        Ok(ToolCommand::ListTabs)
    } else if eq_str(&n, "browser_activate_tab") {
        let tab_id = match required_str(args, "tab_id") {
            Ok(v) => v,
            Err(e) => {
                return Err(e);
            },
        };
        Ok(ToolCommand::ActivateTab { tab_id })
    } else if eq_str(&n, "browser_close_tab") {
        let tab_id = match required_str(args, "tab_id") {
            Ok(v) => v,
            Err(e) => {
                return Err(e);
            },
        };
        Ok(ToolCommand::CloseTab { tab_id })
    } else if eq_str(&n, "browser_upload") {
        let (ref_id, snapshot_id) = required_reference(args)?;
        let file_path = match required_str(args, "file_path") {
            Ok(v) => v,
            Err(e) => {
                return Err(e);
            },
        };
        Ok(ToolCommand::Upload { ref_id, snapshot_id, file_path })
    } else if eq_str(&n, "browser_wait_for_network_idle") {
        let idle_ms = match get_u64(args, "idle_ms") {
            Some(t) => t,
            None => 500,
        };
        let timeout_ms = match get_u64(args, "timeout_ms") {
            Some(t) => t,
            None => 30000,
        };
        Ok(ToolCommand::WaitForNetworkIdle { idle_ms, timeout_ms })
    } else if eq_str(&n, "browser_shutdown") {
        Ok(ToolCommand::Shutdown)
    } else if eq_str(&n, "browser_enter_iframe") {
        let (ref_id, snapshot_id) = required_reference(args)?;
        Ok(ToolCommand::EnterIframe { ref_id, snapshot_id })
    } else if eq_str(&n, "browser_exit_iframe") {
        Ok(ToolCommand::ExitIframe)
    } else if eq_str(&n, "browser_exit_all_iframes") {
        Ok(ToolCommand::ExitAllIframes)
    } else if eq_str(&n, "browser_download_file") {
        let url = match required_str(args, "url") {
            Ok(v) => v,
            Err(e) => {
                return Err(e);
            },
        };
        let save_path = get_str(args, "save_path");
        let timeout_ms = match get_u64(args, "timeout_ms") {
            Some(t) => t,
            None => 60000,
        };
        Ok(ToolCommand::DownloadFile { url, save_path, timeout_ms })
    } else if eq_str(&n, "browser_click_and_download") {
        let (ref_id, snapshot_id) = required_reference(args)?;
        let save_path = get_str(args, "save_path");
        let timeout_ms = match get_u64(args, "timeout_ms") {
            Some(t) => t,
            None => 60000,
        };
        Ok(ToolCommand::ClickAndDownload { ref_id, snapshot_id, save_path, timeout_ms })
    } else if eq_str(&n, "browser_press_key") {
        let key = match required_str(args, "key") {
            Ok(v) => v,
            Err(e) => {
                return Err(e);
            },
        };
        let modifiers = match lookup(args, "modifiers") {
            Some(ArgValue::Array(items)) => {
                let names = strings_in(items);
                parse_modifiers(&names)
            },
            _ => {
                let v: Vec<KeyModifier> = Vec::new();
                proof {
                    assert(v@ =~= Seq::<KeyModifier>::empty());
                }
                v
            },
        };
        Ok(ToolCommand::PressKey { key, modifiers })
    } else if eq_str(&n, "browser_shortcut") {
        let shortcut = match required_str(args, "shortcut") {
            Ok(v) => v,
            Err(e) => {
                return Err(e);
            },
        };
        Ok(ToolCommand::Shortcut { shortcut })
    } else if eq_str(&n, "browser_navigate_with_options") {
        let url = match required_str(args, "url") {
            Ok(v) => v,
            Err(e) => {
                return Err(e);
            },
        };
        let wait_label = match get_str(args, "wait_until") {
            Some(w) => w,
            None => String::from_str("load"),
        };
        let wait_until = if eq_str(&wait_label, "domContentLoaded") {
            NavigationWaitUntil::DomContentLoaded
        } else if eq_str(&wait_label, "networkIdle") {
            NavigationWaitUntil::NetworkIdle
        } else if eq_str(&wait_label, "none") {
            NavigationWaitUntil::NoWait
        } else {
            NavigationWaitUntil::Load
        };
        Ok(ToolCommand::NavigateWithOptions { url, wait_label, wait_until })
    } else if eq_str(&n, "browser_enable_network_monitoring") {
        Ok(ToolCommand::EnableNetworkMonitoring)
    } else if eq_str(&n, "browser_get_network_requests") {
        Ok(ToolCommand::GetNetworkRequests)
    } else if eq_str(&n, "browser_clear_network_requests") {
        Ok(ToolCommand::ClearNetworkRequests)
    } else if eq_str(&n, "browser_enable_console_monitoring") {
        Ok(ToolCommand::EnableConsoleMonitoring)
    } else if eq_str(&n, "browser_get_console_messages") {
        Ok(ToolCommand::GetConsoleMessages)
    } else if eq_str(&n, "browser_clear_console_messages") {
        Ok(ToolCommand::ClearConsoleMessages)
    } else if eq_str(&n, "browser_set_viewport") {
        let width = match get_u64(args, "width") {
            Some(w) => w,
            None => {
                return Err(missing_arg("width"));
            },
        };
        let height = match get_u64(args, "height") {
            Some(h) => h,
            None => {
                return Err(missing_arg("height"));
            },
        };
        let w32 = width as u32;
        let h32 = height as u32;
        Ok(ToolCommand::SetViewport { width: w32, height: h32 })
    } else if eq_str(&n, "browser_get_viewport") {
        Ok(ToolCommand::GetViewport)
    } else {
        let mut m = String::from_str("Unknown tool: ");
        m.append(name);
        Err(m)
    }
}

} // verus!

verus! {

/// The fixed reply of a tool whose output does not depend on what the
/// browser reports.
pub open spec fn fixed_reply_spec(c: ToolCommand) -> Option<Seq<char>> {
    match c {
        ToolCommand::SetCookies => Some("Cookies set successfully"@),
        ToolCommand::WaitForNetworkIdle { .. } => Some("Network idle detected"@),
        ToolCommand::Shutdown => Some("Browser closed"@),
        ToolCommand::ExitAllIframes => Some("Exited all iframes, returned to main document"@),
        ToolCommand::EnableNetworkMonitoring => Some("Network monitoring enabled"@),
        ToolCommand::ClearNetworkRequests => Some("Network requests cleared"@),
        ToolCommand::EnableConsoleMonitoring => Some("Console monitoring enabled"@),
        ToolCommand::ClearConsoleMessages => Some("Console messages cleared"@),
        ToolCommand::ActivateTab { tab_id } => Some("Activated tab: "@ + tab_id@),
        ToolCommand::CloseTab { tab_id } => Some("Closed tab: "@ + tab_id@),
        ToolCommand::Upload { ref_id, file_path, .. } => Some("File uploaded: "@ + file_path@ + " -> "@
            + ref_id@),
        ToolCommand::SetViewport { width, height } => Some("Viewport set to "@ + decimal(
            width as nat,
        ) + "x"@ + decimal(height as nat)),
        ToolCommand::Wait { timeout_ms, selector } => match selector {
            Some(s) => Some("Element '"@ + s@ + "' appeared"@),
            None => Some("Waited "@ + decimal(timeout_ms as nat) + "ms"@),
        },
        _ => None,
    }
}

impl ToolCommand {
    /// The reply of a completed tool call whose output does not depend on
    /// what the browser reports.
    pub fn fixed_reply(&self) -> (r: Option<String>)
        ensures
            match fixed_reply_spec(*self) {
                Some(t) => r matches Some(s) && s@ == t,
                None => r is None,
            },
    {
        match self {
            ToolCommand::SetCookies => Some(String::from_str("Cookies set successfully")),
            ToolCommand::WaitForNetworkIdle { .. } => Some(String::from_str("Network idle detected")),
            ToolCommand::Shutdown => Some(String::from_str("Browser closed")),
            ToolCommand::ExitAllIframes => Some(
                String::from_str("Exited all iframes, returned to main document"),
            ),
            ToolCommand::EnableNetworkMonitoring => Some(String::from_str("Network monitoring enabled")),
            ToolCommand::ClearNetworkRequests => Some(String::from_str("Network requests cleared")),
            ToolCommand::EnableConsoleMonitoring => Some(String::from_str("Console monitoring enabled")),
            ToolCommand::ClearConsoleMessages => Some(String::from_str("Console messages cleared")),
            ToolCommand::ActivateTab { tab_id } => {
                let mut m = String::from_str("Activated tab: ");
                m.append(tab_id.as_str());
                Some(m)
            },
            ToolCommand::CloseTab { tab_id } => {
                let mut m = String::from_str("Closed tab: ");
                m.append(tab_id.as_str());
                Some(m)
            },
            ToolCommand::Upload { ref_id, file_path, .. } => {
                let mut m = String::from_str("File uploaded: ");
                m.append(file_path.as_str());
                m.append(" -> ");
                m.append(ref_id.as_str());
                Some(m)
            },
            ToolCommand::SetViewport { width, height } => {
                let mut m = String::from_str("Viewport set to ");
                let w = decimal_string(*width as u64);
                m.append(w.as_str());
                m.append("x");
                let h = decimal_string(*height as u64);
                m.append(h.as_str());
                Some(m)
            },
            ToolCommand::Wait { timeout_ms, selector } => match selector {
                Some(s) => {
                    let mut m = String::from_str("Element '");
                    m.append(s.as_str());
                    m.append("' appeared");
                    Some(m)
                },
                None => {
                    let mut m = String::from_str("Waited ");
                    let d = decimal_string(*timeout_ms);
                    m.append(d.as_str());
                    m.append("ms");
                    Some(m)
                },
            },
            _ => None,
        }
    }
}

/// The reply of a navigation: the requested URL (with the wait strategy
/// label when one was chosen), the title and the final URL.
pub open spec fn navigation_reply_text(url: Seq<char>, wait_label: Option<Seq<char>>, title: Seq<char>, final_url: Seq<char>) -> Seq<char> {
    "Navigated to "@ + url + (match wait_label {
        Some(w) => " (wait: "@ + w + ")"@,
        None => Seq::empty(),
    }) + "\nTitle: "@ + title + "\nFinal URL: "@ + final_url
}

/// The reply of a navigation.
pub fn navigation_reply(url: &String, wait_label: Option<&String>, title: &String, final_url: &String) -> (r: String)
    ensures
        r@ == navigation_reply_text(
            url@,
            match wait_label {
                Some(w) => Some(w@),
                None => None,
            },
            title@,
            final_url@,
        ),
{
    let mut m = String::from_str("Navigated to ");
    m.append(url.as_str());
    match wait_label {
        Some(w) => {
            m.append(" (wait: ");
            m.append(w.as_str());
            m.append(")");
        },
        None => {},
    }
    m.append("\nTitle: ");
    m.append(title.as_str());
    m.append("\nFinal URL: ");
    m.append(final_url.as_str());
    m
}

/// The reply after entering or leaving an iframe.
pub fn iframe_reply(entered: bool, depth: usize) -> (r: String)
    ensures
        r@ == (if entered {
            "Entered iframe, depth: "@
        } else {
            "Exited iframe, depth: "@
        }) + decimal(depth as nat),
{
    let mut m = if entered {
        String::from_str("Entered iframe, depth: ")
    } else {
        String::from_str("Exited iframe, depth: ")
    };
    let d = decimal_string(depth as u64);
    m.append(d.as_str());
    m
}

/// The debug name of a download status.
pub open spec fn status_name(s: crate::types::DownloadStatus) -> Seq<char> {
    match s {
        crate::types::DownloadStatus::InProgress => "InProgress"@,
        crate::types::DownloadStatus::Completed => "Completed"@,
        crate::types::DownloadStatus::Canceled => "Canceled"@,
    }
}

/// The reply of a completed download: GUID, path, size (0 when unknown)
/// and status.
pub fn download_reply(result: &crate::types::DownloadResult) -> (r: String)
    ensures
        r@ == "Download complete: "@ + result.guid@ + " -> "@ + result.file_path@ + "\nSize: "@
            + decimal(
            (match result.size {
                Some(n) => n,
                None => 0,
            }) as nat,
        ) + " bytes\nStatus: "@ + status_name(result.status),
{
    let mut m = String::from_str("Download complete: ");
    m.append(result.guid.as_str());
    m.append(" -> ");
    m.append(result.file_path.as_str());
    m.append("\nSize: ");
    let size: u64 = match result.size {
        Some(n) => n,
        None => 0,
    };
    let d = decimal_string(size);
    m.append(d.as_str());
    m.append(" bytes\nStatus: ");
    let s = match result.status {
        crate::types::DownloadStatus::InProgress => "InProgress",
        crate::types::DownloadStatus::Completed => "Completed",
        crate::types::DownloadStatus::Canceled => "Canceled",
    };
    m.append(s);
    m
}

} // verus!

verus! {

/// The required arguments of a known tool, in the order they are read,
/// each with whether it is read as an unsigned integer (else as a string);
/// `None` for an unknown tool.
pub open spec fn required_of(name: Seq<char>) -> Option<Seq<(Seq<char>, bool)>> {
    if name == "browser_navigate"@ {
        Some(seq![("url"@, false)])
    } else if name == "browser_snapshot"@ {
        Some(Seq::empty())
    } else if name == "browser_click"@ {
        Some(seq![("ref_id"@, false), ("snapshot_id"@, false)])
    } else if name == "browser_type"@ {
        Some(seq![("ref_id"@, false), ("snapshot_id"@, false), ("text"@, false)])
    } else if name == "browser_press"@ {
        Some(seq![("ref_id"@, false), ("snapshot_id"@, false), ("key"@, false)])
    } else if name == "browser_scroll"@ {
        Some(seq![("ref_id"@, false), ("snapshot_id"@, false)])
    } else if name == "browser_wait"@ {
        Some(Seq::empty())
    } else if name == "browser_evaluate"@ {
        Some(seq![("script"@, false)])
    } else if name == "browser_get_cookies"@ {
        Some(Seq::empty())
    } else if name == "browser_set_cookies"@ {
        Some(Seq::empty())
    } else if name == "browser_list_tabs"@ {
        Some(Seq::empty())
    } else if name == "browser_activate_tab"@ {
        Some(seq![("tab_id"@, false)])
    } else if name == "browser_close_tab"@ {
        Some(seq![("tab_id"@, false)])
    } else if name == "browser_upload"@ {
        Some(seq![("ref_id"@, false), ("snapshot_id"@, false), ("file_path"@, false)])
    } else if name == "browser_wait_for_network_idle"@ {
        Some(Seq::empty())
    } else if name == "browser_shutdown"@ {
        Some(Seq::empty())
    } else if name == "browser_enter_iframe"@ {
        Some(seq![("ref_id"@, false), ("snapshot_id"@, false)])
    } else if name == "browser_exit_iframe"@ {
        Some(Seq::empty())
    } else if name == "browser_exit_all_iframes"@ {
        Some(Seq::empty())
    } else if name == "browser_download_file"@ {
        Some(seq![("url"@, false)])
    } else if name == "browser_click_and_download"@ {
        Some(seq![("ref_id"@, false), ("snapshot_id"@, false)])
    } else if name == "browser_press_key"@ {
        Some(seq![("key"@, false)])
    } else if name == "browser_shortcut"@ {
        Some(seq![("shortcut"@, false)])
    } else if name == "browser_navigate_with_options"@ {
        Some(seq![("url"@, false)])
    } else if name == "browser_enable_network_monitoring"@ {
        Some(Seq::empty())
    } else if name == "browser_get_network_requests"@ {
        Some(Seq::empty())
    } else if name == "browser_clear_network_requests"@ {
        Some(Seq::empty())
    } else if name == "browser_enable_console_monitoring"@ {
        Some(Seq::empty())
    } else if name == "browser_get_console_messages"@ {
        Some(Seq::empty())
    } else if name == "browser_clear_console_messages"@ {
        Some(Seq::empty())
    } else if name == "browser_set_viewport"@ {
        Some(seq![("width"@, true), ("height"@, true)])
    } else if name == "browser_get_viewport"@ {
        Some(Seq::empty())
    } else {
        None
    }
}

/// Required argument `key` is given, with the type it is read as.
pub open spec fn present(args: Seq<(String, ArgValue)>, key: (Seq<char>, bool)) -> bool {
    if key.1 {
        as_u64(arg(args, key.0)) is Some
    } else {
        str_arg(args, key.0) is Some
    }
}

/// Reading a tool call fails only for an unknown tool or a missing required
/// argument: a known tool with all its required arguments is always read,
/// whatever optional arguments are left out (they take their defaults);
/// otherwise the error names the first required argument that is missing.
pub proof fn law_tool_reading_fails_only_on_missing_arguments(
    name: Seq<char>,
    args: Seq<(String, ArgValue)>,
    r: Result<ToolCommand, String>,
)
    requires
        tool_read(name, args, r),
    ensures
        required_of(name) is None ==> fails_with(r, "Unknown tool: "@ + name),
        required_of(name) matches Some(req) ==> ((forall|i: int| 0 <= i < req.len() ==> present(args, req[i]))
            <==> r is Ok),
        required_of(name) matches Some(req) ==> (r is Err ==> exists|i: int|
            0 <= i < req.len() && !present(args, req[i]) && fails_with(r, missing(req[i].0)) && forall|j: int|
                0 <= j < i ==> present(args, req[j])),
{
    match required_of(name) {
        Some(req) => {
            if req.len() == 1 {
                if r is Err {
                    assert(!present(args, req[0]) && fails_with(r, missing(req[0].0)));
                }
            } else if req.len() == 2 {
                if r is Err {
                    if present(args, req[0]) {
                        assert(!present(args, req[1]) && fails_with(r, missing(req[1].0)));
                    } else {
                        assert(fails_with(r, missing(req[0].0)));
                    }
                }
            }
        },
        None => {},
    }
}

} // verus!
