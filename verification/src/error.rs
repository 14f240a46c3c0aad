//! Error type for browser operations, with the message each error renders to.
use vstd::prelude::*;

verus! {

/// Browser operation errors.
#[derive(Debug)]
pub enum Error {
    /// Browser launch failed.
    LaunchFailed(String),
    /// Browser not launched.
    NotLaunched,
    /// Browser unresponsive.
    Unresponsive,
    /// No active page.
    NoActivePage,
    /// Element not found.
    ElementNotFound(String),
    /// Page changed between observation and action.
    PageChanged { expected: String, current: String },
    /// Operation timeout.
    Timeout(String),
    /// CDP error.
    Cdp(String),
    /// JavaScript execution error.
    JavaScript(String),
    /// Invalid parameter.
    InvalidParameter(String),
    /// Serialization error (the serializer's message).
    Serialize(String),
    /// IO error (the operating system's message).
    Io(String),
    /// A file path outside the allowed roots or otherwise unusable.
    InvalidPath(String),
    /// A URL that the network policy refuses.
    NetworkAccessDenied(String),
    /// A reference to a snapshot that is no longer the current observation.
    StaleSnapshot { expected: String, current: String },
    /// An element that never became actionable.
    ElementNotActionable(String),
    /// Other error.
    Other(String),
}

/// The message an error renders to.
pub open spec fn error_message(e: Error) -> Seq<char> {
    match e {
        Error::LaunchFailed(s) => "Browser launch failed: "@ + s@,
        Error::NotLaunched => "Browser not launched"@,
        Error::Unresponsive => "Browser unresponsive"@,
        Error::NoActivePage => "No active page, please use browser_navigate first"@,
        Error::ElementNotFound(s) => "Element not found: ref_id="@ + s@,
        Error::PageChanged { expected, current } => "Page changed: expected "@ + expected@
            + ", current "@ + current@,
        Error::Timeout(s) => "Operation timeout: "@ + s@,
        Error::Cdp(s) => "CDP error: "@ + s@,
        Error::JavaScript(s) => "JavaScript error: "@ + s@,
        Error::InvalidParameter(s) => "Invalid parameter: "@ + s@,
        Error::Serialize(s) => "Serialization error: "@ + s@,
        Error::Io(s) => "IO error: "@ + s@,
        Error::InvalidPath(s) => "Invalid path: "@ + s@,
        Error::NetworkAccessDenied(s) => "Network access denied: "@ + s@,
        Error::StaleSnapshot { expected, current } => "Stale snapshot: expected "@ + expected@
            + ", current "@ + current@,
        Error::ElementNotActionable(s) => "Element not actionable: "@ + s@,
        Error::Other(s) => s@,
    }
}

fn prefixed(prefix: &str, s: &String) -> (r: String)
    ensures
        r@ == prefix@ + s@,
{
    let mut r = String::from_str(prefix);
    r.append(s.as_str());
    r
}

fn pair_message(head: &str, expected: &String, current: &String) -> (r: String)
    ensures
        r@ == head@ + expected@ + ", current "@ + current@,
{
    let mut r = String::from_str(head);
    r.append(expected.as_str());
    r.append(", current ");
    r.append(current.as_str());
    r
}

impl Error {
    /// The human-readable message of this error.
    pub fn message(&self) -> (r: String)
        ensures
            r@ == error_message(*self),
    {
        match self {
            Error::LaunchFailed(s) => prefixed("Browser launch failed: ", s),
            Error::NotLaunched => String::from_str("Browser not launched"),
            Error::Unresponsive => String::from_str("Browser unresponsive"),
            Error::NoActivePage => String::from_str(
                "No active page, please use browser_navigate first",
            ),
            Error::ElementNotFound(s) => prefixed("Element not found: ref_id=", s),
            Error::PageChanged { expected, current } => pair_message(
                "Page changed: expected ",
                expected,
                current,
            ),
            Error::Timeout(s) => prefixed("Operation timeout: ", s),
            Error::Cdp(s) => prefixed("CDP error: ", s),
            Error::JavaScript(s) => prefixed("JavaScript error: ", s),
            Error::InvalidParameter(s) => prefixed("Invalid parameter: ", s),
            Error::Serialize(s) => prefixed("Serialization error: ", s),
            Error::Io(s) => prefixed("IO error: ", s),
            Error::InvalidPath(s) => prefixed("Invalid path: ", s),
            Error::NetworkAccessDenied(s) => prefixed("Network access denied: ", s),
            Error::StaleSnapshot { expected, current } => pair_message(
                "Stale snapshot: expected ",
                expected,
                current,
            ),
            Error::ElementNotActionable(s) => prefixed("Element not actionable: ", s),
            Error::Other(s) => s.clone(),
        }
    }
}

} // verus!
