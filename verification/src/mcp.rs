//! The Model Context Protocol server: protocol types, version negotiation,
//! request routing, resources, prompts and tool results.
use vstd::prelude::*;
use crate::text::{ascii_lower, eq_str, is_ascii, to_lowercase, unicode_lower};

verus! {

/// The latest protocol version the server speaks.
pub const MCP_PROTOCOL_VERSION: &'static str = "2025-11-25";

/// JSON-RPC parse error.
pub const ERR_PARSE: i32 = -32700;
/// JSON-RPC invalid request.
pub const ERR_INVALID_REQUEST: i32 = -32600;
/// JSON-RPC method not found.
pub const ERR_METHOD_NOT_FOUND: i32 = -32601;
/// JSON-RPC invalid params.
pub const ERR_INVALID_PARAMS: i32 = -32602;
/// JSON-RPC internal error.
pub const ERR_INTERNAL: i32 = -32603;
/// MCP resource not found.
pub const ERR_RESOURCE_NOT_FOUND: i32 = -32002;
/// MCP URL elicitation required.
pub const ERR_URL_ELICITATION_REQUIRED: i32 = -32042;

/// The protocol versions the server supports (latest first).
pub open spec fn supported_version(v: Seq<char>) -> bool {
    v == "2025-11-25"@ || v == "2025-06-18"@ || v == "2025-03-26"@ || v == "2024-11-05"@
}

/// The protocol versions the server supports, latest first.
pub fn supported_protocol_versions() -> (r: Vec<String>)
    ensures
        r@.len() == 4,
        r@[0]@ == "2025-11-25"@,
        r@[1]@ == "2025-06-18"@,
        r@[2]@ == "2025-03-26"@,
        r@[3]@ == "2024-11-05"@,
{
    let mut v: Vec<String> = Vec::new();
    v.push(String::from_str("2025-11-25"));
    v.push(String::from_str("2025-06-18"));
    v.push(String::from_str("2025-03-26"));
    v.push(String::from_str("2024-11-05"));
    v
}

/// Negotiates the protocol version: the client's version when the server
/// supports it, else the latest one.
pub fn negotiate_version(client_version: &str) -> (r: String)
    ensures
        r@ == (if supported_version(client_version@) {
            client_version@
        } else {
            MCP_PROTOCOL_VERSION@
        }),
{
    let v = String::from_str(client_version);
    if eq_str(&v, "2025-11-25") || eq_str(&v, "2025-06-18") || eq_str(&v, "2025-03-26") || eq_str(
        &v,
        "2024-11-05",
    ) {
        v
    } else {
        String::from_str(MCP_PROTOCOL_VERSION)
    }
}

/// Log levels.
#[derive(Debug, Clone, Copy, PartialEq, Eq, Structural)]
pub enum LogLevel {
    Debug,
    Info,
    Notice,
    Warning,
    Error,
    Critical,
    Alert,
    Emergency,
}

/// The protocol name of a log level.
pub open spec fn level_name(l: LogLevel) -> Seq<char> {
    match l {
        LogLevel::Debug => "debug"@,
        LogLevel::Info => "info"@,
        LogLevel::Notice => "notice"@,
        LogLevel::Warning => "warning"@,
        LogLevel::Error => "error"@,
        LogLevel::Critical => "critical"@,
        LogLevel::Alert => "alert"@,
        LogLevel::Emergency => "emergency"@,
    }
}

/// The log level with a (lowercase) protocol name.
pub open spec fn level_named(n: Seq<char>) -> Option<LogLevel> {
    if n == "debug"@ {
        Some(LogLevel::Debug)
    } else if n == "info"@ {
        Some(LogLevel::Info)
    } else if n == "notice"@ {
        Some(LogLevel::Notice)
    } else if n == "warning"@ {
        Some(LogLevel::Warning)
    } else if n == "error"@ {
        Some(LogLevel::Error)
    } else if n == "critical"@ {
        Some(LogLevel::Critical)
    } else if n == "alert"@ {
        Some(LogLevel::Alert)
    } else if n == "emergency"@ {
        Some(LogLevel::Emergency)
    } else {
        None
    }
}

impl LogLevel {
    /// The protocol name of this level.
    pub fn as_str(&self) -> (r: &'static str)
        ensures
            r@ == level_name(*self),
    {
        match self {
            LogLevel::Debug => "debug",
            LogLevel::Info => "info",
            LogLevel::Notice => "notice",
            LogLevel::Warning => "warning",
            LogLevel::Error => "error",
            LogLevel::Critical => "critical",
            LogLevel::Alert => "alert",
            LogLevel::Emergency => "emergency",
        }
    }

    /// The level named `s`, ignoring case.
    pub fn from_str(s: &str) -> (r: Option<LogLevel>)
        ensures
            r == level_named(unicode_lower(s@)),
            is_ascii(s@) ==> r == level_named(ascii_lower(s@)),
    {
        let n = to_lowercase(s);
        if eq_str(&n, "debug") {
            Some(LogLevel::Debug)
        } else if eq_str(&n, "info") {
            Some(LogLevel::Info)
        } else if eq_str(&n, "notice") {
            Some(LogLevel::Notice)
        } else if eq_str(&n, "warning") {
            Some(LogLevel::Warning)
        } else if eq_str(&n, "error") {
            Some(LogLevel::Error)
        } else if eq_str(&n, "critical") {
            Some(LogLevel::Critical)
        } else if eq_str(&n, "alert") {
            Some(LogLevel::Alert)
        } else if eq_str(&n, "emergency") {
            Some(LogLevel::Emergency)
        } else {
            None
        }
    }
}

/// `logging/setLevel` parameters.
pub struct SetLogLevelParams {
    pub level: String,
}

/// A link to a resource.
pub struct ResourceLink {
    pub uri: String,
    pub mime_type: Option<String>,
    pub name: Option<String>,
}

/// A content block.
pub enum Content {
    Text { text: String },
    Image { data: String, mime_type: String },
    Resource { resource: ResourceLink },
    Audio { data: String, mime_type: String },
}

impl Content {
    /// A text content block.
    pub fn text(text: String) -> (r: Content)
        ensures
            r == (Content::Text { text }),
    {
        Content::Text { text }
    }
}

/// Client roots capability.
pub struct RootsCapability {
    pub list_changed: Option<bool>,
}

/// Client sampling capability.
pub struct SamplingCapability {}

/// Client elicitation capability.
pub struct ElicitationCapability {}

/// Client identity.
pub struct ClientInfo {
    pub name: String,
    pub version: String,
    pub title: Option<String>,
}

/// Server tools capability.
pub struct ToolsCapability {
    pub list_changed: Option<bool>,
}

/// Server resources capability.
pub struct ResourcesCapability {
    pub subscribe: Option<bool>,
    pub list_changed: Option<bool>,
}

/// Server prompts capability.
pub struct PromptsCapability {
    pub list_changed: Option<bool>,
}

/// Server logging capability.
pub struct LoggingCapability {}

/// Server completions capability.
pub struct CompletionsCapability {}

/// Server tasks capability: which task methods are served, and whether
/// tool calls can run as tasks.
pub struct TasksCapability {
    pub list: bool,
    pub cancel: bool,
    pub tool_calls: bool,
}

/// Server identity.
pub struct ServerInfo {
    pub name: String,
    pub version: String,
    pub title: Option<String>,
    pub description: Option<String>,
}

/// The capabilities the server announces.
pub struct ServerCapabilities {
    pub tools: Option<ToolsCapability>,
    pub resources: Option<ResourcesCapability>,
    pub prompts: Option<PromptsCapability>,
    pub logging: Option<LoggingCapability>,
    pub completions: Option<CompletionsCapability>,
    pub tasks: Option<TasksCapability>,
}

/// The answer to `initialize`.
pub struct InitializeResult {
    pub protocol_version: String,
    pub capabilities: ServerCapabilities,
    pub server_info: Option<ServerInfo>,
    pub instructions: Option<String>,
}

/// `r` answers `initialize` for `client_version`, from a server of `server_version`.
pub open spec fn answers_initialize(r: InitializeResult, client_version: Seq<char>, server_version: Seq<char>) -> bool {
    &&& r.protocol_version@ == (if supported_version(client_version) {
        client_version
    } else {
        MCP_PROTOCOL_VERSION@
    })
    &&& r.capabilities.tools == Some(ToolsCapability { list_changed: Some(false) })
    &&& r.capabilities.resources == Some(ResourcesCapability { subscribe: Some(false), list_changed: Some(false) })
    &&& r.capabilities.prompts == Some(PromptsCapability { list_changed: Some(false) })
    &&& r.capabilities.logging is Some
    &&& r.capabilities.completions is None
    &&& r.capabilities.tasks == Some(TasksCapability { list: true, cancel: true, tool_calls: true })
    &&& r.server_info matches Some(info)
    &&& info.name@ == "agent-browser-mcp"@
    &&& info.version@ == server_version
    &&& info.title matches Some(t)
    &&& t@ == "Agent Browser MCP"@
    &&& info.description matches Some(d)
    &&& d@ == "Browser automation tools for AI agents"@
    &&& r.instructions matches Some(i)
    &&& i@ == "Use browser tools to automate web interactions. Start with browser_navigate, then use browser_snapshot to understand the page structure."@
}

/// The answer to `initialize` for a client that asked for
/// `client_version`, from a server of version `server_version`: the
/// negotiated protocol version, tools, resources, prompts and logging
/// without change notifications or subscriptions, the server identity and
/// instructions.
pub fn initialize_result(client_version: &str, server_version: &str) -> (r: InitializeResult)
    ensures
        answers_initialize(r, client_version@, server_version@),
{
    InitializeResult {
        protocol_version: negotiate_version(client_version),
        capabilities: ServerCapabilities {
            tools: Some(ToolsCapability { list_changed: Some(false) }),
            resources: Some(ResourcesCapability { subscribe: Some(false), list_changed: Some(false) }),
            prompts: Some(PromptsCapability { list_changed: Some(false) }),
            logging: Some(LoggingCapability {  }),
            completions: None,
            tasks: Some(TasksCapability { list: true, cancel: true, tool_calls: true }),
        },
        server_info: Some(
            ServerInfo {
                name: String::from_str("agent-browser-mcp"),
                version: String::from_str(server_version),
                title: Some(String::from_str("Agent Browser MCP")),
                description: Some(String::from_str("Browser automation tools for AI agents")),
            },
        ),
        instructions: Some(
            String::from_str(
                "Use browser tools to automate web interactions. Start with browser_navigate, then use browser_snapshot to understand the page structure.",
            ),
        ),
    }
}

/// The version this server reports of itself.
pub const SERVER_VERSION: &'static str = "0.2.0";

/// A JSON-RPC request id.
#[derive(Clone, PartialEq, Eq, Debug)]
pub enum RequestId {
    Number(i64),
    Text(String),
}

/// The fields of `initialize` params as they came: each is `None` where
/// it is missing or not a string; `has_capabilities` tells whether
/// `capabilities` is an object.
pub struct InitializeParams {
    pub protocol_version: Option<String>,
    pub client_name: Option<String>,
    pub client_version: Option<String>,
    pub has_capabilities: bool,
}

/// The answer to an `initialize` request: its id, and a result or an error.
pub struct InitializeResponse {
    pub id: Option<RequestId>,
    pub result: Option<InitializeResult>,
    pub error: Option<RpcError>,
}

/// The `initialize` params are complete.
pub open spec fn initialize_params_valid(p: Option<InitializeParams>) -> bool {
    match p {
        Some(p) => p.protocol_version is Some && p.client_name is Some && p.client_version is Some
            && p.has_capabilities,
        None => false,
    }
}

/// Answers `initialize`: echoes the request id, and gives the result for
/// the client's protocol version, or an invalid-params error when the
/// params are missing or incomplete.
pub fn handle_initialize(id: Option<RequestId>, params: Option<InitializeParams>) -> (r: InitializeResponse)
    ensures
        r.id == id,
        initialize_params_valid(params) ==> {
            &&& r.error is None
            &&& r.result matches Some(res)
            &&& params matches Some(p)
            &&& p.protocol_version matches Some(v)
            &&& answers_initialize(res, v@, SERVER_VERSION@)
        },
        !initialize_params_valid(params) ==> {
            &&& r.result is None
            &&& r.error matches Some(e)
            &&& e.code == ERR_INVALID_PARAMS
            &&& e.message@ == "Missing or invalid initialize params"@
        },
{
    let refused = InitializeResponse {
        id: None,
        result: None,
        error: Some(
            RpcError { code: ERR_INVALID_PARAMS, message: String::from_str("Missing or invalid initialize params") },
        ),
    };
    match params {
        Some(p) => {
            if !p.has_capabilities || p.client_name.is_none() || p.client_version.is_none() {
                return InitializeResponse { id, ..refused };
            }
            match p.protocol_version {
                Some(v) => {
                    let result = initialize_result(v.as_str(), SERVER_VERSION);
                    InitializeResponse { id, result: Some(result), error: None }
                },
                None => InitializeResponse { id, ..refused },
            }
        },
        None => InitializeResponse { id, ..refused },
    }
}

/// How a tool can be run as a task.
pub struct ToolExecution {
    pub task_support: String,
}

/// Tool behaviour hints.
pub struct ToolAnnotations {
    pub read_only_hint: Option<bool>,
    pub destructive_hint: Option<bool>,
    pub idempotent_hint: Option<bool>,
    pub open_world_hint: Option<bool>,
}

/// A request to run a tool as a task.
pub struct TaskRequest {
    pub ttl: Option<u64>,
}

/// A task descriptor.
pub struct TaskDescriptor {
    pub task_id: String,
    pub status: String,
    pub status_message: Option<String>,
    pub created_at: String,
    pub last_updated_at: String,
    pub ttl: u64,
    pub poll_interval: Option<u64>,
}

/// Parameters that name a task.
pub struct TaskIdParams {
    pub task_id: String,
}

/// A resource.
pub struct Resource {
    pub uri: String,
    pub name: String,
    pub description: Option<String>,
    pub mime_type: Option<String>,
    pub size: Option<u64>,
}

/// The answer to `resources/list`.
pub struct ResourcesListResult {
    pub resources: Vec<Resource>,
    pub next_cursor: Option<String>,
}

/// `resources/read` parameters.
pub struct ResourceReadParams {
    pub uri: String,
}

/// The contents of a resource.
pub enum ResourceContents {
    Text { uri: String, mime_type: Option<String>, text: String },
    Blob { uri: String, mime_type: Option<String>, blob: String },
}

/// The answer to `resources/read`.
pub struct ResourceReadResult {
    pub contents: Vec<ResourceContents>,
}

/// The URI of the screenshot resource.
pub open spec fn screenshot_uri() -> Seq<char> {
    "resource://browser/screenshot"@
}

/// The URI of the snapshot resource.
pub open spec fn snapshot_uri() -> Seq<char> {
    "resource://browser/snapshot"@
}

/// The resources the server offers: the current page's screenshot (PNG)
/// and its accessibility snapshot (text).
pub fn resources_list() -> (r: ResourcesListResult)
    ensures
        r.resources@.len() == 2,
        r.resources@[0].uri@ == screenshot_uri(),
        r.resources@[0].name@ == "Current Page Screenshot"@,
        r.resources@[0].description matches Some(d) && d@ == "Screenshot of the current browser page"@,
        r.resources@[0].mime_type matches Some(m) && m@ == "image/png"@,
        r.resources@[0].size is None,
        r.resources@[1].uri@ == snapshot_uri(),
        r.resources@[1].name@ == "Page Accessibility Snapshot"@,
        r.resources@[1].description matches Some(d) && d@
            == "Accessibility tree snapshot of the current page"@,
        r.resources@[1].mime_type matches Some(m) && m@ == "text/plain"@,
        r.resources@[1].size is None,
        r.next_cursor is None,
{
    let mut resources: Vec<Resource> = Vec::new();
    resources.push(
        Resource {
            uri: String::from_str("resource://browser/screenshot"),
            name: String::from_str("Current Page Screenshot"),
            description: Some(String::from_str("Screenshot of the current browser page")),
            mime_type: Some(String::from_str("image/png")),
            size: None,
        },
    );
    resources.push(
        Resource {
            uri: String::from_str("resource://browser/snapshot"),
            name: String::from_str("Page Accessibility Snapshot"),
            description: Some(String::from_str("Accessibility tree snapshot of the current page")),
            mime_type: Some(String::from_str("text/plain")),
            size: None,
        },
    );
    ResourcesListResult { resources, next_cursor: None }
}

/// Which resource a URI names.
pub enum ResourceKind {
    Screenshot,
    Snapshot,
}

/// A JSON-RPC error: code and message.
#[derive(Debug)]
pub struct RpcError {
    pub code: i32,
    pub message: String,
}

/// Resolves a resource URI; an unknown one is "resource not found".
pub fn resource_kind(uri: &str) -> (r: Result<ResourceKind, RpcError>)
    ensures
        uri@ == screenshot_uri() ==> r matches Ok(ResourceKind::Screenshot),
        uri@ == snapshot_uri() ==> r matches Ok(ResourceKind::Snapshot),
        uri@ != screenshot_uri() && uri@ != snapshot_uri() ==> (r matches Err(e) && e.code
            == ERR_RESOURCE_NOT_FOUND && e.message@ == "Resource not found: "@ + uri@),
{
    let u = String::from_str(uri);
    proof {
        reveal_strlit("resource://browser/screenshot");
        reveal_strlit("resource://browser/snapshot");
        assert(screenshot_uri()[20] != snapshot_uri()[20]);
    }
    if eq_str(&u, "resource://browser/screenshot") {
        Ok(ResourceKind::Screenshot)
    } else if eq_str(&u, "resource://browser/snapshot") {
        Ok(ResourceKind::Snapshot)
    } else {
        let mut m = String::from_str("Resource not found: ");
        m.append(uri);
        Err(RpcError { code: ERR_RESOURCE_NOT_FOUND, message: m })
    }
}

/// The contents of a read resource: the screenshot as a PNG blob, or the
/// rendered snapshot as text.
pub fn resource_contents(uri: &str, kind: &ResourceKind, payload: String) -> (r: ResourceReadResult)
    ensures
        r.contents@.len() == 1,
        match *kind {
            ResourceKind::Screenshot => {
                &&& r.contents@[0] matches ResourceContents::Blob { uri: u, mime_type, blob }
                &&& u@ == uri@
                &&& blob == payload
                &&& mime_type matches Some(m)
                &&& m@ == "image/png"@
            },
            ResourceKind::Snapshot => {
                &&& r.contents@[0] matches ResourceContents::Text { uri: u, mime_type, text }
                &&& u@ == uri@
                &&& text == payload
                &&& mime_type matches Some(m)
                &&& m@ == "text/plain"@
            },
        },
{
    let mut contents: Vec<ResourceContents> = Vec::new();
    match kind {
        ResourceKind::Screenshot => contents.push(
            ResourceContents::Blob {
                uri: String::from_str(uri),
                mime_type: Some(String::from_str("image/png")),
                blob: payload,
            },
        ),
        ResourceKind::Snapshot => contents.push(
            ResourceContents::Text {
                uri: String::from_str(uri),
                mime_type: Some(String::from_str("text/plain")),
                text: payload,
            },
        ),
    }
    ResourceReadResult { contents }
}

/// The error when reading a resource failed in the browser.
pub fn resource_read_failure(kind: &ResourceKind, error: &String) -> (r: RpcError)
    ensures
        r.code == ERR_INTERNAL,
        r.message@ == (match *kind {
            ResourceKind::Screenshot => "Failed to take screenshot: "@,
            ResourceKind::Snapshot => "Failed to get snapshot: "@,
        }) + error@,
{
    let mut m = match kind {
        ResourceKind::Screenshot => String::from_str("Failed to take screenshot: "),
        ResourceKind::Snapshot => String::from_str("Failed to get snapshot: "),
    };
    m.append(error.as_str());
    RpcError { code: ERR_INTERNAL, message: m }
}

/// A prompt argument.
pub struct PromptArgument {
    pub name: String,
    pub description: Option<String>,
    pub required: bool,
}

/// A prompt.
pub struct Prompt {
    pub name: String,
    pub description: Option<String>,
    pub arguments: Option<Vec<PromptArgument>>,
}

/// The answer to `prompts/list`.
pub struct PromptsListResult {
    pub prompts: Vec<Prompt>,
    pub next_cursor: Option<String>,
}

/// `prompts/get` parameters.
pub struct PromptGetParams {
    pub name: String,
    pub arguments: Option<Vec<(String, String)>>,
}

/// A prompt message.
pub struct PromptMessage {
    /// `user` or `assistant`.
    pub role: String,
    pub content: Content,
}

/// The answer to `prompts/get`.
pub struct PromptGetResult {
    pub description: Option<String>,
    pub messages: Vec<PromptMessage>,
}

/// A prompt with one argument.
pub open spec fn prompt_is(
    p: Prompt,
    name: Seq<char>,
    description: Seq<char>,
    arg: Seq<char>,
    arg_description: Seq<char>,
    required: bool,
) -> bool {
    &&& p.name@ == name
    &&& p.description matches Some(d) && d@ == description
    &&& p.arguments matches Some(a) && a@.len() == 1 && a@[0].name@ == arg && a@[0].required == required
        && (a@[0].description matches Some(ad) && ad@ == arg_description)
}

fn prompt(name: &str, description: &str, arg: &str, arg_description: &str, required: bool) -> (r: Prompt)
    ensures
        prompt_is(r, name@, description@, arg@, arg_description@, required),
{
    let mut args: Vec<PromptArgument> = Vec::new();
    args.push(
        PromptArgument {
            name: String::from_str(arg),
            description: Some(String::from_str(arg_description)),
            required,
        },
    );
    Prompt {
        name: String::from_str(name),
        description: Some(String::from_str(description)),
        arguments: Some(args),
    }
}

/// The prompts the server offers: `analyze_page` (optional `focus_area`),
/// `fill_form` (required `form_data`) and `extract_data` (optional `selectors`).
pub fn prompts_list() -> (r: PromptsListResult)
    ensures
        r.prompts@.len() == 3,
        prompt_is(
            r.prompts@[0],
            "analyze_page"@,
            "Analyze the current page structure and content"@,
            "focus_area"@,
            "Area to focus on (e.g., 'forms', 'links', 'content')"@,
            false,
        ),
        prompt_is(
            r.prompts@[1],
            "fill_form"@,
            "Guide for filling out a form on the page"@,
            "form_data"@,
            "JSON object with field names and values"@,
            true,
        ),
        prompt_is(
            r.prompts@[2],
            "extract_data"@,
            "Extract structured data from the page"@,
            "selectors"@,
            "CSS selectors for data to extract"@,
            false,
        ),
        r.next_cursor is None,
{
    let mut prompts: Vec<Prompt> = Vec::new();
    prompts.push(
        prompt(
            "analyze_page",
            "Analyze the current page structure and content",
            "focus_area",
            "Area to focus on (e.g., 'forms', 'links', 'content')",
            false,
        ),
    );
    prompts.push(
        prompt(
            "fill_form",
            "Guide for filling out a form on the page",
            "form_data",
            "JSON object with field names and values",
            true,
        ),
    );
    prompts.push(
        prompt(
            "extract_data",
            "Extract structured data from the page",
            "selectors",
            "CSS selectors for data to extract",
            false,
        ),
    );
    PromptsListResult { prompts, next_cursor: None }
}

/// The value of the first argument called `name`.
pub open spec fn arg_lookup(args: Seq<(String, String)>, name: Seq<char>) -> Option<Seq<char>>
    decreases args.len(),
{
    if args.len() == 0 {
        None
    } else if args[0].0@ == name {
        Some(args[0].1@)
    } else {
        arg_lookup(args.drop_first(), name)
    }
}

fn find_arg(a: &Vec<(String, String)>, name: &str) -> (r: Option<String>)
    ensures
        match r {
            Some(v) => arg_lookup(a@, name@) == Some(v@),
            None => arg_lookup(a@, name@) is None,
        },
{
    let mut i: usize = 0;
    proof {
        assert(a@.skip(0) =~= a@);
    }
    while i < a.len()
        invariant
            i <= a.len(),
            arg_lookup(a@, name@) == arg_lookup(a@.skip(i as int), name@),
        decreases a.len() - i,
    {
        proof {
            assert(a@.skip(i as int).drop_first() =~= a@.skip(i + 1));
        }
        if eq_str(&a[i].0, name) {
            let v = a[i].1.clone();
            proof {
                assert(a@.skip(i as int)[0] == a@[i as int]);
            }
            return Some(v);
        }
        i = i + 1;
    }
    proof {
        assert(a@.skip(i as int) =~= Seq::<(String, String)>::empty());
    }
    None
}

/// The value of argument `name`, or `default`.
pub open spec fn arg_or(args: Option<Vec<(String, String)>>, name: Seq<char>, default: Seq<char>) -> Seq<char> {
    match args {
        Some(a) => match arg_lookup(a@, name) {
            Some(v) => v,
            None => default,
        },
        None => default,
    }
}

/// The text of the single message of a prompt, or `None` for an unknown prompt.
pub open spec fn prompt_text(name: Seq<char>, args: Option<Vec<(String, String)>>) -> Option<Seq<char>> {
    if name == "analyze_page"@ {
        Some("Please analyze the current page, focusing on: "@ + arg_or(args, "focus_area"@, "all"@)
            + ". Use browser_snapshot to get the page structure."@)
    } else if name == "fill_form"@ {
        Some("Fill out the form on the current page with the following data: "@ + arg_or(
            args,
            "form_data"@,
            "{}"@,
        )
            + ". First use browser_snapshot to identify form fields, then use browser_type for each field."@)
    } else if name == "extract_data"@ {
        Some("Extract data from the page using selectors: "@ + arg_or(
            args,
            "selectors"@,
            "all text content"@,
        )
            + ". Use browser_snapshot to understand the page structure, then browser_evaluate to extract the data."@)
    } else {
        None
    }
}

/// The description that `prompts/get` gives of a known prompt: the guide
/// text for `fill_form`, and `Prompt: ` followed by the name for the others.
pub open spec fn prompt_get_description(name: Seq<char>) -> Seq<char> {
    if name == "fill_form"@ {
        "Guide for filling out a web form"@
    } else {
        "Prompt: "@ + name
    }
}

fn arg_text(args: &Option<Vec<(String, String)>>, name: &str, default: &str) -> (r: String)
    ensures
        r@ == arg_or(*args, name@, default@),
{
    match args {
        Some(a) => match find_arg(a, name) {
            Some(v) => v,
            None => String::from_str(default),
        },
        None => String::from_str(default),
    }
}

/// Answers `prompts/get`: one user message built from the prompt's
/// arguments, or an invalid-params error for an unknown prompt.
pub fn prompt_get(params: &PromptGetParams) -> (r: Result<PromptGetResult, RpcError>)
    ensures
        match prompt_text(params.name@, params.arguments) {
            Some(t) => {
                &&& r matches Ok(g)
                &&& g.messages@.len() == 1
                &&& g.messages@[0].role@ == "user"@
                &&& g.messages@[0].content matches Content::Text { text }
                &&& text@ == t
                &&& g.description matches Some(d)
                &&& d@ == prompt_get_description(params.name@)
            },
            None => r matches Err(e) && e.code == ERR_INVALID_PARAMS && e.message@
                == "Unknown prompt: "@ + params.name@,
        },
{
    let text = if eq_str(&params.name, "analyze_page") {
        let mut t = String::from_str("Please analyze the current page, focusing on: ");
        let a = arg_text(&params.arguments, "focus_area", "all");
        t.append(a.as_str());
        t.append(". Use browser_snapshot to get the page structure.");
        t
    } else if eq_str(&params.name, "fill_form") {
        let mut t = String::from_str("Fill out the form on the current page with the following data: ");
        let a = arg_text(&params.arguments, "form_data", "{}");
        t.append(a.as_str());
        t.append(". First use browser_snapshot to identify form fields, then use browser_type for each field.");
        t
    } else if eq_str(&params.name, "extract_data") {
        let mut t = String::from_str("Extract data from the page using selectors: ");
        let a = arg_text(&params.arguments, "selectors", "all text content");
        t.append(a.as_str());
        t.append(". Use browser_snapshot to understand the page structure, then browser_evaluate to extract the data.");
        t
    } else {
        let mut m = String::from_str("Unknown prompt: ");
        m.append(params.name.as_str());
        return Err(RpcError { code: ERR_INVALID_PARAMS, message: m });
    };
    let d = if eq_str(&params.name, "fill_form") {
        String::from_str("Guide for filling out a web form")
    } else {
        let mut d = String::from_str("Prompt: ");
        d.append(params.name.as_str());
        d
    };
    let mut messages: Vec<PromptMessage> = Vec::new();
    messages.push(PromptMessage { role: String::from_str("user"), content: Content::Text { text } });
    Ok(PromptGetResult { description: Some(d), messages })
}

/// The answer to `tools/call`.
pub struct ToolCallResult {
    pub content: Vec<Content>,
    pub is_error: bool,
}

/// The result of a tool call: its output as text, or `Error: <message>`
/// flagged as an error.
pub fn tool_call_result(outcome: Result<String, String>) -> (r: ToolCallResult)
    ensures
        r.content@.len() == 1,
        match outcome {
            Ok(t) => !r.is_error && r.content@[0] == (Content::Text { text: t }),
            Err(e) => {
                &&& r.is_error
                &&& r.content@[0] matches Content::Text { text }
                &&& text@ == "Error: "@ + e@
            },
        },
{
    let mut content: Vec<Content> = Vec::new();
    match outcome {
        Ok(t) => {
            content.push(Content::Text { text: t });
            ToolCallResult { content, is_error: false }
        },
        Err(e) => {
            let mut m = String::from_str("Error: ");
            m.append(e.as_str());
            content.push(Content::Text { text: m });
            ToolCallResult { content, is_error: true }
        },
    }
}

/// Where a request goes.
pub enum Route {
    Initialize,
    Ping,
    ToolsList,
    ToolsCall,
    ResourcesList,
    ResourcesRead,
    PromptsList,
    PromptsGet,
    SetLogLevel,
    TasksGet,
    TasksList,
    TasksResult,
    TasksCancel,
    /// The request is answered with this error.
    Refused(RpcError),
}

/// The route of a known method.
pub open spec fn method_route(m: Seq<char>) -> Option<Route> {
    if m == "initialize"@ {
        Some(Route::Initialize)
    } else if m == "ping"@ {
        Some(Route::Ping)
    } else if m == "tools/list"@ {
        Some(Route::ToolsList)
    } else if m == "tools/call"@ {
        Some(Route::ToolsCall)
    } else if m == "resources/list"@ {
        Some(Route::ResourcesList)
    } else if m == "resources/read"@ {
        Some(Route::ResourcesRead)
    } else if m == "prompts/list"@ {
        Some(Route::PromptsList)
    } else if m == "prompts/get"@ {
        Some(Route::PromptsGet)
    } else if m == "logging/setLevel"@ {
        Some(Route::SetLogLevel)
    } else if m == "tasks/get"@ {
        Some(Route::TasksGet)
    } else if m == "tasks/list"@ {
        Some(Route::TasksList)
    } else if m == "tasks/result"@ {
        Some(Route::TasksResult)
    } else if m == "tasks/cancel"@ {
        Some(Route::TasksCancel)
    } else {
        None
    }
}

/// The server's session state.
pub struct ServerSession {
    /// Whether the client has sent `notifications/initialized`.
    pub initialized: bool,
}

impl ServerSession {
    /// A session before initialization.
    pub fn new() -> (s: Self)
        ensures
            !s.initialized,
    {
        ServerSession { initialized: false }
    }

    /// Routes a request. Before the client is initialized only
    /// `initialize` and `ping` are served; unknown methods are "method not found".
    pub fn route(&self, method: &str) -> (r: Route)
        ensures
            !self.initialized && method@ != "initialize"@ && method@ != "ping"@ ==> (r matches Route::Refused(e)
                && e.code == ERR_INVALID_REQUEST && e.message@
                == "Server has not received notifications/initialized"@),
            (self.initialized || method@ == "initialize"@ || method@ == "ping"@) ==> match method_route(method@) {
                Some(route) => r == route,
                None => r matches Route::Refused(e) && e.code == ERR_METHOD_NOT_FOUND && e.message@
                    == "Method not found: "@ + method@,
            },
    {
        let m = String::from_str(method);
        let open = eq_str(&m, "initialize") || eq_str(&m, "ping");
        if !open && !self.initialized {
            return Route::Refused(
                RpcError {
                    code: ERR_INVALID_REQUEST,
                    message: String::from_str("Server has not received notifications/initialized"),
                },
            );
        }
        if eq_str(&m, "initialize") {
            Route::Initialize
        } else if eq_str(&m, "ping") {
            Route::Ping
        } else if eq_str(&m, "tools/list") {
            Route::ToolsList
        } else if eq_str(&m, "tools/call") {
            Route::ToolsCall
        } else if eq_str(&m, "resources/list") {
            Route::ResourcesList
        } else if eq_str(&m, "resources/read") {
            Route::ResourcesRead
        } else if eq_str(&m, "prompts/list") {
            Route::PromptsList
        } else if eq_str(&m, "prompts/get") {
            Route::PromptsGet
        } else if eq_str(&m, "logging/setLevel") {
            Route::SetLogLevel
        } else if eq_str(&m, "tasks/get") {
            Route::TasksGet
        } else if eq_str(&m, "tasks/list") {
            Route::TasksList
        } else if eq_str(&m, "tasks/result") {
            Route::TasksResult
        } else if eq_str(&m, "tasks/cancel") {
            Route::TasksCancel
        } else {
            let mut msg = String::from_str("Method not found: ");
            msg.append(method);
            Route::Refused(RpcError { code: ERR_METHOD_NOT_FOUND, message: msg })
        }
    }

    /// Takes a notification into account: `notifications/initialized`
    /// initializes the session; other notifications change nothing.
    pub fn notify(&mut self, method: &str)
        ensures
            final(self).initialized == (old(self).initialized || method@ == "notifications/initialized"@),
    {
        let m = String::from_str(method);
        if eq_str(&m, "notifications/initialized") {
            self.initialized = true;
        }
    }
}

} // verus!

verus! {

/// Each known method has a handler of its own: two different methods never
/// share a route, and none is refused.
pub proof fn law_methods_route_apart(m1: Seq<char>, m2: Seq<char>)
    requires
        method_route(m1) is Some,
        method_route(m2) is Some,
        m1 != m2,
    ensures
        method_route(m1) != method_route(m2),
        !(method_route(m1)->0 is Refused),
{
}

/// Every method the protocol documents is served.
pub proof fn law_documented_methods_are_served()
    ensures
        method_route("initialize"@) is Some,
        method_route("ping"@) is Some,
        method_route("tools/list"@) is Some,
        method_route("tools/call"@) is Some,
        method_route("resources/list"@) is Some,
        method_route("resources/read"@) is Some,
        method_route("prompts/list"@) is Some,
        method_route("prompts/get"@) is Some,
        method_route("logging/setLevel"@) is Some,
        method_route("tasks/get"@) is Some,
        method_route("tasks/list"@) is Some,
        method_route("tasks/result"@) is Some,
        method_route("tasks/cancel"@) is Some,
{
}

} // verus!
