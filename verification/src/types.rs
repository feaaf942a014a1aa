use vstd::prelude::*;

use crate::error::CopilotError;
use crate::json::{field, is_object_or_null, is_text, members, JsonValue};
use crate::strmap::StrMap;
use crate::text::chars_of;
use std::path::PathBuf;

pub use crate::session_lifecycle_event_types;

verus! {

/// Whether `value` is `false`.
pub fn is_false(value: &bool) -> (b: bool)
    ensures
        b == !*value,
{
    !*value
}

// =============================================================================
// Protocol Version
// =============================================================================

/// SDK protocol version - must match copilot-agent-runtime server.
pub const SDK_PROTOCOL_VERSION: u32 = 3;

// =============================================================================
// Enums
// =============================================================================

/// Connection state of the client.
#[derive(Debug, Clone, Copy, PartialEq, Eq, Structural)]
pub enum ConnectionState {
    Disconnected,
    Connecting,
    Connected,
    Error,
}

impl Default for ConnectionState {
    fn default() -> (s: Self)
        ensures
            s == ConnectionState::Disconnected,
    {
        ConnectionState::Disconnected
    }
}

/// System message mode for session configuration.
#[derive(Debug, Clone, Copy, PartialEq, Eq, Structural)]
pub enum SystemMessageMode {
    Append,
    Replace,
}

/// Attachment type for user messages.
#[derive(Debug, Clone, Copy, PartialEq, Eq, Structural)]
pub enum AttachmentType {
    File,
    Directory,
    Selection,
}

/// Log level for the CLI.
#[derive(Debug, Clone, Copy, PartialEq, Eq, Structural)]
pub enum LogLevel {
    Off,
    Debug,
    Info,
    Warn,
    Error,
    All,
}

impl Default for LogLevel {
    fn default() -> (l: Self)
        ensures
            l == LogLevel::Info,
    {
        LogLevel::Info
    }
}

/// The name by which the CLI knows the log level `l`.
pub open spec fn log_level_name(l: LogLevel) -> Seq<char> {
    match l {
        LogLevel::Off => seq!['n', 'o', 'n', 'e'],
        LogLevel::Debug => seq!['d', 'e', 'b', 'u', 'g'],
        LogLevel::Info => seq!['i', 'n', 'f', 'o'],
        LogLevel::Warn => seq!['w', 'a', 'r', 'n'],
        LogLevel::Error => seq!['e', 'r', 'r', 'o', 'r'],
        LogLevel::All => seq!['a', 'l', 'l'],
    }
}

impl LogLevel {
    /// The name by which the CLI knows this log level.
    pub fn to_string(&self) -> (s: String)
        ensures
            s@ == log_level_name(*self),
    {
        proof {
            reveal_strlit("none");
            reveal_strlit("debug");
            reveal_strlit("info");
            reveal_strlit("warn");
            reveal_strlit("error");
            reveal_strlit("all");
        }
        let s = match self {
            LogLevel::Off => "none".to_owned(),
            LogLevel::Debug => "debug".to_owned(),
            LogLevel::Info => "info".to_owned(),
            LogLevel::Warn => "warn".to_owned(),
            LogLevel::Error => "error".to_owned(),
            LogLevel::All => "all".to_owned(),
        };
        assert(s@ =~= log_level_name(*self));
        s
    }
}


/// Each log level has its own name, the CLI's word for it: "none", "debug",
/// "info", "warn", "error" and "all"; so no two levels share a name, and the
/// default level, Info, is passed as "info".
pub proof fn law_log_level_names(a: LogLevel, b: LogLevel)
    ensures
        a != b ==> log_level_name(a) != log_level_name(b),
        log_level_name(LogLevel::Off) == seq!['n', 'o', 'n', 'e'],
        log_level_name(LogLevel::Debug) == seq!['d', 'e', 'b', 'u', 'g'],
        log_level_name(LogLevel::Info) == seq!['i', 'n', 'f', 'o'],
        log_level_name(LogLevel::Warn) == seq!['w', 'a', 'r', 'n'],
        log_level_name(LogLevel::Error) == seq!['e', 'r', 'r', 'o', 'r'],
        log_level_name(LogLevel::All) == seq!['a', 'l', 'l'],
{
    if a != b {
        let x = log_level_name(a);
        let y = log_level_name(b);
        if x.len() == y.len() {
            assert(x[0] != y[0] || x[1] != y[1]);
        }
    }
}

// =============================================================================
// Tool Types
// =============================================================================

/// Binary result from a tool execution.
#[derive(Debug, Clone)]
pub struct ToolBinaryResult {
    pub data: String,
    pub mime_type: String,
    pub result_type: String,
    pub description: Option<String>,
}

/// Result object returned from tool execution.
#[derive(Debug, Clone)]
pub struct ToolResultObject {
    pub text_result_for_llm: String,
    pub binary_results_for_llm: Option<Vec<ToolBinaryResult>>,
    pub result_type: String,
    pub error: Option<String>,
    pub session_log: Option<String>,
    pub tool_telemetry: Option<StrMap<JsonValue>>,
}

/// The characters of the result type of a tool that succeeded.
pub open spec fn success_text() -> Seq<char> {
    seq!['s', 'u', 'c', 'c', 'e', 's', 's']
}

/// The result type that a tool result has when it names none.
pub fn default_result_type() -> (s: String)
    ensures
        s@ == success_text(),
{
    let s = "success".to_owned();
    proof {
        reveal_strlit("success");
        assert(s@ =~= success_text());
    }
    s
}

impl ToolResultObject {
    /// Create a success result with text.
    pub fn text(result: &str) -> (r: Self)
        ensures
            r.text_result_for_llm@ == result@,
            r.result_type@ == success_text(),
            r.binary_results_for_llm is None,
            r.error is None,
            r.session_log is None,
            r.tool_telemetry is None,
    {
        ToolResultObject {
            text_result_for_llm: result.to_owned(),
            binary_results_for_llm: None,
            result_type: default_result_type(),
            error: None,
            session_log: None,
            tool_telemetry: None,
        }
    }

    /// Create an error result.
    pub fn error(message: &str) -> (r: Self)
        ensures
            r.text_result_for_llm@ == Seq::<char>::empty(),
            r.result_type@ == seq!['e', 'r', 'r', 'o', 'r'],
            r.error matches Some(e) && e@ == message@,
            r.binary_results_for_llm is None,
            r.session_log is None,
            r.tool_telemetry is None,
    {
        let result_type = "error".to_owned();
        proof {
            reveal_strlit("error");
            assert(result_type@ =~= seq!['e', 'r', 'r', 'o', 'r']);
        }
        ToolResultObject {
            text_result_for_llm: String::new(),
            binary_results_for_llm: None,
            result_type,
            error: Some(message.to_owned()),
            session_log: None,
            tool_telemetry: None,
        }
    }
}

/// Information about a tool invocation from the server.
#[derive(Debug, Clone)]
pub struct ToolInvocation {
    pub session_id: String,
    pub tool_call_id: String,
    pub tool_name: String,
    pub arguments: Option<JsonValue>,
}

/// The message of the error for an invocation that came without arguments.
pub open spec fn no_arguments_text() -> Seq<char> {
    seq!['N', 'o', ' ', 'a', 'r', 'g', 'u', 'm', 'e', 'n', 't', 's', ' ', 'p', 'r', 'o', 'v', 'i', 'd', 'e', 'd']
}

/// The message of the error for an invocation that lacks the argument `name`.
pub open spec fn missing_argument_text(name: Seq<char>) -> Seq<char> {
    seq!['M', 'i', 's', 's', 'i', 'n', 'g', ' ', 'a', 'r', 'g', 'u', 'm', 'e', 'n', 't', ':', ' '] + name
}

/// The message of the error for an argument `name` whose value is not of the
/// type asked for, `detail` saying why.
pub open spec fn invalid_argument_text(name: Seq<char>, detail: Seq<char>) -> Seq<char> {
    seq!['I', 'n', 'v', 'a', 'l', 'i', 'd', ' ', 'a', 'r', 'g', 'u', 'm', 'e', 'n', 't', ' ', '\''] + name
        + seq!['\'', ':', ' '] + detail
}

/// The tool error for an argument `name` whose value is not of the type
/// asked for, `detail` saying why.
pub fn invalid_argument(name: &str, detail: &str) -> (e: CopilotError)
    ensures
        e matches CopilotError::ToolError(m) && m@ == invalid_argument_text(name@, detail@),
{
    let prefix = "Invalid argument '".to_owned();
    let middle = "': ";
    proof {
        reveal_strlit("Invalid argument '");
        reveal_strlit("': ");
        assert(prefix@ =~= seq!['I', 'n', 'v', 'a', 'l', 'i', 'd', ' ', 'a', 'r', 'g', 'u', 'm', 'e', 'n', 't', ' ', '\'']);
        assert(middle@ =~= seq!['\'', ':', ' ']);
    }
    let m = prefix.concat(name).concat(middle).concat(detail);
    proof {
        assert(m@ =~= invalid_argument_text(name@, detail@));
    }
    CopilotError::ToolError(m)
}

impl ToolInvocation {
    /// The argument `name`, as the server sent it; an invocation without
    /// arguments, or without that one, is a tool error.
    pub fn arg_value(&self, name: &str) -> (r: Result<&JsonValue, CopilotError>)
        ensures
            match self.arguments {
                None => r matches Err(CopilotError::ToolError(m)) && m@ == no_arguments_text(),
                Some(args) => match field(args, name@) {
                    Some(v) => r matches Ok(x) && *x == v,
                    None => r matches Err(CopilotError::ToolError(m)) && m@ == missing_argument_text(name@),
                },
            },
    {
        match &self.arguments {
            None => {
                let m = "No arguments provided".to_owned();
                proof {
                    reveal_strlit("No arguments provided");
                    assert(m@ =~= no_arguments_text());
                }
                Err(CopilotError::ToolError(m))
            },
            Some(args) => match args.get(name) {
                Some(v) => Ok(v),
                None => {
                    let prefix = "Missing argument: ".to_owned();
                    proof {
                        reveal_strlit("Missing argument: ");
                        assert(prefix@ =~= seq!['M', 'i', 's', 's', 'i', 'n', 'g', ' ', 'a', 'r', 'g', 'u', 'm', 'e', 'n', 't', ':', ' ']);
                    }
                    Err(CopilotError::ToolError(prefix.concat(name)))
                },
            },
        }
    }
}

// =============================================================================
// Permission Types
// =============================================================================

/// Permission request from the server.
#[derive(Debug, Clone)]
pub struct PermissionRequest {
    pub kind: String,
    pub tool_call_id: Option<String>,
    pub extension_data: StrMap<JsonValue>,
}

/// Result of a permission request (response to CLI).
#[derive(Debug, Clone)]
pub struct PermissionRequestResult {
    pub kind: String,
    pub rules: Option<Vec<JsonValue>>,
}

/// The kind of an approved permission.
pub open spec fn approved_text() -> Seq<char> {
    seq!['a', 'p', 'p', 'r', 'o', 'v', 'e', 'd']
}

/// The start of the kind of every denied permission.
pub open spec fn denied_text() -> Seq<char> {
    seq!['d', 'e', 'n', 'i', 'e', 'd']
}

/// The kind of a permission denied for want of a rule and of a user to ask.
pub open spec fn denied_no_rule_text() -> Seq<char> {
    denied_text() + seq!['-', 'n', 'o', '-', 'a', 'p', 'p', 'r', 'o', 'v', 'a', 'l', '-', 'r', 'u', 'l', 'e', '-',
        'a', 'n', 'd', '-', 'c', 'o', 'u', 'l', 'd', '-', 'n', 'o', 't', '-', 'r', 'e', 'q', 'u', 'e', 's', 't', '-',
        'f', 'r', 'o', 'm', '-', 'u', 's', 'e', 'r']
}

impl PermissionRequestResult {
    /// Create an approved permission result.
    pub fn approved() -> (r: Self)
        ensures
            r.kind@ == approved_text(),
            r.rules is None,
    {
        let kind = "approved".to_owned();
        proof {
            reveal_strlit("approved");
            assert(kind@ =~= approved_text());
        }
        PermissionRequestResult { kind, rules: None }
    }

    /// Create a denied permission result.
    pub fn denied() -> (r: Self)
        ensures
            r.kind@ == denied_no_rule_text(),
            r.rules is None,
    {
        let kind = "denied-no-approval-rule-and-could-not-request-from-user".to_owned();
        proof {
            reveal_strlit("denied-no-approval-rule-and-could-not-request-from-user");
            assert(kind@ =~= denied_no_rule_text());
        }
        PermissionRequestResult { kind, rules: None }
    }

    /// Returns true if the permission was approved.
    pub fn is_approved(&self) -> (b: bool)
        ensures
            b == (self.kind@ == approved_text()),
    {
        let approved = "approved".to_owned();
        proof {
            reveal_strlit("approved");
            assert(approved@ =~= approved_text());
        }
        self.kind == approved
    }

    /// Returns true if the permission was denied: its kind starts with "denied".
    pub fn is_denied(&self) -> (b: bool)
        ensures
            b == (self.kind@.len() >= denied_text().len()
                && self.kind@.subrange(0, denied_text().len() as int) == denied_text()),
    {
        let kind = chars_of(self.kind.as_str());
        let denied = chars_of("denied");
        proof {
            reveal_strlit("denied");
            assert(denied@ =~= denied_text());
        }
        if kind.len() < denied.len() {
            false
        } else {
            crate::text::range_is(&kind, 0, denied.len(), &denied)
        }
    }
}


/// An approved permission is not denied, and a denied one is not approved.
pub proof fn law_permission_results_exclusive()
    ensures
        !(approved_text().len() >= denied_text().len()
            && approved_text().subrange(0, denied_text().len() as int) == denied_text()),
        denied_no_rule_text().len() >= denied_text().len()
            && denied_no_rule_text().subrange(0, denied_text().len() as int) == denied_text(),
        denied_no_rule_text() != approved_text(),
{
    assert(approved_text().subrange(0, denied_text().len() as int)[0] != denied_text()[0]);
    assert(denied_no_rule_text().subrange(0, denied_text().len() as int) =~= denied_text());
    assert(denied_no_rule_text()[0] != approved_text()[0]);
}

// =============================================================================
// Configuration Types
// =============================================================================

/// System message configuration.
#[derive(Debug, Clone)]
pub struct SystemMessageConfig {
    pub mode: Option<SystemMessageMode>,
    pub content: Option<String>,
}

impl Default for SystemMessageConfig {
    fn default() -> (c: Self)
        ensures
            c.mode is None,
            c.content is None,
    {
        SystemMessageConfig { mode: None, content: None }
    }
}

/// Azure-specific provider options.
#[derive(Debug, Clone)]
pub struct AzureOptions {
    pub api_version: Option<String>,
}

impl Default for AzureOptions {
    fn default() -> (o: Self)
        ensures
            o.api_version is None,
    {
        AzureOptions { api_version: None }
    }
}

/// Provider configuration for BYOK (Bring Your Own Key).
#[derive(Debug, Clone)]
pub struct ProviderConfig {
    pub base_url: String,
    pub provider_type: Option<String>,
    pub wire_api: Option<String>,
    pub api_key: Option<String>,
    pub bearer_token: Option<String>,
    pub azure: Option<AzureOptions>,
}

/// The base URL that a provider read from the environment gets when none is set.
pub open spec fn default_base_url_text() -> Seq<char> {
    seq!['h', 't', 't', 'p', 's', ':', '/', '/', 'a', 'p', 'i', '.', 'o', 'p', 'e', 'n', 'a', 'i', '.', 'c', 'o', 'm',
        '/', 'v', '1']
}

/// The provider type that a provider read from the environment gets when none is set.
pub open spec fn default_provider_type_text() -> Seq<char> {
    seq!['o', 'p', 'e', 'n', 'a', 'i']
}

impl ProviderConfig {
    /// Environment variable for API key
    pub const ENV_API_KEY: &'static str = "COPILOT_SDK_BYOK_API_KEY";
    /// Environment variable for base URL
    pub const ENV_BASE_URL: &'static str = "COPILOT_SDK_BYOK_BASE_URL";
    /// Environment variable for provider type
    pub const ENV_PROVIDER_TYPE: &'static str = "COPILOT_SDK_BYOK_PROVIDER_TYPE";
    /// Environment variable for model
    pub const ENV_MODEL: &'static str = "COPILOT_SDK_BYOK_MODEL";

    /// Whether BYOK is configured, given the value of `COPILOT_SDK_BYOK_API_KEY`
    /// (`None` when it is not set): it is set and non-empty.
    pub fn is_env_configured(api_key: Option<&str>) -> (b: bool)
        ensures
            b == (api_key matches Some(k) && k@.len() > 0),
    {
        match api_key {
            Some(k) => !k.is_empty(),
            None => false,
        }
    }

    /// The provider configured by the `COPILOT_SDK_BYOK_*` environment
    /// variables, given their values (`None` for a variable that is not set):
    /// there is one when the API key is set and non-empty; its base URL
    /// defaults to OpenAI's and its provider type to "openai".
    pub fn from_env(api_key: Option<String>, base_url: Option<String>, provider_type: Option<String>) -> (r: Option<Self>)
        ensures
            r is Some <==> (api_key matches Some(k) && k@.len() > 0),
            r matches Some(c) ==> {
                &&& c.api_key == api_key
                &&& c.base_url@ == match base_url {
                    Some(u) => u@,
                    None => default_base_url_text(),
                }
                &&& c.provider_type matches Some(t) && t@ == match provider_type {
                    Some(p) => p@,
                    None => default_provider_type_text(),
                }
                &&& c.wire_api is None
                &&& c.bearer_token is None
                &&& c.azure is None
            },
    {
        let configured = match &api_key {
            Some(k) => Self::is_env_configured(Some(k.as_str())),
            None => false,
        };
        if !configured {
            return None;
        }
        let base_url = match base_url {
            Some(u) => u,
            None => {
                let u = "https://api.openai.com/v1".to_owned();
                proof {
                    reveal_strlit("https://api.openai.com/v1");
                    assert(u@ =~= default_base_url_text());
                }
                u
            },
        };
        let provider_type = match provider_type {
            Some(p) => p,
            None => {
                let p = "openai".to_owned();
                proof {
                    reveal_strlit("openai");
                    assert(p@ =~= default_provider_type_text());
                }
                p
            },
        };
        Some(ProviderConfig {
            base_url,
            provider_type: Some(provider_type),
            api_key,
            wire_api: None,
            bearer_token: None,
            azure: None,
        })
    }

    /// The model named by `COPILOT_SDK_BYOK_MODEL`, given its value: the
    /// value, unless it is empty.
    pub fn model_from_env(model: Option<String>) -> (r: Option<String>)
        ensures
            r == match model {
                Some(m) => if m@.len() > 0 { Some(m) } else { None },
                None => None,
            },
    {
        match model {
            Some(m) => if m.as_str().is_empty() {
                None
            } else {
                Some(m)
            },
            None => None,
        }
    }
}

// =============================================================================
// MCP Server Configuration
// =============================================================================

/// Configuration for a local/stdio MCP server.
#[derive(Debug, Clone)]
pub struct McpLocalServerConfig {
    pub tools: Vec<String>,
    pub command: String,
    pub args: Vec<String>,
    pub server_type: Option<String>,
    pub timeout: Option<i32>,
    pub env: Option<StrMap<String>>,
    pub cwd: Option<String>,
}

/// Configuration for a remote MCP server (HTTP or SSE).
#[derive(Debug, Clone)]
pub struct McpRemoteServerConfig {
    pub tools: Vec<String>,
    pub url: String,
    pub server_type: String,
    pub timeout: Option<i32>,
    pub headers: Option<StrMap<String>>,
}

/// The server type of a remote MCP server that names none.
pub fn default_mcp_type() -> (s: String)
    ensures
        s@ == seq!['h', 't', 't', 'p'],
{
    let s = "http".to_owned();
    proof {
        reveal_strlit("http");
        assert(s@ =~= seq!['h', 't', 't', 'p']);
    }
    s
}

/// MCP server configuration (either local or remote).
#[derive(Debug, Clone)]
pub enum McpServerConfig {
    Local(McpLocalServerConfig),
    Remote(McpRemoteServerConfig),
}

// =============================================================================
// Custom Agent Configuration
// =============================================================================

/// Configuration for a custom agent.
#[derive(Debug, Clone)]
pub struct CustomAgentConfig {
    pub name: String,
    pub prompt: String,
    pub display_name: Option<String>,
    pub description: Option<String>,
    pub tools: Option<Vec<String>>,
    pub mcp_servers: Option<StrMap<JsonValue>>,
    pub infer: Option<bool>,
}

impl Default for CustomAgentConfig {
    fn default() -> (c: Self)
        ensures
            c.name@ == Seq::<char>::empty(),
            c.prompt@ == Seq::<char>::empty(),
            c.display_name is None,
            c.description is None,
            c.tools is None,
            c.mcp_servers is None,
            c.infer is None,
    {
        CustomAgentConfig {
            name: String::new(),
            prompt: String::new(),
            display_name: None,
            description: None,
            tools: None,
            mcp_servers: None,
            infer: None,
        }
    }
}

// =============================================================================
// Attachment Types
// =============================================================================

/// Attachment item for user messages.
#[derive(Debug, Clone)]
pub struct UserMessageAttachment {
    pub attachment_type: AttachmentType,
    pub path: String,
    pub display_name: String,
}


// =============================================================================
// Tool Definition (SDK-side)
// =============================================================================

/// Tool definition for registration with a session.
#[derive(Debug, Clone)]
pub struct Tool {
    pub name: String,
    pub description: String,
    pub parameters_schema: JsonValue,
}

/// The key of a schema's type.
pub open spec fn type_key() -> Seq<char> {
    seq!['t', 'y', 'p', 'e']
}

/// The key of a schema's properties.
pub open spec fn properties_key() -> Seq<char> {
    seq!['p', 'r', 'o', 'p', 'e', 'r', 't', 'i', 'e', 's']
}

/// The key of a schema's list of required properties.
pub open spec fn required_key() -> Seq<char> {
    seq!['r', 'e', 'q', 'u', 'i', 'r', 'e', 'd']
}

/// The key of a property's description.
pub open spec fn description_key() -> Seq<char> {
    seq!['d', 'e', 's', 'c', 'r', 'i', 'p', 't', 'i', 'o', 'n']
}

/// The type of a schema that has parameters.
pub open spec fn object_text() -> Seq<char> {
    seq!['o', 'b', 'j', 'e', 'c', 't']
}

/// `v` describes a property of type `ty` with the description `desc`: an
/// object with exactly these two members.
pub open spec fn is_property(v: JsonValue, ty: Seq<char>, desc: Seq<char>) -> bool {
    &&& v is Object
    &&& members(v).dom() == set![type_key(), description_key()]
    &&& is_text(members(v)[type_key()], ty)
    &&& is_text(members(v)[description_key()], desc)
}

/// A schema to which a parameter can be added: an object or `null`, whose
/// properties, if it has any, are an object or `null`.
pub open spec fn accepts_parameter(schema: JsonValue) -> bool {
    &&& is_object_or_null(schema)
    &&& field(schema, properties_key()) matches Some(p) ==> is_object_or_null(p)
}

/// The properties of the schema `schema`: the members of its member
/// "properties", or none when it has no such member.
pub open spec fn properties_of(schema: JsonValue) -> Map<Seq<char>, JsonValue> {
    match field(schema, properties_key()) {
        Some(p) => members(p),
        None => Map::empty(),
    }
}

/// `after` is the schema `before` once the parameter `name` (of type `ty`,
/// described by `desc`, and required or not) is added to it: the schema gets
/// the type "object" if it had no type, `name` among its properties (which it
/// gets if it had none), and, when required, `name` at the end of its list of
/// required properties (which it gets if it had none; a member "required"
/// that is not a list is left as it is). Nothing else changes.
pub open spec fn parameter_added(
    before: JsonValue,
    after: JsonValue,
    name: Seq<char>,
    ty: Seq<char>,
    desc: Seq<char>,
    required: bool,
) -> bool {
    let m = members(before);
    let m2 = members(after);
    let props = properties_of(before);
    let props2 = properties_of(after);
    &&& after is Object
    &&& m2.dom() == m.dom().insert(type_key()).insert(properties_key()).union(
        if required { set![required_key()] } else { Set::empty() },
    )
    &&& forall|k: Seq<char>|
        #[trigger] m.contains_key(k) && k != type_key() && k != properties_key() && k != required_key()
            ==> m2[k] == m[k]
    &&& if m.contains_key(type_key()) {
        m2[type_key()] == m[type_key()]
    } else {
        is_text(m2[type_key()], object_text())
    }
    &&& m2[properties_key()] is Object
    &&& props2 == members(m2[properties_key()])
    &&& props2.dom() == props.dom().insert(name)
    &&& forall|k: Seq<char>| #[trigger] props.contains_key(k) && k != name ==> props2[k] == props[k]
    &&& is_property(props2[name], ty, desc)
    &&& if !required {
        m.contains_key(required_key()) ==> m2[required_key()] == m[required_key()]
    } else if !m.contains_key(required_key()) {
        m2[required_key()] matches JsonValue::Array(a) && a@.len() == 1 && is_text(a@[0], name)
    } else {
        match m[required_key()] {
            JsonValue::Array(a) => m2[required_key()] matches JsonValue::Array(a2) && a2@.len() == a@.len() + 1
                && a2@.subrange(0, a@.len() as int) == a@ && is_text(a2@.last(), name),
            other => m2[required_key()] == other,
        }
    }
}

fn key(s: &str) -> (k: String)
    ensures
        k@ == s@,
{
    s.to_owned()
}

impl Tool {
    /// Create a new tool with the given name.
    pub fn new(name: &str) -> (t: Self)
        ensures
            t.name@ == name@,
            t.description@ == Seq::<char>::empty(),
            t.parameters_schema is Object,
            members(t.parameters_schema) == Map::<Seq<char>, JsonValue>::empty(),
    {
        Tool { name: name.to_owned(), description: String::new(), parameters_schema: JsonValue::empty_object() }
    }

    /// Set the tool description.
    pub fn description(self, desc: &str) -> (t: Self)
        ensures
            t.name == self.name,
            t.description@ == desc@,
            t.parameters_schema == self.parameters_schema,
    {
        Tool { description: desc.to_owned(), ..self }
    }

    /// Set the parameters JSON schema.
    pub fn schema(self, schema: JsonValue) -> (t: Self)
        ensures
            t.name == self.name,
            t.description == self.description,
            t.parameters_schema == schema,
    {
        Tool { parameters_schema: schema, ..self }
    }

    /// Add a parameter to the tool's JSON schema.
    pub fn parameter(self, name: &str, param_type: &str, description: &str, required: bool) -> (t: Self)
        requires
            accepts_parameter(self.parameters_schema),
        ensures
            t.name == self.name,
            t.description == self.description,
            parameter_added(self.parameters_schema, t.parameters_schema, name@, param_type@, description@, required),
    {
        proof {
            reveal_strlit("type");
            reveal_strlit("properties");
            reveal_strlit("required");
            reveal_strlit("description");
            reveal_strlit("object");
            assert("type"@ =~= type_key());
            assert("properties"@ =~= properties_key());
            assert("required"@ =~= required_key());
            assert("description"@ =~= description_key());
            assert("object"@ =~= object_text());
        }
        let ghost m = members(self.parameters_schema);
        let mut schema = self.parameters_schema;
        if schema.get("type").is_none() {
            schema.set_field(key("type"), JsonValue::from_text("object"));
        }
        let ghost m1 = members(schema);
        if schema.get("properties").is_none() {
            schema.set_field(key("properties"), JsonValue::empty_object());
        }
        let ghost m2 = members(schema);
        let mut props = match schema.remove_field("properties") {
            Some(p) => p,
            None => JsonValue::Null,
        };
        let ghost old_props = props;
        let mut entry = JsonValue::empty_object();
        entry.set_field(key("type"), JsonValue::from_text(param_type));
        entry.set_field(key("description"), JsonValue::from_text(description));
        proof {
            assert(members(entry).dom() =~= set![type_key(), description_key()]);
        }
        props.set_field(name.to_owned(), entry);
        schema.set_field(key("properties"), props);
        let ghost m3 = members(schema);
        if required {
            if schema.get("required").is_none() {
                schema.set_field(key("required"), JsonValue::Array(Vec::new()));
            }
            let mut req = match schema.remove_field("required") {
                Some(r) => r,
                None => JsonValue::Null,
            };
            let ghost old_req = req;
            match &mut req {
                JsonValue::Array(a) => {
                    a.push(JsonValue::from_text(name));
                },
                _ => {},
            }
            proof {
                if old_req is Array {
                    assert(req->Array_0@.subrange(0, old_req->Array_0@.len() as int) =~= old_req->Array_0@);
                }
            }
            schema.set_field(key("required"), req);
        }
        proof {
            let m4 = members(schema);
            assert(m4.dom() =~= m.dom().insert(type_key()).insert(properties_key()).union(
                if required { set![required_key()] } else { Set::empty() },
            ));
            assert(members(m4[properties_key()]).dom() =~= properties_of(self.parameters_schema).dom().insert(name@));
        }
        Tool { parameters_schema: schema, ..self }
    }
}


/// Parameters accumulate: after a second parameter is added, the first is
/// still there as it was added, and both are required when both were added
/// as required (the schema having started with no list of required ones).
pub proof fn law_parameters_accumulate(
    s0: JsonValue,
    s1: JsonValue,
    s2: JsonValue,
    first: Seq<char>,
    second: Seq<char>,
    ty: Seq<char>,
    desc: Seq<char>,
    ty2: Seq<char>,
    desc2: Seq<char>,
    required: bool,
    required2: bool,
)
    requires
        first != second,
        parameter_added(s0, s1, first, ty, desc, required),
        parameter_added(s1, s2, second, ty2, desc2, required2),
    ensures
        members(members(s2)[properties_key()]).contains_key(first),
        is_property(members(members(s2)[properties_key()])[first], ty, desc),
        members(members(s2)[properties_key()]).contains_key(second),
        is_property(members(members(s2)[properties_key()])[second], ty2, desc2),
        !members(s0).contains_key(required_key()) && required && required2 ==> (
            members(s2)[required_key()] matches JsonValue::Array(a) && a@.len() == 2
                && is_text(a@[0], first) && is_text(a@[1], second)),
{
    let m1 = members(s1);
    assert(properties_of(s1).contains_key(first));
    if !members(s0).contains_key(required_key()) && required && required2 {
        assert(m1.contains_key(required_key()));
        let a1 = m1[required_key()]->Array_0;
        let a2 = members(s2)[required_key()]->Array_0;
        assert(a2@.subrange(0, a1@.len() as int)[0] == a2@[0]);
    }
}

// =============================================================================
// Session Hooks
// =============================================================================

/// Which of a session's hooks have a handler.
#[derive(Debug, Clone, Copy, PartialEq, Eq, Structural)]
pub struct HookFlags {
    pub on_pre_tool_use: bool,
    pub on_post_tool_use: bool,
    pub on_user_prompt_submitted: bool,
    pub on_session_start: bool,
    pub on_session_end: bool,
    pub on_error_occurred: bool,
}

impl HookFlags {
    /// Returns true if any hook handler is registered.
    pub fn has_any(&self) -> (b: bool)
        ensures
            b == (self.on_pre_tool_use || self.on_post_tool_use || self.on_user_prompt_submitted
                || self.on_session_start || self.on_session_end || self.on_error_occurred),
    {
        self.on_pre_tool_use || self.on_post_tool_use || self.on_user_prompt_submitted || self.on_session_start
            || self.on_session_end || self.on_error_occurred
    }
}

/// Input for the pre-tool-use hook.
#[derive(Debug, Clone)]
pub struct PreToolUseHookInput {
    pub timestamp: i64,
    pub cwd: String,
    pub tool_name: String,
    pub tool_args: JsonValue,
}

/// Output for the pre-tool-use hook.
#[derive(Debug, Clone)]
pub struct PreToolUseHookOutput {
    pub permission_decision: Option<String>,
    pub permission_decision_reason: Option<String>,
    pub modified_args: Option<JsonValue>,
    pub additional_context: Option<String>,
    pub suppress_output: Option<bool>,
}

impl Default for PreToolUseHookOutput {
    fn default() -> (o: Self)
        ensures
            o.permission_decision is None,
            o.permission_decision_reason is None,
            o.modified_args is None,
            o.additional_context is None,
            o.suppress_output is None,
    {
        PreToolUseHookOutput {
            permission_decision: None,
            permission_decision_reason: None,
            modified_args: None,
            additional_context: None,
            suppress_output: None,
        }
    }
}

/// Input for the post-tool-use hook.
#[derive(Debug, Clone)]
pub struct PostToolUseHookInput {
    pub timestamp: i64,
    pub cwd: String,
    pub tool_name: String,
    pub tool_args: JsonValue,
    pub tool_result: JsonValue,
}

/// Output for the post-tool-use hook.
#[derive(Debug, Clone)]
pub struct PostToolUseHookOutput {
    pub modified_result: Option<JsonValue>,
    pub additional_context: Option<String>,
    pub suppress_output: Option<bool>,
}

impl Default for PostToolUseHookOutput {
    fn default() -> (o: Self)
        ensures
            o.modified_result is None,
            o.additional_context is None,
            o.suppress_output is None,
    {
        PostToolUseHookOutput { modified_result: None, additional_context: None, suppress_output: None }
    }
}

/// Input for the user-prompt-submitted hook.
#[derive(Debug, Clone)]
pub struct UserPromptSubmittedHookInput {
    pub timestamp: i64,
    pub cwd: String,
    pub prompt: String,
}

/// Output for the user-prompt-submitted hook.
#[derive(Debug, Clone)]
pub struct UserPromptSubmittedHookOutput {
    pub modified_prompt: Option<String>,
    pub additional_context: Option<String>,
    pub suppress_output: Option<bool>,
}

impl Default for UserPromptSubmittedHookOutput {
    fn default() -> (o: Self)
        ensures
            o.modified_prompt is None,
            o.additional_context is None,
            o.suppress_output is None,
    {
        UserPromptSubmittedHookOutput { modified_prompt: None, additional_context: None, suppress_output: None }
    }
}

/// Input for the session-start hook.
#[derive(Debug, Clone)]
pub struct SessionStartHookInput {
    pub timestamp: i64,
    pub cwd: String,
    pub source: String,
    pub initial_prompt: Option<String>,
}

/// Output for the session-start hook.
#[derive(Debug, Clone)]
pub struct SessionStartHookOutput {
    pub additional_context: Option<String>,
    pub modified_config: Option<JsonValue>,
}

impl Default for SessionStartHookOutput {
    fn default() -> (o: Self)
        ensures
            o.additional_context is None,
            o.modified_config is None,
    {
        SessionStartHookOutput { additional_context: None, modified_config: None }
    }
}

/// Input for the session-end hook.
#[derive(Debug, Clone)]
pub struct SessionEndHookInput {
    pub timestamp: i64,
    pub cwd: String,
    pub reason: String,
    pub final_message: Option<String>,
    pub error: Option<String>,
}

/// Output for the session-end hook.
#[derive(Debug, Clone)]
pub struct SessionEndHookOutput {
    pub suppress_output: Option<bool>,
    pub cleanup_actions: Option<Vec<String>>,
    pub session_summary: Option<String>,
}

impl Default for SessionEndHookOutput {
    fn default() -> (o: Self)
        ensures
            o.suppress_output is None,
            o.cleanup_actions is None,
            o.session_summary is None,
    {
        SessionEndHookOutput { suppress_output: None, cleanup_actions: None, session_summary: None }
    }
}

/// Input for the error-occurred hook.
#[derive(Debug, Clone)]
pub struct ErrorOccurredHookInput {
    pub timestamp: i64,
    pub cwd: String,
    pub error: String,
    pub error_context: String,
    pub recoverable: bool,
}

/// Output for the error-occurred hook.
#[derive(Debug, Clone)]
pub struct ErrorOccurredHookOutput {
    pub suppress_output: Option<bool>,
    pub error_handling: Option<String>,
    pub retry_count: Option<i32>,
    pub user_notification: Option<String>,
}

impl Default for ErrorOccurredHookOutput {
    fn default() -> (o: Self)
        ensures
            o.suppress_output is None,
            o.error_handling is None,
            o.retry_count is None,
            o.user_notification is None,
    {
        ErrorOccurredHookOutput { suppress_output: None, error_handling: None, retry_count: None, user_notification: None }
    }
}

// =============================================================================
// Messages
// =============================================================================

/// Options for sending a message.
#[derive(Debug, Clone)]
pub struct MessageOptions {
    pub prompt: String,
    pub attachments: Option<Vec<UserMessageAttachment>>,
    pub mode: Option<String>,
}

impl Default for MessageOptions {
    fn default() -> (o: Self)
        ensures
            o.prompt@ == Seq::<char>::empty(),
            o.attachments is None,
            o.mode is None,
    {
        MessageOptions { prompt: String::new(), attachments: None, mode: None }
    }
}

impl<'a> From<&'a str> for MessageOptions {
    fn from(prompt: &'a str) -> (o: Self)
        ensures
            o.prompt@ == prompt@,
            o.attachments is None,
            o.mode is None,
    {
        MessageOptions { prompt: prompt.to_owned(), attachments: None, mode: None }
    }
}

impl<'a> vstd::std_specs::convert::FromSpecImpl<&'a str> for MessageOptions {
    /// The result holds a fresh `String`, which no spec function can name;
    /// the impl's own `ensures` says what it holds.
    open spec fn obeys_from_spec() -> bool {
        false
    }

    open spec fn from_spec(prompt: &'a str) -> Self {
        MessageOptions { prompt: choose|p: String| p@ == prompt@, attachments: None, mode: None }
    }
}

impl From<String> for MessageOptions {
    fn from(prompt: String) -> (o: Self) {
        MessageOptions { prompt, attachments: None, mode: None }
    }
}

impl vstd::std_specs::convert::FromSpecImpl<String> for MessageOptions {
    open spec fn obeys_from_spec() -> bool {
        true
    }

    open spec fn from_spec(prompt: String) -> Self {
        MessageOptions { prompt, attachments: None, mode: None }
    }
}

// =============================================================================
// Client Options
// =============================================================================

/// Options for creating a CopilotClient.
#[derive(Debug, Clone)]
pub struct ClientOptions {
    pub cli_path: Option<PathBuf>,
    pub cli_args: Option<Vec<String>>,
    pub cwd: Option<PathBuf>,
    pub port: u16,
    pub use_stdio: bool,
    pub cli_url: Option<String>,
    pub log_level: LogLevel,
    pub auto_start: bool,
    pub auto_restart: bool,
    pub environment: Option<StrMap<String>>,
    /// GitHub personal access token for authentication.
    /// Cannot be used together with `cli_url`.
    pub github_token: Option<String>,
    /// Whether to use the logged-in user for auth.
    /// Defaults to true when github_token is empty. Cannot be used with `cli_url`.
    pub use_logged_in_user: Option<bool>,
    /// Tool specifications to deny (passed as `--deny-tool` arguments to the CLI).
    pub deny_tools: Option<Vec<String>>,
    /// Tool specifications to allow without manual approval
    /// (passed as `--allow-tool` arguments to the CLI).
    pub allow_tools: Option<Vec<String>>,
    /// If true, passes `--allow-all-tools` to the CLI.
    pub allow_all_tools: bool,
}

impl Default for ClientOptions {
    fn default() -> (o: Self)
        ensures
            o.cli_path is None,
            o.cli_args is None,
            o.cwd is None,
            o.port == 0,
            o.use_stdio,
            o.cli_url is None,
            o.log_level == LogLevel::Info,
            o.auto_start,
            o.auto_restart,
            o.environment is None,
            o.github_token is None,
            o.use_logged_in_user is None,
            o.deny_tools is None,
            o.allow_tools is None,
            !o.allow_all_tools,
    {
        ClientOptions {
            cli_path: None,
            cli_args: None,
            cwd: None,
            port: 0,
            use_stdio: true,
            cli_url: None,
            log_level: LogLevel::Info,
            auto_start: true,
            auto_restart: true,
            environment: None,
            github_token: None,
            use_logged_in_user: None,
            deny_tools: None,
            allow_tools: None,
            allow_all_tools: false,
        }
    }
}

// =============================================================================
// Response Types
// =============================================================================

/// Metadata about a session.
#[derive(Debug, Clone)]
pub struct SessionMetadata {
    pub session_id: String,
    pub start_time: Option<String>,
    pub modified_time: Option<String>,
    pub summary: Option<String>,
    pub is_remote: bool,
}

/// Response from a ping request.
#[derive(Debug, Clone)]
pub struct PingResponse {
    pub message: String,
    pub timestamp: i64,
    pub protocol_version: Option<u32>,
}

/// Response from status.get request.
#[derive(Debug, Clone)]
pub struct GetStatusResponse {
    pub version: String,
    pub protocol_version: u32,
}

/// Response from auth.getStatus request.
#[derive(Debug, Clone)]
pub struct GetAuthStatusResponse {
    pub is_authenticated: bool,
    pub auth_type: Option<String>,
    pub host: Option<String>,
    pub login: Option<String>,
    pub status_message: Option<String>,
}

/// Model capabilities - what the model supports.
#[derive(Debug, Clone)]
pub struct ModelCapabilities {
    pub supports: ModelSupports,
    pub limits: ModelLimits,
}

impl Default for ModelCapabilities {
    fn default() -> (c: Self)
        ensures
            !c.supports.vision,
            !c.supports.reasoning_effort,
            c.limits.max_prompt_tokens is None,
            c.limits.max_context_window_tokens == 0,
            c.limits.vision is None,
    {
        ModelCapabilities { supports: ModelSupports::default(), limits: ModelLimits::default() }
    }
}

/// What features a model supports.
#[derive(Debug, Clone)]
pub struct ModelSupports {
    pub vision: bool,
    pub reasoning_effort: bool,
}

impl Default for ModelSupports {
    fn default() -> (s: Self)
        ensures
            !s.vision,
            !s.reasoning_effort,
    {
        ModelSupports { vision: false, reasoning_effort: false }
    }
}

/// Vision limits for a model.
#[derive(Debug, Clone)]
pub struct ModelVisionLimits {
    pub supported_media_types: Vec<String>,
    pub max_prompt_images: u32,
    pub max_prompt_image_size: u64,
}

impl Default for ModelVisionLimits {
    fn default() -> (l: Self)
        ensures
            l.supported_media_types@.len() == 0,
            l.max_prompt_images == 0,
            l.max_prompt_image_size == 0,
    {
        ModelVisionLimits { supported_media_types: Vec::new(), max_prompt_images: 0, max_prompt_image_size: 0 }
    }
}

/// Model limits.
#[derive(Debug, Clone)]
pub struct ModelLimits {
    pub max_prompt_tokens: Option<u32>,
    pub max_context_window_tokens: u32,
    pub vision: Option<ModelVisionLimits>,
}

impl Default for ModelLimits {
    fn default() -> (l: Self)
        ensures
            l.max_prompt_tokens is None,
            l.max_context_window_tokens == 0,
            l.vision is None,
    {
        ModelLimits { max_prompt_tokens: None, max_context_window_tokens: 0, vision: None }
    }
}

/// Model policy state.
#[derive(Debug, Clone)]
pub struct ModelPolicy {
    pub state: String,
    pub terms: String,
}

// =============================================================================
// User Input Types
// =============================================================================

/// Request for user input from the server.
#[derive(Debug, Clone)]
pub struct UserInputRequest {
    pub question: String,
    pub choices: Option<Vec<String>>,
    pub allow_freeform: Option<bool>,
}

/// Response to a user input request.
#[derive(Debug, Clone)]
pub struct UserInputResponse {
    pub answer: String,
    pub was_freeform: Option<bool>,
}

impl Default for UserInputResponse {
    fn default() -> (r: Self)
        ensures
            r.answer@ == Seq::<char>::empty(),
            r.was_freeform is None,
    {
        UserInputResponse { answer: String::new(), was_freeform: None }
    }
}

/// Context for a user input invocation.
#[derive(Debug, Clone)]
pub struct UserInputInvocation {
    pub session_id: String,
}

// =============================================================================
// Session Lifecycle Types
// =============================================================================

/// Metadata for session lifecycle events.
#[derive(Debug, Clone)]
pub struct SessionLifecycleEventMetadata {
    pub start_time: Option<String>,
    pub modified_time: Option<String>,
    pub summary: Option<String>,
}

/// Session lifecycle event notification.
#[derive(Debug, Clone)]
pub struct SessionLifecycleEvent {
    pub event_type: String,
    pub session_id: String,
    pub metadata: Option<SessionLifecycleEventMetadata>,
}

/// Response from session.getForeground.
#[derive(Debug, Clone)]
pub struct GetForegroundSessionResponse {
    pub session_id: Option<String>,
    pub workspace_path: Option<String>,
}

impl Default for GetForegroundSessionResponse {
    fn default() -> (r: Self)
        ensures
            r.session_id is None,
            r.workspace_path is None,
    {
        GetForegroundSessionResponse { session_id: None, workspace_path: None }
    }
}

/// Response from session.setForeground.
#[derive(Debug, Clone)]
pub struct SetForegroundSessionResponse {
    pub success: bool,
    pub error: Option<String>,
}

impl Default for SetForegroundSessionResponse {
    fn default() -> (r: Self)
        ensures
            !r.success,
            r.error is None,
    {
        SetForegroundSessionResponse { success: false, error: None }
    }
}

// =============================================================================
// Stop Error
// =============================================================================

/// Error collected during client stop.
#[derive(Debug, Clone)]
pub struct StopError {
    pub message: String,
    pub source: Option<String>,
}

impl StopError {
    /// The text by which the error is shown: its message.
    pub fn to_string(&self) -> (s: String)
        ensures
            s@ == self.message@,
    {
        self.message.clone()
    }
}

} // verus!
