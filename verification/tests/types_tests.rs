use copilot_sdk::error::CopilotError;
use copilot_sdk::json::{JsonNumber, JsonValue};
use copilot_sdk::strmap::StrMap;
use copilot_sdk::types::{
    invalid_argument, session_lifecycle_event_types, ClientOptions, HookFlags, ConnectionState, LogLevel, MessageOptions,
    PermissionRequestResult, ProviderConfig, StopError, Tool, ToolInvocation, ToolResultObject,
};

type ToolResult = ToolResultObject;

fn text(s: &str) -> JsonValue {
    JsonValue::Str(s.to_string())
}

fn object(members: Vec<(&str, JsonValue)>) -> JsonValue {
    let mut m = StrMap::new();
    for (k, v) in members {
        m.insert(k.to_string(), v);
    }
    JsonValue::Object(m)
}

#[test]
fn test_tool_result_text() {
    let result = ToolResult::text("Hello, world!");
    assert_eq!(result.text_result_for_llm, "Hello, world!");
    assert_eq!(result.result_type, "success");
}

#[test]
fn test_tool_result_error() {
    let result = ToolResult::error("Something went wrong");
    assert_eq!(result.result_type, "error");
    assert_eq!(result.error, Some("Something went wrong".to_string()));
}

#[test]
fn test_permission_result() {
    let approved = PermissionRequestResult::approved();
    assert_eq!(approved.kind, "approved");
    assert!(approved.is_approved());
    assert!(!approved.is_denied());

    let denied = PermissionRequestResult::denied();
    assert!(denied.kind.starts_with("denied"));
    assert!(denied.is_denied());
    assert!(!denied.is_approved());
}

#[test]
fn test_message_options_from_str() {
    let opts: MessageOptions = "Hello".into();
    assert_eq!(opts.prompt, "Hello");
}

#[test]
fn test_stop_error_display() {
    let err = StopError { message: "timeout".into(), source: Some("rpc".into()) };
    assert_eq!(err.to_string(), "timeout");
}

#[test]
fn test_tool_builder() {
    let tool = Tool::new("my_tool").description("A test tool").schema(object(vec![("type", text("object"))]));

    assert_eq!(tool.name, "my_tool");
    assert_eq!(tool.description, "A test tool");
}

#[test]
fn message_options_from_string() {
    let opts: MessageOptions = String::from("Hi").into();
    assert_eq!(opts.prompt, "Hi");
    assert!(opts.attachments.is_none());
    assert!(opts.mode.is_none());
}

#[test]
fn permission_kinds() {
    let mut r = PermissionRequestResult::denied();
    assert_eq!(r.kind, "denied-no-approval-rule-and-could-not-request-from-user");
    r.kind = "denied-by-rules".to_string();
    assert!(r.is_denied());
    r.kind = "deni".to_string();
    assert!(!r.is_denied());
    r.kind = "approved-later".to_string();
    assert!(!r.is_approved());
}

#[test]
fn tool_parameters_build_the_schema() {
    let tool = Tool::new("get_weather")
        .parameter("city", "string", "The city", true)
        .parameter("units", "string", "Units", false)
        .parameter("days", "integer", "Days ahead", true);
    let schema = &tool.parameters_schema;
    assert_eq!(schema.get("type"), Some(&text("object")));
    let props = schema.get("properties").unwrap();
    let city = props.get("city").unwrap();
    assert_eq!(city.get("type"), Some(&text("string")));
    assert_eq!(city.get("description"), Some(&text("The city")));
    assert!(props.get("units").is_some());
    assert_eq!(schema.get("required"), Some(&JsonValue::Array(vec![text("city"), text("days")])));
}

#[test]
fn tool_parameter_keeps_existing_type_and_required() {
    let tool = Tool::new("t")
        .schema(object(vec![("type", text("custom")), ("required", text("not a list"))]))
        .parameter("p", "boolean", "flag", true);
    assert_eq!(tool.parameters_schema.get("type"), Some(&text("custom")));
    assert_eq!(tool.parameters_schema.get("required"), Some(&text("not a list")));

    let tool = Tool::new("t").schema(JsonValue::Null).parameter("p", "boolean", "flag", false);
    assert_eq!(tool.parameters_schema.get("type"), Some(&text("object")));
    assert!(tool.parameters_schema.get("required").is_none());
    // Redefining a parameter replaces it.
    let tool = tool.parameter("p", "string", "again", false);
    let p = tool.parameters_schema.get("properties").unwrap().get("p").unwrap();
    assert_eq!(p.get("type"), Some(&text("string")));
}

#[test]
fn tool_arguments() {
    let inv = ToolInvocation {
        session_id: "s".into(),
        tool_call_id: "c".into(),
        tool_name: "t".into(),
        arguments: Some(object(vec![("city", text("Paris"))])),
    };
    assert_eq!(inv.arg_value("city").unwrap(), &text("Paris"));
    match inv.arg_value("country") {
        Err(CopilotError::ToolError(m)) => assert_eq!(m, "Missing argument: country"),
        other => panic!("unexpected {:?}", other),
    }
    let none = ToolInvocation { arguments: None, ..inv.clone() };
    match none.arg_value("city") {
        Err(CopilotError::ToolError(m)) => assert_eq!(m, "No arguments provided"),
        other => panic!("unexpected {:?}", other),
    }
    let not_object = ToolInvocation { arguments: Some(JsonValue::Number(JsonNumber::PosInt(1))), ..inv };
    assert!(matches!(not_object.arg_value("city"), Err(CopilotError::ToolError(_))));
}

#[test]
fn provider_from_environment_values() {
    assert!(!ProviderConfig::is_env_configured(None));
    assert!(!ProviderConfig::is_env_configured(Some("")));
    assert!(ProviderConfig::is_env_configured(Some("k")));

    assert!(ProviderConfig::from_env(None, Some("u".into()), None).is_none());
    assert!(ProviderConfig::from_env(Some(String::new()), None, None).is_none());

    let c = ProviderConfig::from_env(Some("key".into()), None, None).unwrap();
    assert_eq!(c.api_key, Some("key".to_string()));
    assert_eq!(c.base_url, "https://api.openai.com/v1");
    assert_eq!(c.provider_type, Some("openai".to_string()));
    assert!(c.wire_api.is_none() && c.bearer_token.is_none() && c.azure.is_none());

    let c = ProviderConfig::from_env(Some("key".into()), Some("http://x".into()), Some("azure".into())).unwrap();
    assert_eq!(c.base_url, "http://x");
    assert_eq!(c.provider_type, Some("azure".to_string()));

    assert_eq!(ProviderConfig::model_from_env(Some("gpt".into())), Some("gpt".to_string()));
    assert_eq!(ProviderConfig::model_from_env(Some(String::new())), None);
    assert_eq!(ProviderConfig::model_from_env(None), None);
    assert_eq!(ProviderConfig::ENV_API_KEY, "COPILOT_SDK_BYOK_API_KEY");
}

#[test]
fn defaults_and_names() {
    assert_eq!(ConnectionState::default(), ConnectionState::Disconnected);
    assert_eq!(LogLevel::default(), LogLevel::Info);
    assert_eq!(LogLevel::Off.to_string(), "none");
    assert_eq!(LogLevel::Debug.to_string(), "debug");
    assert_eq!(LogLevel::Warn.to_string(), "warn");
    assert_eq!(LogLevel::All.to_string(), "all");
    let o = ClientOptions::default();
    assert!(o.use_stdio && o.auto_start && o.auto_restart && !o.allow_all_tools);
    assert_eq!(o.port, 0);
    assert_eq!(o.log_level, LogLevel::Info);
    assert_eq!(session_lifecycle_event_types::CREATED, "session.created");
}

#[test]
fn invalid_argument_message() {
    match invalid_argument("count", "invalid type: string \"x\", expected u32") {
        CopilotError::ToolError(m) => {
            assert_eq!(m, "Invalid argument 'count': invalid type: string \"x\", expected u32")
        },
        other => panic!("unexpected {:?}", other),
    }
}

fn no_hooks() -> HookFlags {
    HookFlags {
        on_pre_tool_use: false,
        on_post_tool_use: false,
        on_user_prompt_submitted: false,
        on_session_start: false,
        on_session_end: false,
        on_error_occurred: false,
    }
}

#[test]
fn test_session_hooks_has_any() {
    let hooks = no_hooks();
    assert!(!hooks.has_any());

    let hooks = HookFlags { on_pre_tool_use: true, ..no_hooks() };
    assert!(hooks.has_any());
    assert!(HookFlags { on_error_occurred: true, ..no_hooks() }.has_any());
}

#[test]
fn test_session_hooks_debug() {
    let hooks = HookFlags { on_pre_tool_use: true, ..no_hooks() };
    let debug = format!("{:?}", hooks);
    assert!(debug.contains("on_pre_tool_use: true"));
    assert!(debug.contains("on_post_tool_use: false"));
}
