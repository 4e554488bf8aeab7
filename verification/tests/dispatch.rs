use hippocampus::tools::catalog::descriptors;
use hippocampus::tools::dispatch::{
    observation_text, parse_action_input_json, prepare_tool_call, truncate_chars_in_place, Dispatch,
    MAX_TOOL_OBSERVATION_CHARS,
};
use hippocampus::tools::types::{ToolCall, ToolCallId, ToolErrorKind, ToolResult};
use hippocampus::{assemble_tools, PromptContext, ToolDescriptor, ToolProfile};

fn call(name: &str, raw: &str) -> ToolCall {
    ToolCall { id: ToolCallId("tc_1".to_string()), name: name.to_string(), raw_input: raw.to_string() }
}

fn office() -> (PromptContext, Vec<ToolDescriptor>) {
    let mut ctx = PromptContext::with_workspace_root("/ws".to_string());
    ctx.set_tool_profile(ToolProfile::Office, None).unwrap();
    let tools = descriptors(&assemble_tools(&ctx, None).unwrap());
    (ctx, tools)
}

fn rejected(d: Dispatch) -> ToolResult {
    match d {
        Dispatch::Rejected(r) => r,
        Dispatch::Ready { .. } => panic!("expected a rejection"),
    }
}

#[test]
fn unknown_tool_is_rejected() {
    let (ctx, tools) = office();
    let r = rejected(prepare_tool_call(&tools, &ctx, &call("shell", "{}")));
    assert!(!r.ok);
    assert_eq!(r.kind, ToolErrorKind::UnknownTool);
    assert_eq!(r.message, "unknown tool: shell");
    assert!(r.data.is_none());
}

#[test]
fn network_tool_is_denied_without_capability() {
    let (ctx, tools) = office();
    let r = rejected(prepare_tool_call(&tools, &ctx, &call("net_echo", "{\"url\":\"https://example.com\"}")));
    assert_eq!(r.kind, ToolErrorKind::PolicyDenied);
    assert_eq!(r.message, "capability denied for tool 'net_echo': Network");
}

#[test]
fn lsp_tool_is_denied_without_capability() {
    let (ctx, tools) = office();
    let r = rejected(prepare_tool_call(
        &tools,
        &ctx,
        &call("lsp", "{\"operation\":\"go_to_definition\",\"path\":\"lib.rs\",\"line\":1,\"character\":4}"),
    ));
    assert_eq!(r.kind, ToolErrorKind::PolicyDenied);
    assert_eq!(r.message, "capability denied for tool 'lsp': Lsp");
}

#[test]
fn tool_outside_profile_is_denied() {
    let (_, tools) = office();
    let ctx = PromptContext::with_workspace_root("/ws".to_string());
    let r = rejected(prepare_tool_call(&tools, &ctx, &call("net_echo", "{}")));
    assert_eq!(r.kind, ToolErrorKind::PolicyDenied);
    assert_eq!(
        r.message,
        "tool 'net_echo' is not in the active profile allowlist (profile=coding)"
    );
}

#[test]
fn invalid_json_input_is_rejected() {
    let (ctx, tools) = office();
    let r = rejected(prepare_tool_call(&tools, &ctx, &call("echo", "not json")));
    assert_eq!(r.kind, ToolErrorKind::InvalidActionInputJson);
    assert!(r.message.starts_with("Action Input is not valid JSON: "));
    assert!(parse_action_input_json("[1, 2]").is_ok());
    assert!(parse_action_input_json("{").is_err());
}

#[test]
fn schema_violation_is_rejected() {
    let (ctx, tools) = office();
    let r = rejected(prepare_tool_call(&tools, &ctx, &call("echo", "{\"text\": 1}")));
    assert_eq!(r.kind, ToolErrorKind::JsonSchemaValidation);
    assert!(r.message.starts_with("schema validation failed for tool 'echo': "));
    let r = rejected(prepare_tool_call(&tools, &ctx, &call("read_file", "{\"path\": \"\"}")));
    assert_eq!(r.kind, ToolErrorKind::JsonSchemaValidation);
}

#[test]
fn valid_call_is_ready() {
    let (mut ctx, tools) = office();
    match prepare_tool_call(&tools, &ctx, &call("echo", "\"hello\"")) {
        Dispatch::Ready { tool_index, input } => {
            assert_eq!(tools[tool_index].name, "echo");
            assert_eq!(input, serde_json::Value::String("hello".to_string()));
        }
        Dispatch::Rejected(r) => panic!("unexpected rejection: {}", r.message),
    }
    ctx.capability_network = true;
    match prepare_tool_call(&tools, &ctx, &call("net_echo", "{\"url\":\"https://example.com\"}")) {
        Dispatch::Ready { tool_index, .. } => assert_eq!(tools[tool_index].name, "net_echo"),
        Dispatch::Rejected(r) => panic!("unexpected rejection: {}", r.message),
    }
}

#[test]
fn broken_schema_is_reported() {
    let ctx = PromptContext::with_workspace_root("/ws".to_string());
    let tools = vec![ToolDescriptor {
        name: "echo".to_string(),
        description: "d".to_string(),
        required_capabilities: vec![],
        input_schema: "{\"type\": 12}".to_string(),
    }];
    let r = rejected(prepare_tool_call(&tools, &ctx, &call("echo", "1")));
    assert_eq!(r.kind, ToolErrorKind::JsonSchemaValidation);
    assert!(r.message.starts_with("schema compile failed for tool 'echo': "));
}

#[test]
fn results_and_observations() {
    let ok = ToolResult::from_run(Ok(serde_json::Value::Bool(true)));
    assert!(ok.ok);
    assert_eq!(ok.kind, ToolErrorKind::Success);
    assert_eq!(ok.message, "ok");
    assert_eq!(ok.kind.as_str(), "ok");
    let err = ToolResult::from_run(Err("boom".to_string()));
    assert!(!err.ok);
    assert_eq!(err.kind, ToolErrorKind::ToolExecution);
    assert_eq!(err.kind.as_str(), "tool_execution");
    assert_eq!(err.message, "boom");

    assert_eq!(observation_text("{\"ok\":true}".to_string()), "{\"ok\":true}");
    let long = "é".repeat(MAX_TOOL_OBSERVATION_CHARS + 3);
    let obs = observation_text(long);
    assert!(obs.ends_with(" /* truncated */"));
    assert_eq!(obs.chars().count(), MAX_TOOL_OBSERVATION_CHARS + " /* truncated */".len());

    let mut s = "abcdef".to_string();
    assert!(truncate_chars_in_place(&mut s, 3));
    assert_eq!(s, "abc");
    assert!(!truncate_chars_in_place(&mut s, 3));
}
