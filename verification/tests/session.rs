use hippocampus::cli::{parse_cli, preview_task, task_from_line, CLI_USAGE, PREVIEW_PLACEHOLDER};
use hippocampus::llm::openai::{first_choice_content, ChatEndpoint};
use hippocampus::llm::scripted::{
    prompt_preview, scripted_demo_lines, ScriptedLlm, SCRIPT_EXHAUSTED_TURN,
};
use hippocampus::tools::lsp_session::{
    check_document_size, plan_query, LspMessage, LspPhase, LspSession, LspStep, LSP_MAX_MESSAGES,
};
use hippocampus::tools::lsp_stdio::LspOperation;
use hippocampus::{PromptContext, ToolProfile};

fn args(v: &[&str]) -> Vec<String> {
    v.iter().map(|s| s.to_string()).collect()
}

#[test]
fn cli_options_then_task() {
    let c = parse_cli(&args(&["--profile", " Office ", "--run-id", "r1", "list", "the", "files"]))
        .unwrap();
    assert_eq!(c.profile, Some(ToolProfile::Office));
    assert_eq!(c.run_id.as_deref(), Some("r1"));
    assert_eq!(c.workspace, None);
    assert!(!c.print_system_prompt);
    assert_eq!(c.task, "list the files");
}

#[test]
fn cli_without_arguments_is_interactive() {
    let c = parse_cli(&[]).unwrap();
    assert_eq!(c.task, "");
    assert!(c.profile.is_none() && c.run_id.is_none() && c.workspace.is_none());
    let c = parse_cli(&args(&["--print-system-prompt", "--workspace", "/tmp/ws"])).unwrap();
    assert!(c.print_system_prompt);
    assert_eq!(c.workspace.as_deref(), Some("/tmp/ws"));
    assert_eq!(c.task, "");
}

#[test]
fn cli_options_after_the_task_are_task_words() {
    let c = parse_cli(&args(&["fix", "--run-id", "x"])).unwrap();
    assert_eq!(c.task, "fix --run-id x");
    assert!(c.run_id.is_none());
}

#[test]
fn cli_errors() {
    assert_eq!(parse_cli(&args(&["--workspace"])).err().unwrap(), "--workspace requires a path");
    assert_eq!(
        parse_cli(&args(&["--workspace", "  "])).err().unwrap(),
        "--workspace path cannot be empty"
    );
    assert_eq!(parse_cli(&args(&["--run-id"])).err().unwrap(), "--run-id requires a value");
    assert_eq!(parse_cli(&args(&["--run-id", ""])).err().unwrap(), "--run-id cannot be empty");
    assert_eq!(
        parse_cli(&args(&["--profile"])).err().unwrap(),
        "--profile requires a value (coding|office|full|minimal|custom)"
    );
    assert_eq!(
        parse_cli(&args(&["--profile", "Weird"])).err().unwrap(),
        "--profile: unknown tool profile: weird"
    );
    assert_eq!(parse_cli(&args(&["-h"])).err().unwrap(), CLI_USAGE);
    assert!(parse_cli(&args(&["--help", "x"])).err().unwrap().starts_with("用法: hippocampus"));
}

#[test]
fn cli_overrides_apply_to_context() {
    let mut ctx = PromptContext::with_workspace_root("/ws".to_string());
    let c = parse_cli(&args(&["--workspace", "/other", "--run-id", "r9", "--profile", "minimal"]))
        .unwrap();
    c.apply_to(&mut ctx, None).unwrap();
    assert_eq!(ctx.workspace_root, "/other");
    assert_eq!(ctx.run_id.as_deref(), Some("r9"));
    assert_eq!(ctx.tool_profile, ToolProfile::Minimal);
    assert_eq!(ctx.allowed_tool_names, vec!["echo", "read_file"]);

    let c = parse_cli(&args(&["--profile", "custom"])).unwrap();
    let e = c.apply_to(&mut ctx, None).unwrap_err();
    assert!(e.contains("HIPPOCAMPUS_TOOL_ALLOWLIST"));
    assert_eq!(ctx.tool_profile, ToolProfile::Custom);
    assert_eq!(ctx.allowed_tool_names, vec!["echo", "read_file"]);
}

#[test]
fn interactive_lines_and_preview() {
    assert_eq!(task_from_line("  do it \n").as_deref(), Some("do it"));
    assert_eq!(task_from_line("   \n"), None);
    assert_eq!(preview_task(" t "), "t");
    assert_eq!(preview_task(""), PREVIEW_PLACEHOLDER);
}

#[test]
fn scripted_model_replays_then_is_exhausted() {
    let mut m = ScriptedLlm::new(scripted_demo_lines());
    let first = m.next_turn();
    assert!(first.contains("Action: list_dir"));
    assert!(m.next_turn().contains("Final Answer: Scripted path completed"));
    assert_eq!(m.next_turn(), SCRIPT_EXHAUSTED_TURN);
    assert_eq!(m.turns_served(), 3);
    m.rewind();
    assert_eq!(m.turns_served(), 0);
    assert_eq!(m.next_turn(), first);
}

#[test]
fn prompt_preview_takes_320_chars() {
    let long: String = "é".repeat(400);
    assert_eq!(prompt_preview(&long).chars().count(), 320);
    assert_eq!(prompt_preview("short"), "short");
}

#[test]
fn chat_endpoint_trims_base_url() {
    let e = ChatEndpoint::new("https://api.example.com//", "k".to_string(), "m1".to_string());
    assert_eq!(e.completions_url(), "https://api.example.com/v1/chat/completions");
    assert_eq!(e.api_key(), "k");
    assert_eq!(e.model(), "m1");
    assert_eq!(first_choice_content(vec![Some("hi".to_string()), Some("no".to_string())]), "hi");
    assert_eq!(first_choice_content(vec![None, Some("no".to_string())]), "");
    assert_eq!(first_choice_content(vec![]), "");
}

fn reply(id: i64, error: bool) -> LspMessage {
    LspMessage { has_result: !error, has_error: error, id: Some(id) }
}

fn note() -> LspMessage {
    LspMessage { has_result: false, has_error: false, id: None }
}

#[test]
fn lsp_session_initialize_then_query() {
    let mut s = LspSession::new();
    assert_eq!(s.awaited_id(), 1);
    assert!(matches!(s.on_message(note()), LspStep::ReadNext));
    assert!(matches!(s.on_message(reply(2, false)), LspStep::ReadNext));
    assert!(matches!(s.on_message(reply(1, false)), LspStep::SendQuery));
    assert_eq!(s.phase(), LspPhase::Querying);
    assert_eq!(s.awaited_id(), 2);
    assert!(matches!(s.on_message(reply(2, true)), LspStep::Answered { is_error: true }));
    assert_eq!(s.phase(), LspPhase::Closed);
}

#[test]
fn lsp_session_failures() {
    let mut s = LspSession::new();
    assert!(matches!(s.on_message(reply(1, true)), LspStep::InitFailed));
    assert_eq!(s.phase(), LspPhase::Closed);

    let mut s = LspSession::new();
    for _ in 0..LSP_MAX_MESSAGES - 1 {
        assert!(matches!(s.on_message(note()), LspStep::ReadNext));
    }
    match s.on_message(note()) {
        LspStep::TimedOut(e) => assert_eq!(e, "timed out waiting for LSP response id=1"),
        _ => panic!("expected a timeout"),
    }
}

#[test]
fn lsp_query_plan_and_size() {
    let p = plan_query(LspOperation::FindReferences, 10, 1);
    assert_eq!((p.method, p.label, p.line, p.character), ("textDocument/references", "find_references", 9, 0));
    assert!(p.include_declaration);
    let p = plan_query(LspOperation::GoToDefinition, 0, 3);
    assert_eq!((p.method, p.line, p.character, p.include_declaration), ("textDocument/definition", 0, 2, false));
    assert!(check_document_size(1_000_000).is_ok());
    assert_eq!(
        check_document_size(1_000_001).unwrap_err(),
        "file too large for LSP didOpen (max 1_000_000 bytes)"
    );
}
