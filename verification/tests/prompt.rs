use hippocampus::prompting::render::build_prompt;
use hippocampus::prompting::workspace::render_workspace_docs_section;
use hippocampus::tools::catalog::descriptors;
use hippocampus::{
    assemble_tools, PromptContext, ReactConfig, ReactLoop, ToolProfile, WorkspaceDocs,
    MAX_WORKSPACE_PROMPT_FILE_CHARS,
};

fn no_docs() -> WorkspaceDocs {
    WorkspaceDocs { agents_md: None, tools_md: None }
}

#[test]
fn harness_shows_tool_profile_and_allowlist() {
    let mut ctx = PromptContext::with_workspace_root(".".to_string());
    ctx.set_tool_profile(ToolProfile::Office, None).unwrap();
    let tools = assemble_tools(&ctx, None).unwrap();
    let loop_ = ReactLoop::new(
        "SYS".to_string(),
        descriptors(&tools),
        ReactConfig { max_steps: 3, ..Default::default() },
    );
    let rendered = loop_.render_prompt(&ctx, "TASK", "", &no_docs());
    assert!(rendered.contains("tool_profile: office"));
    assert!(rendered.contains(
        "allowed_tools: echo, glob_search, grep_search, list_dir, lsp, net_echo, read_file"
    ));
}

#[test]
fn workspace_agents_md_is_injected_when_present() {
    let mut ctx = PromptContext::with_workspace_root("/tmp/ws".to_string());
    ctx.run_id = Some("run-1".into());
    ctx.max_tool_iterations = 3;
    let tools = assemble_tools(&ctx, None).unwrap();
    let loop_ = ReactLoop::new(
        "SYS".to_string(),
        descriptors(&tools),
        ReactConfig { max_steps: 3, ..Default::default() },
    );
    let docs = WorkspaceDocs {
        agents_md: Some("# Title\n\nhello from agents\n".to_string()),
        tools_md: None,
    };
    let rendered = loop_.render_prompt(&ctx, "TASK", "", &docs);
    assert!(rendered.contains("hello from agents"));
    assert!(rendered.contains("run-1"));
    assert!(rendered.contains("max_tool_iterations: 3"));
    assert!(rendered.contains("## Workspace: AGENTS.md"));
}

#[test]
fn harness_section_lists_capabilities() {
    let mut ctx = PromptContext::with_workspace_root("/ws".to_string());
    ctx.capability_network = true;
    ctx.run_id = Some("  r9  ".to_string());
    let p = build_prompt("SYS", "T", "S", &[], &ctx, &no_docs());
    assert!(p.contains("## Harness Context\n\n- run_id: r9\n- workspace_root: `/ws`\n- tool_profile: coding\n"));
    assert!(p.contains("- capabilities:\n- network: on\n- shell: off\n- write_file: off\n- lsp: off"));
    assert!(p.contains("任务（Task）：T\n\nScratchpad（历史记录，含 Observation）：\nS\n"));
    assert!(p.starts_with("# Hippocampus"));
    assert!(p.contains("__HIPPOCAMPUS_SYSTEM_PROMPT_STATIC_BOUNDARY__"));
    assert!(!p.contains("{task}"));
}

#[test]
fn run_id_blank_shows_none() {
    let mut ctx = PromptContext::with_workspace_root("/ws".to_string());
    ctx.run_id = Some("   ".to_string());
    let p = build_prompt("SYS", "T", "", &[], &ctx, &no_docs());
    assert!(p.contains("- run_id: none\n"));
}

#[test]
fn tool_schema_is_pretty_printed_and_indented() {
    let ctx = PromptContext::with_workspace_root("/ws".to_string());
    let mut c2 = ctx.clone();
    c2.allowed_tool_names = vec!["echo".to_string()];
    let tools = assemble_tools(&c2, None).unwrap();
    let p = build_prompt("SYS", "T", "", &descriptors(&tools), &ctx, &no_docs());
    assert!(p.contains("- echo: Echo the provided text back to the model (for wiring tests).\n  input_json_schema:\n  {\n"));
}

#[test]
fn placeholders_in_system_text_are_replaced_in_turn() {
    let ctx = PromptContext::with_workspace_root("/ws".to_string());
    let p = build_prompt("see {task}", "TASK", "", &[], &ctx, &no_docs());
    assert!(p.contains("see TASK"));
}

#[test]
fn workspace_docs_are_trimmed_and_truncated() {
    assert_eq!(render_workspace_docs_section(&no_docs()), "");
    let docs = WorkspaceDocs {
        agents_md: Some("   ".to_string()),
        tools_md: Some("\n tools \n".to_string()),
    };
    assert_eq!(render_workspace_docs_section(&docs), "## Workspace: TOOLS.md\n\ntools");
    let long = "x".repeat(MAX_WORKSPACE_PROMPT_FILE_CHARS + 5);
    let docs = WorkspaceDocs { agents_md: Some(long), tools_md: None };
    let s = render_workspace_docs_section(&docs);
    assert!(s.starts_with("## Workspace: AGENTS.md\n\n"));
    assert_eq!(s.matches('x').count(), MAX_WORKSPACE_PROMPT_FILE_CHARS);
    assert!(s.ends_with("个 Unicode 字符。"));
}
