use hippocampus::policy::context::EnvSnapshot;
use hippocampus::policy::tool_profile::{is_known_tool_name, resolve_tool_allowlist};
use hippocampus::{PromptContext, ToolCategory, ToolProfile};

fn strs(v: &[String]) -> Vec<&str> {
    v.iter().map(|s| s.as_str()).collect()
}

#[test]
fn profile_parse_accepts_aliases_and_case() {
    assert_eq!(ToolProfile::parse("coding"), Ok(ToolProfile::Coding));
    assert_eq!(ToolProfile::parse("  CODE "), Ok(ToolProfile::Coding));
    assert_eq!(ToolProfile::parse("Office"), Ok(ToolProfile::Office));
    assert_eq!(ToolProfile::parse("full"), Ok(ToolProfile::Full));
    assert_eq!(ToolProfile::parse("min"), Ok(ToolProfile::Minimal));
    assert_eq!(ToolProfile::parse("minimal"), Ok(ToolProfile::Minimal));
    assert_eq!(ToolProfile::parse("custom"), Ok(ToolProfile::Custom));
    assert_eq!(
        ToolProfile::parse(" Weird "),
        Err("unknown tool profile: weird".to_string())
    );
    assert_eq!(ToolProfile::Office.as_str(), "office");
}

#[test]
fn presets_resolve_sorted_and_deduplicated() {
    let coding = resolve_tool_allowlist(ToolProfile::Coding, None).unwrap();
    assert_eq!(
        strs(&coding),
        vec!["echo", "glob_search", "grep_search", "list_dir", "lsp", "read_file"]
    );
    let office = resolve_tool_allowlist(ToolProfile::Office, None).unwrap();
    assert_eq!(
        strs(&office),
        vec!["echo", "glob_search", "grep_search", "list_dir", "lsp", "net_echo", "read_file"]
    );
    let minimal = resolve_tool_allowlist(ToolProfile::Minimal, None).unwrap();
    assert_eq!(strs(&minimal), vec!["echo", "read_file"]);
    let full = resolve_tool_allowlist(ToolProfile::Full, Some("ignored")).unwrap();
    assert_eq!(full, office);
}

#[test]
fn custom_allowlist_is_split_trimmed_sorted_deduplicated() {
    let v = resolve_tool_allowlist(ToolProfile::Custom, Some(" net_echo, echo,,echo , lsp")).unwrap();
    assert_eq!(strs(&v), vec!["echo", "lsp", "net_echo"]);
}

#[test]
fn custom_allowlist_errors() {
    assert_eq!(
        resolve_tool_allowlist(ToolProfile::Custom, None),
        Err("HIPPOCAMPUS_TOOL_ALLOWLIST is required when HIPPOCAMPUS_TOOL_PROFILE=custom".to_string())
    );
    assert_eq!(
        resolve_tool_allowlist(ToolProfile::Custom, Some("   ")),
        Err("HIPPOCAMPUS_TOOL_ALLOWLIST is required when HIPPOCAMPUS_TOOL_PROFILE=custom".to_string())
    );
    assert_eq!(
        resolve_tool_allowlist(ToolProfile::Custom, Some("echo, shell")),
        Err("unknown tool name in allowlist: shell".to_string())
    );
    assert_eq!(
        resolve_tool_allowlist(ToolProfile::Custom, Some(" , ,")),
        Err("resolved tool allowlist is empty".to_string())
    );
}

#[test]
fn known_tool_names() {
    assert!(is_known_tool_name("grep_search"));
    assert!(!is_known_tool_name("shell"));
    assert!(!is_known_tool_name("Echo"));
}

fn env() -> EnvSnapshot {
    EnvSnapshot {
        run_id: None,
        workspace_root: None,
        current_dir: Ok("/work".to_string()),
        tool_profile: None,
        tool_allowlist: None,
        capability_network: None,
        capability_shell: None,
        capability_write_file: None,
        capability_lsp: None,
    }
}

#[test]
fn context_from_env_defaults() {
    let c = PromptContext::from_env_values(env()).unwrap();
    assert_eq!(c.run_id, None);
    assert_eq!(c.workspace_root, "/work");
    assert_eq!(c.tool_profile, ToolProfile::Coding);
    assert_eq!(c.allowed_tool_names.len(), 6);
    assert!(!c.capability_network && !c.capability_shell && !c.capability_write_file && !c.capability_lsp);
}

#[test]
fn context_from_env_values_and_flags() {
    let mut e = env();
    e.run_id = Some("run-7".to_string());
    e.workspace_root = Some("/ws".to_string());
    e.tool_profile = Some(" custom ".to_string());
    e.tool_allowlist = Some("echo,net_echo".to_string());
    e.capability_network = Some(" YES ".to_string());
    e.capability_shell = Some("0".to_string());
    e.capability_write_file = Some("True".to_string());
    e.capability_lsp = Some("on".to_string());
    let c = PromptContext::from_env_values(e).unwrap();
    assert_eq!(c.run_id.as_deref(), Some("run-7"));
    assert_eq!(c.workspace_root, "/ws");
    assert_eq!(c.tool_profile, ToolProfile::Custom);
    assert_eq!(strs(&c.allowed_tool_names), vec!["echo", "net_echo"]);
    assert!(c.capability_network && !c.capability_shell && c.capability_write_file && c.capability_lsp);
}

#[test]
fn context_from_env_errors() {
    let mut e = env();
    e.workspace_root = Some("  ".to_string());
    e.current_dir = Err("no cwd".to_string());
    assert_eq!(PromptContext::from_env_values(e).unwrap_err(), "no cwd");
    let mut e = env();
    e.run_id = Some("   ".to_string());
    e.tool_profile = Some("bogus".to_string());
    assert_eq!(
        PromptContext::from_env_values(e).unwrap_err(),
        "unknown tool profile: bogus"
    );
    let mut e = env();
    e.tool_profile = Some("custom".to_string());
    assert!(PromptContext::from_env_values(e).is_err());
}

#[test]
fn set_tool_profile_switches_even_on_error() {
    let mut c = PromptContext::with_workspace_root("/w".to_string());
    c.set_tool_profile(ToolProfile::Minimal, None).unwrap();
    assert_eq!(strs(&c.allowed_tool_names), vec!["echo", "read_file"]);
    let err = c.set_tool_profile(ToolProfile::Custom, None).unwrap_err();
    assert!(err.contains("HIPPOCAMPUS_TOOL_ALLOWLIST"));
    assert_eq!(c.tool_profile, ToolProfile::Custom);
    assert_eq!(strs(&c.allowed_tool_names), vec!["echo", "read_file"]);
}

#[test]
fn profile_and_capability_checks() {
    let mut c = PromptContext::with_workspace_root("/w".to_string());
    assert!(c.is_tool_allowed_by_profile("read_file"));
    assert!(!c.is_tool_allowed_by_profile("net_echo"));
    c.allowed_tool_names.clear();
    assert!(c.is_tool_allowed_by_profile("anything"));
    assert!(!c.allows_category(ToolCategory::Network));
    c.capability_lsp = true;
    assert!(c.allows_category(ToolCategory::Lsp));
    assert_eq!(ToolCategory::WriteFile.name(), "WriteFile");
}

#[test]
fn only_documented_flag_values_switch_on() {
    let mut e = env();
    e.capability_network = Some("y".to_string());
    e.capability_shell = Some("1".to_string());
    let c = PromptContext::from_env_values(e).unwrap();
    assert!(!c.capability_network);
    assert!(c.capability_shell);
}
