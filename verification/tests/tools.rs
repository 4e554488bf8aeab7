use hippocampus::tools::builtin::grep_search::{file_fits, MAX_FILE_BYTES};
use hippocampus::tools::catalog::descriptors;
use hippocampus::{assemble_tools, BuiltinTool, PromptContext};
use hippocampus::tools::builtin::echo::EchoInput;
use hippocampus::tools::builtin::glob_search::GlobScan;
use hippocampus::tools::builtin::grep_search::GrepScan;
use hippocampus::tools::builtin::list_dir::DirEntryInfo;
use hippocampus::tools::lsp_stdio::{
    file_uri, frame_message, language_id, parse_usize, zero_based, HeaderStep, LspHeaderReader,
    LspOperation, ParseIntError,
};
use hippocampus::tools::matchers::{compile_glob, compile_regex};
use hippocampus::tools::workspace_paths::{resolve_under_workspace, workspace_join, workspace_relative};
use hippocampus::{
    EchoTool, GlobSearchTool, GrepSearchTool, ListDirTool, LspTool, NetworkEchoTool, ReadFileTool,
    ToolCategory,
};

#[test]
fn read_file_respects_line_window() {
    let q = ReadFileTool::request(Some("a.txt".to_string()), Some(2), Some(2)).unwrap();
    assert_eq!((q.offset, q.limit), (2, 2));
    let w = ReadFileTool::window("L1\nL2\nL3\n", q.offset, q.limit).unwrap();
    assert_eq!(w.total_lines, 3);
    assert_eq!(w.lines, vec!["L2".to_string(), "L3".to_string()]);
}

#[test]
fn read_file_request_defaults_and_errors() {
    let q = ReadFileTool::request(Some(" x ".to_string()), Some(0), None).unwrap();
    assert_eq!((q.path.as_str(), q.offset, q.limit), (" x ", 1, 200));
    let q = ReadFileTool::request(Some("x".to_string()), None, Some(99999)).unwrap();
    assert_eq!(q.limit, 2000);
    assert_eq!(
        ReadFileTool::request(Some("  ".to_string()), None, None).err().unwrap(),
        "path is required"
    );
    assert!(ReadFileTool::request(None, None, None).is_err());
}

#[test]
fn read_file_window_edges() {
    let w = ReadFileTool::window("a\r\nb\nc", 10, 5).unwrap();
    assert_eq!(w.total_lines, 3);
    assert!(w.lines.is_empty());
    let w = ReadFileTool::window("a\r\nb\nc", 1, 2).unwrap();
    assert_eq!(w.lines, vec!["a".to_string(), "b".to_string()]);
    let big = "x".repeat(524289);
    assert_eq!(
        ReadFileTool::window(&big, 1, 1).err().unwrap(),
        "file too large (max 524288 bytes)"
    );
}

#[test]
fn read_file_rejects_escape_from_workspace() {
    let joined = workspace_join("/tmp/ws", "../a.txt");
    assert_eq!(joined, "/tmp/ws/../a.txt");
    let e = resolve_under_workspace("/tmp/ws", "/tmp/a.txt").unwrap_err();
    assert!(e.contains("workspace") || e.contains("path"), "unexpected error: {e}");
}

#[test]
fn workspace_paths() {
    assert_eq!(workspace_join("/ws", " /etc/passwd "), "/etc/passwd");
    assert_eq!(workspace_join("/", "a"), "/a");
    assert_eq!(resolve_under_workspace("/ws", "/ws/a/b").unwrap(), "/ws/a/b");
    assert_eq!(resolve_under_workspace("/ws", "/ws").unwrap(), "/ws");
    assert!(resolve_under_workspace("/ws", "/wsx/a").is_err());
    assert_eq!(resolve_under_workspace("/", "/etc").unwrap(), "/etc");
    assert_eq!(workspace_relative("/ws", "/ws/src/a\\b.rs").as_deref(), Some("src/a/b.rs"));
    assert_eq!(workspace_relative("/ws", "/other"), None);
}

fn entry(name: &str, is_dir: bool) -> DirEntryInfo {
    DirEntryInfo { name: name.to_string(), is_dir, is_file: !is_dir }
}

#[test]
fn list_dir_sorts_and_limits() {
    let q = ListDirTool::request(None, Some(0));
    assert_eq!((q.path.as_str(), q.limit), (".", 200));
    assert_eq!(ListDirTool::request(Some("src".to_string()), Some(9000)).limit, 500);
    let l = ListDirTool::listing(vec![entry("b", false), entry("a", true), entry("C", false)], 2);
    let names: Vec<&str> = l.entries.iter().map(|e| e.name.as_str()).collect();
    assert_eq!(names, vec!["C", "a"]);
    assert!(l.truncated);
    assert!(l.entries[1].is_dir);
    let l = ListDirTool::listing(vec![entry("z", false)], 1);
    assert!(!l.truncated);
}

#[test]
fn glob_scan_collects_matches() {
    let q = GlobSearchTool::request(Some("  **/*.rs ".to_string()), None).unwrap();
    assert_eq!((q.pattern.as_str(), q.path.as_str()), ("**/*.rs", "."));
    assert_eq!(
        GlobSearchTool::request(Some(" ".to_string()), None).err().unwrap(),
        "pattern is required"
    );
    let g = compile_glob(&q.pattern).unwrap();
    let mut scan = GlobScan::new();
    assert!(scan.offer("src/lib.rs", &g));
    assert!(scan.offer("README.md", &g));
    let (found, truncated) = scan.finish();
    assert_eq!(found, vec!["src/lib.rs".to_string()]);
    assert!(!truncated);
    assert!(compile_glob("a[").unwrap_err().starts_with("invalid glob: "));
}

#[test]
fn grep_scan_respects_head_limit() {
    let q = GrepSearchTool::request(Some("fn ".to_string()), Some("src".to_string())).unwrap();
    assert_eq!(q.path, "src");
    let mut scan = GrepScan::new(Some(2));
    assert_eq!(scan.head_limit(), 2);
    assert!(scan.feed_file("a.rs", "fn a() {}\nlet x = 1;\n", &q.regex));
    assert!(!scan.feed_file("b.rs", "fn b() {}\nfn c() {}\n", &q.regex));
    let (m, truncated, limit) = scan.finish();
    assert_eq!(limit, 2);
    assert!(truncated);
    assert_eq!(m.len(), 2);
    assert_eq!((m[0].path.as_str(), m[0].line, m[0].text.as_str()), ("a.rs", 1, "fn a() {}"));
    assert_eq!((m[1].path.as_str(), m[1].line), ("b.rs", 1));
    assert_eq!(GrepScan::new(None).head_limit(), 120);
    assert_eq!(GrepScan::new(Some(1000)).head_limit(), 120);
    assert!(GrepSearchTool::request(Some("(".to_string()), None)
        .err()
        .unwrap()
        .starts_with("invalid regex: "));
}

#[test]
fn grep_glob_filter() {
    assert!(GrepSearchTool::glob_filter(Some("  ".to_string())).unwrap().is_none());
    let g = GrepSearchTool::glob_filter(Some("*.md".to_string())).unwrap();
    let scan = GrepScan::new(None);
    assert!(scan.wants("README.md", &g));
    assert!(!scan.wants("lib.rs", &g));
    assert!(scan.wants("lib.rs", &None));
}

#[test]
fn echo_and_net_echo() {
    assert_eq!(EchoTool::echo_text(EchoInput::Text("hi".to_string())).as_deref(), Some("hi"));
    assert_eq!(EchoTool::echo_text(EchoInput::Object(None)).as_deref(), Some(""));
    assert_eq!(EchoTool::echo_text(EchoInput::Other), None);
    let d = NetworkEchoTool.descriptor();
    assert_eq!(d.name, "net_echo");
    assert_eq!(d.required_capabilities, vec![ToolCategory::Network]);
    assert_eq!(NetworkEchoTool::echo_url(None), "");
    assert_eq!(NetworkEchoTool::simulated_status(), "ok (simulated)");
    assert!(EchoTool.descriptor().required_capabilities.is_empty());
}

#[test]
fn lsp_request_and_helpers() {
    let t = LspTool::new("/ws".to_string(), None);
    assert_eq!(t.server_command(), "rust-analyzer");
    assert_eq!(t.descriptor().required_capabilities, vec![ToolCategory::Lsp]);
    let q = LspTool::request(
        Some(" goToDefinition ".to_string()),
        Some(" lib.rs ".to_string()),
        Some(1),
        Some(4),
    )
    .unwrap();
    assert_eq!(q.operation, LspOperation::GoToDefinition);
    assert_eq!((q.path.as_str(), q.line, q.character), ("lib.rs", 1, 4));
    assert_eq!(
        LspTool::request(Some("hover".to_string()), None, None, None).err().unwrap(),
        "unsupported lsp operation: hover"
    );
    assert_eq!(
        LspTool::request(Some("find_references".to_string()), Some("a".to_string()), Some(0), Some(1))
            .err()
            .unwrap(),
        "line must be a 1-based integer >= 1"
    );
    assert_eq!(
        LspTool::request(Some("find_references".to_string()), Some("a".to_string()), Some(1), Some(1u64 << 40))
            .err()
            .unwrap(),
        "character must be a 1-based integer >= 1"
    );
    assert_eq!(LspOperation::FindReferences.method(), "textDocument/references");
    assert_eq!(LspOperation::GoToDefinition.label(), "go_to_definition");
    assert_eq!(zero_based(1), 0);
    assert_eq!(zero_based(0), 0);
}

#[test]
fn language_ids() {
    assert_eq!(language_id("/ws/src/main.rs"), "rust");
    assert_eq!(language_id("/ws/a.tsx"), "typescript");
    assert_eq!(language_id("/ws/a.mjs"), "javascript");
    assert_eq!(language_id("/ws/x.hpp"), "cpp");
    assert_eq!(language_id("/ws/.bashrc"), "plaintext");
    assert_eq!(language_id("/ws/Makefile"), "plaintext");
    assert_eq!(language_id("/ws/a.tar.md/"), "markdown");
}

#[test]
fn file_uris() {
    assert_eq!(file_uri("/ws/a b.rs").unwrap(), "file:///ws/a%20b.rs");
    assert_eq!(file_uri("relative.rs").unwrap_err(), "invalid file path for URL");
}

#[test]
fn lsp_framing_and_headers() {
    assert_eq!(frame_message(b"{}"), b"Content-Length: 2\r\n\r\n{}".to_vec());
    let mut r = LspHeaderReader::new();
    assert!(matches!(r.feed_line("Content-Type: x\r\n"), HeaderStep::More));
    assert!(matches!(r.feed_line("Content-Length:  17 \r\n"), HeaderStep::More));
    assert!(matches!(r.feed_line("\r\n"), HeaderStep::Body(17)));
    let mut r = LspHeaderReader::new();
    match r.feed_line("\n") {
        HeaderStep::Failed(e) => assert_eq!(e, "missing Content-Length in LSP message"),
        _ => panic!("expected failure"),
    }
    match r.feed_line("Content-Length: x1\n") {
        HeaderStep::Failed(e) => assert_eq!(e, "Content-Length: invalid digit found in string"),
        _ => panic!("expected failure"),
    }
    let c = |s: &str| s.chars().collect::<Vec<char>>();
    assert_eq!(parse_usize(&c("+42")), Ok(42));
    assert_eq!(parse_usize(&c("")), Err(ParseIntError::Empty));
    assert_eq!(parse_usize(&c("+")), Err(ParseIntError::InvalidDigit));
    assert_eq!(parse_usize(&c("-1")), Err(ParseIntError::InvalidDigit));
    assert_eq!(parse_usize(&c("99999999999999999999999")), Err(ParseIntError::PosOverflow));
}

#[test]
fn regex_compiles() {
    assert!(compile_regex("a+").is_ok());
}

#[test]
fn grep_skips_large_files() {
    assert!(file_fits(MAX_FILE_BYTES));
    assert!(!file_fits(MAX_FILE_BYTES + 1));
}

#[test]
fn assembled_tools_carry_root_and_lsp_command() {
    let mut ctx = PromptContext::with_workspace_root("/ws".to_string());
    ctx.allowed_tool_names = vec!["lsp".to_string(), "read_file".to_string()];
    let tools = assemble_tools(&ctx, Some("pylsp".to_string())).unwrap();
    match &tools[0] {
        BuiltinTool::Lsp(t) => {
            assert_eq!(t.server_command(), "pylsp");
            assert_eq!(t.workspace_root(), "/ws");
        }
        _ => panic!("expected the lsp tool"),
    }
    let d = descriptors(&tools);
    assert_eq!(d[0].required_capabilities, vec![ToolCategory::Lsp]);
    assert_eq!(d[1].name, "read_file");
    let tools = assemble_tools(&ctx, None).unwrap();
    match &tools[0] {
        BuiltinTool::Lsp(t) => assert_eq!(t.server_command(), "rust-analyzer"),
        _ => panic!("expected the lsp tool"),
    }
    ctx.allowed_tool_names = vec!["shell".to_string()];
    assert_eq!(
        assemble_tools(&ctx, None).err().unwrap(),
        "unknown tool in PromptContext.allowed_tool_names: shell"
    );
}

#[test]
fn framed_message_reads_back() {
    let body = "{\"jsonrpc\":\"2.0\",\"id\":7,\"result\":null}".repeat(40);
    let framed = frame_message(body.as_bytes());
    let text = String::from_utf8(framed).unwrap();
    let mut rest = text.as_str();
    let mut r = LspHeaderReader::new();
    let len = loop {
        let end = rest.find('\n').unwrap() + 1;
        let (line, tail) = rest.split_at(end);
        rest = tail;
        match r.feed_line(line) {
            HeaderStep::More => {}
            HeaderStep::Body(n) => break n,
            HeaderStep::Failed(e) => panic!("{e}"),
        }
    };
    assert_eq!(len, body.len());
    assert_eq!(rest, body);
}
