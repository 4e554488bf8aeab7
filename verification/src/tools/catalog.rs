use vstd::prelude::*;

use super::builtin::{
    EchoTool, GlobSearchTool, GrepSearchTool, ListDirTool, LspTool, NetworkEchoTool, ReadFileTool,
};
use super::builtin::echo::{ECHO_DESCRIPTION, ECHO_SCHEMA};
use super::builtin::glob_search::{GLOB_SEARCH_DESCRIPTION, GLOB_SEARCH_SCHEMA};
use super::builtin::grep_search::{GREP_SEARCH_DESCRIPTION, GREP_SEARCH_SCHEMA};
use super::builtin::list_dir::{LIST_DIR_DESCRIPTION, LIST_DIR_SCHEMA};
use super::builtin::lsp::{DEFAULT_LSP_COMMAND, LSP_DESCRIPTION, LSP_SCHEMA};
use super::builtin::net_echo::{NET_ECHO_DESCRIPTION, NET_ECHO_SCHEMA};
use super::builtin::read_file::{READ_FILE_DESCRIPTION, READ_FILE_SCHEMA};
use super::dispatch::ToolDescriptor;
use crate::policy::categories::ToolCategory;
use crate::policy::context::PromptContext;
use crate::policy::tool_profile::strings_view;
use crate::text::{append_str, chars_eq_str, chars_of, string_of};

verus! {

/// One built-in tool.
pub enum BuiltinTool {
    Echo(EchoTool),
    NetworkEcho(NetworkEchoTool),
    ReadFile(ReadFileTool),
    ListDir(ListDirTool),
    GlobSearch(GlobSearchTool),
    GrepSearch(GrepSearchTool),
    Lsp(LspTool),
}

/// The name of a built-in tool.
pub open spec fn builtin_name(t: BuiltinTool) -> Seq<char> {
    match t {
        BuiltinTool::Echo(_) => "echo"@,
        BuiltinTool::NetworkEcho(_) => "net_echo"@,
        BuiltinTool::ReadFile(_) => "read_file"@,
        BuiltinTool::ListDir(_) => "list_dir"@,
        BuiltinTool::GlobSearch(_) => "glob_search"@,
        BuiltinTool::GrepSearch(_) => "grep_search"@,
        BuiltinTool::Lsp(_) => "lsp"@,
    }
}

/// Whether `name` names a built-in tool.
pub open spec fn builtin_named(name: Seq<char>) -> bool {
    name == "echo"@ || name == "net_echo"@ || name == "read_file"@ || name == "list_dir"@ || name
        == "glob_search"@ || name == "grep_search"@ || name == "lsp"@
}

/// The workspace root a built-in tool works under (none for the echo
/// tools).
pub open spec fn builtin_root(t: BuiltinTool) -> Option<Seq<char>> {
    match t {
        BuiltinTool::Echo(_) => None,
        BuiltinTool::NetworkEcho(_) => None,
        BuiltinTool::ReadFile(x) => Some(x.root()),
        BuiltinTool::ListDir(x) => Some(x.root()),
        BuiltinTool::GlobSearch(x) => Some(x.root()),
        BuiltinTool::GrepSearch(x) => Some(x.root()),
        BuiltinTool::Lsp(x) => Some(x.root()),
    }
}

/// An `lsp` tool starts the given server command, `rust-analyzer` when none
/// is given.
pub open spec fn lsp_command_ok(t: BuiltinTool, lsp_command: Option<String>) -> bool {
    t matches BuiltinTool::Lsp(x) ==> x.command() == (match lsp_command {
        Some(c) => c@,
        None => DEFAULT_LSP_COMMAND@,
    })
}

/// The first name that is not a built-in tool.
pub open spec fn first_not_builtin(names: Seq<Seq<char>>) -> Option<Seq<char>>
    decreases names.len(),
{
    if names.len() == 0 {
        None
    } else if !builtin_named(names[0]) {
        Some(names[0])
    } else {
        first_not_builtin(names.drop_first())
    }
}

/// The description, required capabilities and input schema of a built-in
/// tool.
pub open spec fn builtin_shape(t: BuiltinTool) -> (Seq<char>, Seq<ToolCategory>, Seq<char>) {
    match t {
        BuiltinTool::Echo(_) => (ECHO_DESCRIPTION@, Seq::empty(), ECHO_SCHEMA@),
        BuiltinTool::NetworkEcho(_) => (
            NET_ECHO_DESCRIPTION@,
            seq![ToolCategory::Network],
            NET_ECHO_SCHEMA@,
        ),
        BuiltinTool::ReadFile(_) => (READ_FILE_DESCRIPTION@, Seq::empty(), READ_FILE_SCHEMA@),
        BuiltinTool::ListDir(_) => (LIST_DIR_DESCRIPTION@, Seq::empty(), LIST_DIR_SCHEMA@),
        BuiltinTool::GlobSearch(_) => (
            GLOB_SEARCH_DESCRIPTION@,
            Seq::empty(),
            GLOB_SEARCH_SCHEMA@,
        ),
        BuiltinTool::GrepSearch(_) => (
            GREP_SEARCH_DESCRIPTION@,
            Seq::empty(),
            GREP_SEARCH_SCHEMA@,
        ),
        BuiltinTool::Lsp(_) => (LSP_DESCRIPTION@, seq![ToolCategory::Lsp], LSP_SCHEMA@),
    }
}

impl BuiltinTool {
    /// The tool's descriptor.
    pub fn descriptor(&self) -> (r: ToolDescriptor)
        ensures
            r.name@ == builtin_name(*self),
            (r.description@, r.required_capabilities@, r.input_schema@) == builtin_shape(*self),
    {
        proof {
            reveal_strlit("echo");
        }
        match self {
            BuiltinTool::Echo(t) => t.descriptor(),
            BuiltinTool::NetworkEcho(t) => t.descriptor(),
            BuiltinTool::ReadFile(t) => t.descriptor(),
            BuiltinTool::ListDir(t) => t.descriptor(),
            BuiltinTool::GlobSearch(t) => t.descriptor(),
            BuiltinTool::GrepSearch(t) => t.descriptor(),
            BuiltinTool::Lsp(t) => t.descriptor(),
        }
    }
}

/// The descriptors of a list of tools.
pub fn descriptors(tools: &[BuiltinTool]) -> (r: Vec<ToolDescriptor>)
    ensures
        r@.len() == tools@.len(),
        forall|i: int| 0 <= i < tools@.len() ==> (#[trigger] r@[i]).name@ == builtin_name(tools@[i]),
        forall|i: int|
            0 <= i < tools@.len() ==> ((#[trigger] r@[i]).description@, r@[i].required_capabilities@,
            r@[i].input_schema@) == builtin_shape(tools@[i]),
{
    let mut r: Vec<ToolDescriptor> = Vec::new();
    let mut i: usize = 0;
    while i < tools.len()
        invariant
            0 <= i <= tools@.len(),
            r@.len() == i,
            forall|k: int| 0 <= k < i ==> (#[trigger] r@[k]).name@ == builtin_name(tools@[k]),
            forall|k: int|
                0 <= k < i ==> ((#[trigger] r@[k]).description@, r@[k].required_capabilities@,
                r@[k].input_schema@) == builtin_shape(tools@[k]),
        decreases tools@.len() - i,
    {
        r.push(tools[i].descriptor());
        i = i + 1;
    }
    r
}

fn tool_for(name: &str, root: &String, lsp_command: &Option<String>) -> (r: Option<BuiltinTool>)
    ensures
        match r {
            Some(t) => builtin_named(name@) && builtin_name(t) == name@ && (builtin_root(t) matches Some(
                w,
            ) ==> w == root@) && lsp_command_ok(t, *lsp_command),
            None => !builtin_named(name@),
        },
{
    let n = chars_of(name);
    let n = n.as_slice();
    let copy_root = || -> (s: String)
        ensures
            s@ == root@,
    { string_of(chars_of(root.as_str()).as_slice()) };
    if chars_eq_str(n, "echo") {
        Some(BuiltinTool::Echo(EchoTool))
    } else if chars_eq_str(n, "net_echo") {
        Some(BuiltinTool::NetworkEcho(NetworkEchoTool))
    } else if chars_eq_str(n, "read_file") {
        Some(BuiltinTool::ReadFile(ReadFileTool::new(copy_root())))
    } else if chars_eq_str(n, "list_dir") {
        Some(BuiltinTool::ListDir(ListDirTool::new(copy_root())))
    } else if chars_eq_str(n, "glob_search") {
        Some(BuiltinTool::GlobSearch(GlobSearchTool::new(copy_root())))
    } else if chars_eq_str(n, "grep_search") {
        Some(BuiltinTool::GrepSearch(GrepSearchTool::new(copy_root())))
    } else if chars_eq_str(n, "lsp") {
        let cmd = match lsp_command {
            Some(c) => Some(string_of(chars_of(c.as_str()).as_slice())),
            None => None,
        };
        Some(BuiltinTool::Lsp(LspTool::new(copy_root(), cmd)))
    } else {
        None
    }
}

/// Builds the tools of a context, one per allowed name and in its order;
/// every tool works under the context's workspace root.  A name that is not
/// a built-in tool is an error.
pub fn assemble_tools(ctx: &PromptContext, lsp_command: Option<String>) -> (r: Result<
    Vec<BuiltinTool>,
    String,
>)
    ensures
        match r {
            Ok(v) => {
                &&& first_not_builtin(strings_view(ctx.allowed_tool_names@)) is None
                &&& v@.len() == ctx.allowed_tool_names@.len()
                &&& forall|i: int|
                    0 <= i < v@.len() ==> builtin_name(#[trigger] v@[i])
                        == ctx.allowed_tool_names@[i]@ && (builtin_root(v@[i]) matches Some(w) ==> w
                        == ctx.workspace_root@) && lsp_command_ok(v@[i], lsp_command)
            },
            Err(e) => first_not_builtin(strings_view(ctx.allowed_tool_names@)) matches Some(n) && e@
                == "unknown tool in PromptContext.allowed_tool_names: "@ + n,
        },
{
    let ghost names = strings_view(ctx.allowed_tool_names@);
    let mut out: Vec<BuiltinTool> = Vec::new();
    let mut i: usize = 0;
    assert(names.skip(0) == names);
    while i < ctx.allowed_tool_names.len()
        invariant
            0 <= i <= ctx.allowed_tool_names@.len(),
            names == strings_view(ctx.allowed_tool_names@),
            first_not_builtin(names) == first_not_builtin(names.skip(i as int)),
            out@.len() == i,
            forall|k: int|
                0 <= k < i ==> builtin_name(#[trigger] out@[k]) == ctx.allowed_tool_names@[k]@ && (
                builtin_root(out@[k]) matches Some(w) ==> w == ctx.workspace_root@) && lsp_command_ok(
                    out@[k],
                    lsp_command,
                ),
        decreases ctx.allowed_tool_names@.len() - i,
    {
        let ghost rest = names.skip(i as int);
        assert(rest[0] == ctx.allowed_tool_names@[i as int]@);
        match tool_for(ctx.allowed_tool_names[i].as_str(), &ctx.workspace_root, &lsp_command) {
            Some(t) => {
                out.push(t);
            },
            None => {
                let mut m = chars_of("unknown tool in PromptContext.allowed_tool_names: ");
                append_str(&mut m, ctx.allowed_tool_names[i].as_str());
                assert(first_not_builtin(rest) == Some(rest[0]));
                return Err(string_of(m.as_slice()));
            },
        }
        assert(rest.drop_first() == names.skip(i + 1));
        i = i + 1;
    }
    assert(names.skip(names.len() as int) =~= Seq::<Seq<char>>::empty());
    Ok(out)
}

} // verus!
