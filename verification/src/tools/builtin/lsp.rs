use vstd::prelude::*;

use crate::policy::categories::ToolCategory;
use crate::text::{chars_of, string_of, trim, trim_str};
use crate::tools::dispatch::{descriptor_of, ToolDescriptor};
use crate::tools::lsp_stdio::{operation_for, LspOperation};

verus! {

pub const LSP_NAME: &'static str = "lsp";

pub const LSP_DESCRIPTION: &'static str = "Language Server Protocol (stdio): go_to_definition | find_references at path:line:character (1-based). Requires HIPPOCAMPUS_CAPABILITY_LSP and a working LSP binary (default rust-analyzer).";

pub const LSP_SCHEMA: &'static str = "{\n  \"type\": \"object\",\n  \"additionalProperties\": false,\n  \"properties\": {\n    \"operation\": {\n      \"type\": \"string\",\n      \"enum\": [\"go_to_definition\", \"goToDefinition\", \"find_references\", \"findReferences\"]\n    },\n    \"path\": { \"type\": \"string\", \"minLength\": 1 },\n    \"line\": { \"type\": \"integer\", \"minimum\": 1 },\n    \"character\": { \"type\": \"integer\", \"minimum\": 1 }\n  },\n  \"required\": [\"operation\", \"path\", \"line\", \"character\"]\n}";

/// The language server started when none is configured.
pub const DEFAULT_LSP_COMMAND: &'static str = "rust-analyzer";

/// Go-to-definition and find-references through a language server over
/// stdio; positions are 1-based, as editors show them.
pub struct LspTool {
    workspace_root: String,
    server_command: String,
}

/// A query the tool was asked for.
pub struct LspRequest {
    pub operation: LspOperation,
    /// The file, trimmed.
    pub path: String,
    /// 1-based line.
    pub line: u32,
    /// 1-based character.
    pub character: u32,
}

/// A 1-based position field: an integer from 1 to `u32::MAX`.
pub open spec fn position_field(v: Option<u64>) -> Option<u32> {
    match v {
        Some(n) => if 1 <= n <= u32::MAX {
            Some(n as u32)
        } else {
            None
        },
        None => None,
    }
}

fn position_exec(v: Option<u64>) -> (r: Option<u32>)
    ensures
        r == position_field(v),
{
    match v {
        Some(n) => if 1 <= n && n <= u32::MAX as u64 {
            Some(n as u32)
        } else {
            None
        },
        None => None,
    }
}

/// The operation name of a request, empty when absent.
pub open spec fn operation_text(v: Option<String>) -> Seq<char> {
    match v {
        Some(s) => s@,
        None => Seq::empty(),
    }
}

impl LspTool {
    /// A tool for a workspace; the server command defaults to
    /// `rust-analyzer`.
    pub fn new(workspace_root: String, server_command: Option<String>) -> (r: Self)
        ensures
            r.root() == workspace_root@,
            r.command() == (match server_command {
                Some(c) => c@,
                None => DEFAULT_LSP_COMMAND@,
            }),
    {
        let server_command = match server_command {
            Some(c) => c,
            None => string_of(chars_of(DEFAULT_LSP_COMMAND).as_slice()),
        };
        LspTool { workspace_root, server_command }
    }

    pub closed spec fn root(&self) -> Seq<char> {
        self.workspace_root@
    }

    pub closed spec fn command(&self) -> Seq<char> {
        self.server_command@
    }

    pub fn workspace_root(&self) -> (r: &str)
        ensures
            r@ == self.root(),
    {
        self.workspace_root.as_str()
    }

    pub fn server_command(&self) -> (r: &str)
        ensures
            r@ == self.command(),
    {
        self.server_command.as_str()
    }

    /// Name, description, capabilities (LSP) and input schema.
    pub fn descriptor(&self) -> (r: ToolDescriptor)
        ensures
            r.name@ == LSP_NAME@,
            r.description@ == LSP_DESCRIPTION@,
            r.required_capabilities@ == seq![ToolCategory::Lsp],
            r.input_schema@ == LSP_SCHEMA@,
    {
        let mut caps: Vec<ToolCategory> = Vec::new();
        caps.push(ToolCategory::Lsp);
        descriptor_of(LSP_NAME, LSP_DESCRIPTION, caps, LSP_SCHEMA)
    }

    /// Reads the input fields, in order: the operation, the (non-blank)
    /// path, and the 1-based line and character.
    pub fn request(
        operation: Option<String>,
        path: Option<String>,
        line: Option<u64>,
        character: Option<u64>,
    ) -> (r: Result<LspRequest, String>)
        ensures
            match r {
                Ok(q) => {
                    &&& operation_for(trim(operation_text(operation))) == Some(q.operation)
                    &&& path matches Some(p) && trim(p@).len() > 0 && q.path@ == trim(p@)
                    &&& position_field(line) == Some(q.line)
                    &&& position_field(character) == Some(q.character)
                },
                Err(e) => if operation_for(trim(operation_text(operation))) is None {
                    e@ == "unsupported lsp operation: "@ + trim(operation_text(operation))
                } else if path is None || trim(path->0@).len() == 0 {
                    e@ == "path is required"@
                } else if position_field(line) is None {
                    e@ == "line must be a 1-based integer >= 1"@
                } else {
                    position_field(character) is None && e@
                        == "character must be a 1-based integer >= 1"@
                },
            },
    {
        let op = match &operation {
            Some(s) => LspOperation::parse(s.as_str())?,
            None => {
                let empty = string_of(Vec::<char>::new().as_slice());
                LspOperation::parse(empty.as_str())?
            },
        };
        let p = match &path {
            Some(p) => trim_str(p.as_str()),
            None => Vec::new(),
        };
        if p.len() == 0 {
            return Err(string_of(chars_of("path is required").as_slice()));
        }
        let l = match position_exec(line) {
            Some(l) => l,
            None => {
                return Err(string_of(chars_of("line must be a 1-based integer >= 1").as_slice()));
            },
        };
        let c = match position_exec(character) {
            Some(c) => c,
            None => {
                return Err(
                    string_of(chars_of("character must be a 1-based integer >= 1").as_slice()),
                );
            },
        };
        Ok(LspRequest { operation: op, path: string_of(p.as_slice()), line: l, character: c })
    }
}

} // verus!
