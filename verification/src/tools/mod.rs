//! Tools: call and result types, dispatch policy, and the built-in tools.

pub mod builtin;
pub mod catalog;
pub mod dispatch;
pub mod lsp_session;
pub mod lsp_stdio;
pub mod matchers;
pub mod types;
pub mod workspace_paths;

pub use builtin::{
    EchoTool, GlobSearchTool, GrepSearchTool, ListDirTool, LspTool, NetworkEchoTool, ReadFileTool,
};
pub use catalog::{assemble_tools, descriptors, BuiltinTool};
pub use dispatch::{
    observation_text, parse_action_input_json, prepare_tool_call, Dispatch, ToolDescriptor,
    MAX_TOOL_OBSERVATION_CHARS,
};
pub use types::{ToolCall, ToolCallId, ToolErrorKind, ToolResult};

pub use crate::policy::ToolCategory;
