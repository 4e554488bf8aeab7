//! A small ReAct-style agent harness: the model alternates Thought, Action and
//! Observation until it gives a Final Answer.  This crate holds the verified
//! core: the text protocol, tool policy, prompt rendering, tool dispatch and
//! the computations of the built-in tools.

pub mod cli;
pub mod json;
pub mod llm;
pub mod policy;
pub mod prompting;
pub mod react;
pub mod text;
pub mod tools;

pub use llm::ProviderRegistry;
pub use policy::context::{EnvSnapshot, MAX_WORKSPACE_PROMPT_FILE_CHARS};
pub use policy::{PromptContext, ToolCategory, ToolProfile};
pub use prompting::WorkspaceDocs;
pub use react::{ReactConfig, ReactError, ReactLoop, ReactRun, TurnOutcome};
pub use tools::{
    assemble_tools, BuiltinTool, EchoTool, GlobSearchTool, GrepSearchTool, ListDirTool, LspTool,
    NetworkEchoTool, ReadFileTool, ToolDescriptor,
};
