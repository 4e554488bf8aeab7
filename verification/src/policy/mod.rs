//! Tool policy: profiles, capability categories and the run context.

pub mod categories;
pub mod context;
pub mod tool_profile;

pub use categories::ToolCategory;
pub use context::PromptContext;
pub use tool_profile::{resolve_tool_allowlist, ToolProfile};
