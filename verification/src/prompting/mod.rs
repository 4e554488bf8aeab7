//! The model prompt: static sections, the harness context and the
//! workspace documents.

pub mod render;
pub mod workspace;

pub use render::{build_prompt, PROMPT_CORE, PROMPT_REACT, PROMPT_SAFETY};
pub use workspace::{render_workspace_docs_section, WorkspaceDocs};
