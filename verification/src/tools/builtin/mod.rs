//! The built-in tools: their descriptors and the computations their runs
//! make around the file system.

pub mod echo;
pub mod glob_search;
pub mod grep_search;
pub mod list_dir;
pub mod lsp;
pub mod net_echo;
pub mod read_file;

pub use echo::EchoTool;
pub use glob_search::GlobSearchTool;
pub use grep_search::GrepSearchTool;
pub use list_dir::ListDirTool;
pub use lsp::LspTool;
pub use net_echo::NetworkEchoTool;
pub use read_file::ReadFileTool;
