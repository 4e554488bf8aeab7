use vstd::prelude::*;

verus! {

/// Danger classes of tools, enforced at execution time against the
/// capability switches of the run context.
#[derive(Debug, Clone, Copy, PartialEq, Eq, Hash, Structural)]
pub enum ToolCategory {
    Network,
    Shell,
    WriteFile,
    /// Starting and talking to a language server over stdio.
    Lsp,
}

/// The name that `Debug` prints for a category.
pub open spec fn category_name(c: ToolCategory) -> Seq<char> {
    match c {
        ToolCategory::Network => "Network"@,
        ToolCategory::Shell => "Shell"@,
        ToolCategory::WriteFile => "WriteFile"@,
        ToolCategory::Lsp => "Lsp"@,
    }
}

impl ToolCategory {
    /// The variant's name, as `Debug` prints it.
    pub fn name(self) -> (r: &'static str)
        ensures
            r@ == category_name(self),
    {
        match self {
            ToolCategory::Network => "Network",
            ToolCategory::Shell => "Shell",
            ToolCategory::WriteFile => "WriteFile",
            ToolCategory::Lsp => "Lsp",
        }
    }
}

} // verus!
