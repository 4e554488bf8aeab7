use vstd::prelude::*;

use crate::policy::context::MAX_WORKSPACE_PROMPT_FILE_CHARS;
use crate::text::{
    append_chars, append_str, chars_of, string_of, trim, trim_chars, trim_str, truncate_chars,
    truncated_to,
};

verus! {

/// The contents of the optional workspace documents (`None` when a file is
/// missing or unreadable).
pub struct WorkspaceDocs {
    pub agents_md: Option<String>,
    pub tools_md: Option<String>,
}

/// The note appended to a document that was cut.
pub open spec fn truncation_note() -> Seq<char> {
    "\n\n> 注意：该文件内容已截断到前 20000 个 Unicode 字符。"@
}

/// The block a workspace document contributes: its trimmed contents cut to
/// `MAX_WORKSPACE_PROMPT_FILE_CHARS` characters under a heading, with a note
/// when cut; none for a missing or blank document.
pub open spec fn doc_block(filename: Seq<char>, content: Option<String>) -> Option<Seq<char>> {
    match content {
        None => None,
        Some(c) => {
            let t = trim(c@);
            if t.len() == 0 {
                None
            } else {
                let head = "## Workspace: "@ + filename + "\n\n"@ + truncated_to(
                    t,
                    MAX_WORKSPACE_PROMPT_FILE_CHARS as nat,
                );
                if t.len() > MAX_WORKSPACE_PROMPT_FILE_CHARS {
                    Some(head + truncation_note())
                } else {
                    Some(head)
                }
            }
        },
    }
}

/// A block followed by a blank line, or nothing.
pub open spec fn block_text(b: Option<Seq<char>>) -> Seq<char> {
    match b {
        Some(t) => t + "\n\n"@,
        None => Seq::empty(),
    }
}

/// The workspace section of the prompt: `AGENTS.md` then `TOOLS.md`.
pub open spec fn workspace_section(docs: WorkspaceDocs) -> Seq<char> {
    trim(
        block_text(doc_block("AGENTS.md"@, docs.agents_md)) + block_text(
            doc_block("TOOLS.md"@, docs.tools_md),
        ),
    )
}

fn read_optional_workspace_file(filename: &str, content: &Option<String>) -> (r: Option<Vec<char>>)
    ensures
        match r {
            Some(v) => doc_block(filename@, *content) == Some(v@),
            None => doc_block(filename@, *content) is None,
        },
{
    match content {
        None => None,
        Some(c) => {
            let t = trim_str(c.as_str());
            if t.len() == 0 {
                return None;
            }
            let cut = truncate_chars(t.as_slice(), MAX_WORKSPACE_PROMPT_FILE_CHARS);
            let mut block = chars_of("## Workspace: ");
            append_str(&mut block, filename);
            append_str(&mut block, "\n\n");
            append_chars(&mut block, cut.as_slice());
            if t.len() > MAX_WORKSPACE_PROMPT_FILE_CHARS {
                append_str(&mut block, "\n\n> 注意：该文件内容已截断到前 20000 个 Unicode 字符。");
            }
            Some(block)
        },
    }
}

/// Renders the workspace documents section (empty when there is none).
pub fn render_workspace_docs_section(docs: &WorkspaceDocs) -> (r: String)
    ensures
        r@ == workspace_section(*docs),
{
    let mut out: Vec<char> = Vec::new();
    match read_optional_workspace_file("AGENTS.md", &docs.agents_md) {
        Some(b) => {
            append_chars(&mut out, b.as_slice());
            append_str(&mut out, "\n\n");
        },
        None => {},
    }
    match read_optional_workspace_file("TOOLS.md", &docs.tools_md) {
        Some(b) => {
            append_chars(&mut out, b.as_slice());
            append_str(&mut out, "\n\n");
        },
        None => {},
    }
    assert(out@ =~= block_text(doc_block("AGENTS.md"@, docs.agents_md)) + block_text(
        doc_block("TOOLS.md"@, docs.tools_md),
    ));
    string_of(trim_chars(out.as_slice()).as_slice())
}

} // verus!
