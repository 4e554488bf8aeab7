use vstd::prelude::*;

use crate::policy::tool_profile::strings_view;
use crate::text::{chars_of, lines_of, lines_str, string_of, trim, trim_str};
use crate::tools::dispatch::{descriptor_of, ToolDescriptor};

verus! {

pub const READ_FILE_NAME: &'static str = "read_file";

pub const READ_FILE_DESCRIPTION: &'static str = "Read a UTF-8 text file under workspace_root (line slice via offset/limit).";

pub const READ_FILE_SCHEMA: &'static str = "{\n  \"type\": \"object\",\n  \"additionalProperties\": false,\n  \"properties\": {\n    \"path\": { \"type\": \"string\", \"minLength\": 1 },\n    \"offset\": { \"type\": \"integer\", \"minimum\": 1 },\n    \"limit\": { \"type\": \"integer\", \"minimum\": 1, \"maximum\": 2000 }\n  },\n  \"required\": [\"path\"]\n}";

/// Largest file read, in bytes.
pub const MAX_READ_BYTES: usize = 524288;

/// Most lines returned by one read.
pub const MAX_LINE_LIMIT: u64 = 2000;

/// Lines returned when no limit is given.
pub const DEFAULT_LINE_LIMIT: u64 = 200;

/// Reads a UTF-8 text file of the workspace, by 1-based line window.
pub struct ReadFileTool {
    workspace_root: String,
}

/// The value when it is present and at least 1, else the default.
pub open spec fn positive_or(v: Option<u64>, default: u64) -> u64 {
    match v {
        Some(n) => if n >= 1 {
            n
        } else {
            default
        },
        None => default,
    }
}

/// A present value of at least 1 is kept as it is; an absent one, or 0,
/// gives the default.
pub proof fn lemma_positive_or(n: u64, default: u64)
    ensures
        n >= 1 ==> positive_or(Some(n), default) == n,
        positive_or(Some(0), default) == default,
        positive_or(None, default) == default,
{
}

pub fn positive_or_exec(v: Option<u64>, default: u64) -> (r: u64)
    ensures
        r == positive_or(v, default),
{
    match v {
        Some(n) => if n >= 1 {
            n
        } else {
            default
        },
        None => default,
    }
}

/// A read the tool was asked for.
pub struct ReadFileRequest {
    /// The path as given (the workspace join trims it).
    pub path: String,
    /// First line, 1-based.
    pub offset: u64,
    /// Most lines to return.
    pub limit: u64,
}

/// The lines of a file that a read returns.
pub struct LineWindow {
    pub total_lines: u64,
    pub lines: Vec<String>,
}

pub open spec fn min_int(a: int, b: int) -> int {
    if a <= b {
        a
    } else {
        b
    }
}

/// The first index of the window (0-based).
pub open spec fn window_start(total: nat, offset: u64) -> int {
    min_int(if offset >= 1 { offset - 1 } else { 0 }, total as int)
}

/// One past the last index of the window.
pub open spec fn window_end(total: nat, offset: u64, limit: u64) -> int {
    min_int(window_start(total, offset) + min_int(limit as int, MAX_LINE_LIMIT as int), total as int)
}

impl ReadFileTool {
    pub fn new(workspace_root: String) -> (r: Self)
        ensures
            r.root() == workspace_root@,
    {
        ReadFileTool { workspace_root }
    }

    /// The workspace root the tool reads under.
    pub closed spec fn root(&self) -> Seq<char> {
        self.workspace_root@
    }

    pub fn workspace_root(&self) -> (r: &str)
        ensures
            r@ == self.root(),
    {
        self.workspace_root.as_str()
    }

    /// Name, description, capabilities (none) and input schema.
    pub fn descriptor(&self) -> (r: ToolDescriptor)
        ensures
            r.name@ == READ_FILE_NAME@,
            r.description@ == READ_FILE_DESCRIPTION@,
            r.required_capabilities@ == Seq::<crate::policy::ToolCategory>::empty(),
            r.input_schema@ == READ_FILE_SCHEMA@,
    {
        descriptor_of(READ_FILE_NAME, READ_FILE_DESCRIPTION, Vec::new(), READ_FILE_SCHEMA)
    }

    /// Reads the input fields: the path must not be blank; the offset
    /// defaults to 1 and the limit to 200, a value below 1 counting as
    /// absent, and the limit is capped at 2000.
    pub fn request(path: Option<String>, offset: Option<u64>, limit: Option<u64>) -> (r: Result<
        ReadFileRequest,
        String,
    >)
        ensures
            match r {
                Ok(q) => path == Some(q.path) && trim(q.path@).len() > 0 && q.offset
                    == positive_or(offset, 1) && q.limit == (if positive_or(limit, DEFAULT_LINE_LIMIT)
                    <= MAX_LINE_LIMIT {
                    positive_or(limit, DEFAULT_LINE_LIMIT)
                } else {
                    MAX_LINE_LIMIT
                }),
                Err(e) => (path is None || trim(path->0@).len() == 0) && e@ == "path is required"@,
            },
    {
        let p = match path {
            Some(p) => p,
            None => {
                return Err(string_of(chars_of("path is required").as_slice()));
            },
        };
        if trim_str(p.as_str()).len() == 0 {
            return Err(string_of(chars_of("path is required").as_slice()));
        }
        let offset = positive_or_exec(offset, 1);
        let limit = positive_or_exec(limit, DEFAULT_LINE_LIMIT);
        let limit = if limit <= MAX_LINE_LIMIT {
            limit
        } else {
            MAX_LINE_LIMIT
        };
        Ok(ReadFileRequest { path: p, offset, limit })
    }

    /// The window of a file's text: fails for a file over `MAX_READ_BYTES`
    /// bytes, else gives the line count and the lines from `offset`
    /// (1-based), at most `limit` (capped at 2000) of them.
    pub fn window(raw: &str, offset: u64, limit: u64) -> (r: Result<LineWindow, String>)
        ensures
            match r {
                Err(e) => raw.len() > MAX_READ_BYTES && e@
                    == "file too large (max 524288 bytes)"@,
                Ok(w) => {
                    let ls = lines_of(raw@);
                    &&& raw.len() <= MAX_READ_BYTES
                    &&& w.total_lines == ls.len()
                    &&& strings_view(w.lines@) == ls.subrange(
                        window_start(ls.len(), offset),
                        window_end(ls.len(), offset, limit),
                    )
                },
            },
    {
        if raw.len() > MAX_READ_BYTES {
            return Err(string_of(chars_of("file too large (max 524288 bytes)").as_slice()));
        }
        let lines = lines_str(raw);
        let ghost ls = lines_of(raw@);
        let total = lines.len();
        let start0: u64 = if offset >= 1 {
            offset - 1
        } else {
            0
        };
        let start: usize = if start0 <= total as u64 {
            start0 as usize
        } else {
            total
        };
        let lim: u64 = if limit <= MAX_LINE_LIMIT {
            limit
        } else {
            MAX_LINE_LIMIT
        };
        let end: usize = if (total - start) as u64 <= lim {
            total
        } else {
            start + lim as usize
        };
        let mut out: Vec<String> = Vec::new();
        let mut i: usize = start;
        while i < end
            invariant
                start <= i <= end <= total == lines@.len(),
                ls == crate::text::seqs_view(lines@),
                out@.len() == i - start,
                forall|k: int| 0 <= k < i - start ==> (#[trigger] out@[k])@ == ls[start + k],
            decreases end - i,
        {
            out.push(string_of(lines[i].as_slice()));
            i = i + 1;
        }
        assert(strings_view(out@) =~= ls.subrange(start as int, end as int));
        assert(start == window_start(ls.len(), offset));
        assert(end == window_end(ls.len(), offset, limit));
        Ok(LineWindow { total_lines: total as u64, lines: out })
    }
}

} // verus!
