use vstd::prelude::*;

use crate::text::{chars_of, string_of, trim, trim_str};
use crate::tools::dispatch::{descriptor_of, ToolDescriptor};
use crate::tools::matchers::{glob_is_match, glob_matches, GlobMatcher};

verus! {

pub const GLOB_SEARCH_NAME: &'static str = "glob_search";

pub const GLOB_SEARCH_DESCRIPTION: &'static str = "Find files under workspace_root matching a glob pattern (recursive walk).";

pub const GLOB_SEARCH_SCHEMA: &'static str = "{\n  \"type\": \"object\",\n  \"additionalProperties\": false,\n  \"properties\": {\n    \"pattern\": { \"type\": \"string\", \"minLength\": 1 },\n    \"path\": { \"type\": \"string\" }\n  },\n  \"required\": [\"pattern\"]\n}";

/// Most paths a search returns.
pub const MAX_GLOB_MATCHES: usize = 500;

/// Finds workspace files whose workspace-relative path matches a glob.
pub struct GlobSearchTool {
    workspace_root: String,
}

/// The trimmed pattern of a search, which must not be blank.
pub open spec fn search_pattern(pattern: Option<String>) -> Option<Seq<char>> {
    match pattern {
        Some(p) => if trim(p@).len() > 0 {
            Some(trim(p@))
        } else {
            None
        },
        None => None,
    }
}

/// The directory a search starts from: as given, or `.`.
pub open spec fn search_base(path: Option<String>) -> Seq<char> {
    match path {
        Some(p) => p@,
        None => "."@,
    }
}

/// Reads the `pattern` field: trimmed, and required.
pub fn pattern_field(pattern: Option<String>) -> (r: Result<String, String>)
    ensures
        match r {
            Ok(p) => search_pattern(pattern) == Some(p@),
            Err(e) => search_pattern(pattern) is None && e@ == "pattern is required"@,
        },
{
    match pattern {
        Some(p) => {
            let t = trim_str(p.as_str());
            if t.len() > 0 {
                Ok(string_of(t.as_slice()))
            } else {
                Err(string_of(chars_of("pattern is required").as_slice()))
            }
        },
        None => Err(string_of(chars_of("pattern is required").as_slice())),
    }
}

/// Reads the `path` field of a search: as given, or `.`.
pub fn base_field(path: Option<String>) -> (r: String)
    ensures
        r@ == search_base(path),
{
    match path {
        Some(p) => p,
        None => string_of(chars_of(".").as_slice()),
    }
}

/// A search the tool was asked for.
pub struct GlobSearchRequest {
    pub pattern: String,
    pub path: String,
}

/// The paths found so far.
pub struct GlobScan {
    matches: Vec<String>,
}

impl GlobScan {
    pub closed spec fn found(&self) -> Seq<Seq<char>> {
        crate::policy::tool_profile::strings_view(self.matches@)
    }

    pub fn new() -> (r: Self)
        ensures
            r.found() == Seq::<Seq<char>>::empty(),
    {
        let r = GlobScan { matches: Vec::new() };
        assert(r.found() =~= Seq::<Seq<char>>::empty());
        r
    }

    /// Offers the workspace-relative path of a file: kept when the glob
    /// matches it.  Tells whether the walk goes on (fewer than
    /// `MAX_GLOB_MATCHES` found).
    pub fn offer(&mut self, rel: &str, glob: &GlobMatcher) -> (more: bool)
        requires
            old(self).found().len() < MAX_GLOB_MATCHES,
        ensures
            final(self).found() == (if glob_matches(glob.pattern(), rel@) {
                old(self).found().push(rel@)
            } else {
                old(self).found()
            }),
            more == (final(self).found().len() < MAX_GLOB_MATCHES),
    {
        if glob_is_match(glob, rel) {
            let ghost before = self.found();
            self.matches.push(string_of(chars_of(rel).as_slice()));
            assert(self.found() =~= before.push(rel@));
        }
        self.matches.len() < MAX_GLOB_MATCHES
    }

    /// The paths found, and whether the walk stopped at the cap.
    pub fn finish(self) -> (r: (Vec<String>, bool))
        ensures
            crate::policy::tool_profile::strings_view(r.0@) == self.found(),
            r.1 == (self.found().len() >= MAX_GLOB_MATCHES),
    {
        let n = self.matches.len();
        (self.matches, n >= MAX_GLOB_MATCHES)
    }
}

impl GlobSearchTool {
    pub fn new(workspace_root: String) -> (r: Self)
        ensures
            r.root() == workspace_root@,
    {
        GlobSearchTool { workspace_root }
    }

    pub closed spec fn root(&self) -> Seq<char> {
        self.workspace_root@
    }

    pub fn workspace_root(&self) -> (r: &str)
        ensures
            r@ == self.root(),
    {
        self.workspace_root.as_str()
    }

    /// Name, description, capabilities (none) and input schema.
    pub fn descriptor(&self) -> (r: ToolDescriptor)
        ensures
            r.name@ == GLOB_SEARCH_NAME@,
            r.description@ == GLOB_SEARCH_DESCRIPTION@,
            r.required_capabilities@ == Seq::<crate::policy::ToolCategory>::empty(),
            r.input_schema@ == GLOB_SEARCH_SCHEMA@,
    {
        descriptor_of(GLOB_SEARCH_NAME, GLOB_SEARCH_DESCRIPTION, Vec::new(), GLOB_SEARCH_SCHEMA)
    }

    /// Reads the input fields: a non-blank pattern (trimmed) and a base
    /// directory (`.` by default).
    pub fn request(pattern: Option<String>, path: Option<String>) -> (r: Result<
        GlobSearchRequest,
        String,
    >)
        ensures
            match r {
                Ok(q) => search_pattern(pattern) == Some(q.pattern@) && q.path@ == search_base(path),
                Err(e) => search_pattern(pattern) is None && e@ == "pattern is required"@,
            },
    {
        let p = pattern_field(pattern)?;
        Ok(GlobSearchRequest { pattern: p, path: base_field(path) })
    }
}

} // verus!
