use vstd::prelude::*;

use super::glob_search::{base_field, pattern_field, search_base, search_pattern};
use super::read_file::positive_or;
use crate::text::{chars_of, lines_of, lines_str, seqs_view, string_of, trim, trim_str};
use crate::tools::dispatch::{descriptor_of, ToolDescriptor};
use crate::tools::matchers::{
    compile_glob, compile_regex, glob_compile_error, glob_is_match, glob_matches, regex_error,
    regex_is_match, regex_matches, GlobMatcher, RegexMatcher,
};

verus! {

pub const GREP_SEARCH_NAME: &'static str = "grep_search";

pub const GREP_SEARCH_DESCRIPTION: &'static str = "Search UTF-8 text files under workspace with a Rust regex pattern (recursive).";

pub const GREP_SEARCH_SCHEMA: &'static str = "{\n  \"type\": \"object\",\n  \"additionalProperties\": false,\n  \"properties\": {\n    \"pattern\": { \"type\": \"string\", \"minLength\": 1 },\n    \"path\": { \"type\": \"string\" },\n    \"glob\": { \"type\": \"string\" },\n    \"head_limit\": { \"type\": \"integer\", \"minimum\": 1, \"maximum\": 120 }\n  },\n  \"required\": [\"pattern\"]\n}";

/// Most matching lines a search returns.
pub const MAX_GREP_MATCHES: usize = 120;

/// Files larger than this many bytes are skipped.
pub const MAX_FILE_BYTES: u64 = 262144;

/// Whether a file of this many bytes is searched.
pub fn file_fits(len_bytes: u64) -> (b: bool)
    ensures
        b == (len_bytes <= MAX_FILE_BYTES),
{
    len_bytes <= MAX_FILE_BYTES
}

/// Searches the lines of workspace text files with a regular expression.
pub struct GrepSearchTool {
    workspace_root: String,
}

/// A search the tool was asked for, with its compiled expression.
pub struct GrepSearchRequest {
    pub regex: RegexMatcher,
    pub path: String,
}

/// One matching line.
pub struct GrepMatch {
    /// Workspace-relative path, with forward slashes.
    pub path: String,
    /// 1-based line number.
    pub line: usize,
    pub text: String,
}

/// The view of a match: path, line number, text.
pub open spec fn match_view(m: GrepMatch) -> (Seq<char>, int, Seq<char>) {
    (m.path@, m.line as int, m.text@)
}

/// The matching lines of a file: for each line the expression matches, the
/// path, the 1-based line number and the line.
pub open spec fn line_hits(path: Seq<char>, lines: Seq<Seq<char>>, pattern: Seq<char>) -> Seq<
    (Seq<char>, int, Seq<char>),
>
    decreases lines.len(),
{
    if lines.len() == 0 {
        Seq::empty()
    } else {
        let h = line_hits(path, lines.drop_last(), pattern);
        if regex_matches(pattern, lines.last()) {
            h.push((path, lines.len() as int, lines.last()))
        } else {
            h
        }
    }
}

/// The hits of a file are exactly its matching lines, in order: every line
/// the expression matches is reported with the path, its 1-based number and
/// its text; every hit is such a line; and line numbers strictly increase,
/// so no line is reported twice or out of order.
pub proof fn lemma_line_hits_exact(path: Seq<char>, lines: Seq<Seq<char>>, pattern: Seq<char>)
    ensures
        forall|i: int|
            0 <= i < lines.len() && regex_matches(pattern, #[trigger] lines[i]) ==> line_hits(
                path,
                lines,
                pattern,
            ).contains((path, i + 1, lines[i])),
        forall|k: int|
            0 <= k < line_hits(path, lines, pattern).len() ==> {
                let h = #[trigger] line_hits(path, lines, pattern)[k];
                &&& h.0 == path
                &&& 1 <= h.1 <= lines.len()
                &&& h.2 == lines[h.1 - 1]
                &&& regex_matches(pattern, h.2)
            },
        forall|k1: int, k2: int|
            0 <= k1 < k2 < line_hits(path, lines, pattern).len() ==> (#[trigger] line_hits(
                path,
                lines,
                pattern,
            )[k1]).1 < (#[trigger] line_hits(path, lines, pattern)[k2]).1,
    decreases lines.len(),
{
    if lines.len() > 0 {
        let p = lines.drop_last();
        lemma_line_hits_exact(path, p, pattern);
        let h = line_hits(path, p, pattern);
        let all = line_hits(path, lines, pattern);
        let n = lines.len() as int;
        assert forall|i: int|
            0 <= i < lines.len() && regex_matches(pattern, #[trigger] lines[i]) implies all.contains(
            (path, i + 1, lines[i]),
        ) by {
            if i < n - 1 {
                assert(p[i] == lines[i]);
                assert(h.contains((path, i + 1, p[i])));
                let j = choose|j: int| 0 <= j < h.len() && h[j] == (path, i + 1, p[i]);
                if regex_matches(pattern, lines.last()) {
                    assert(all[j] == h[j]);
                }
            } else {
                assert(lines[i] == lines.last());
                assert(all[h.len() as int] == (path, n, lines.last()));
            }
        }
        assert forall|k: int| 0 <= k < all.len() implies {
            let x = #[trigger] all[k];
            &&& x.0 == path
            &&& 1 <= x.1 <= lines.len()
            &&& x.2 == lines[x.1 - 1]
            &&& regex_matches(pattern, x.2)
        } by {
            if k < h.len() {
                assert(all[k] == h[k]);
                assert(p[h[k].1 - 1] == lines[h[k].1 - 1]);
            } else {
                assert(lines[n - 1] == lines.last());
            }
        }
        assert forall|k1: int, k2: int| 0 <= k1 < k2 < all.len() implies (#[trigger] all[k1]).1 < (
        #[trigger] all[k2]).1 by {
            assert(all[k1] == h[k1]);
            if k2 < h.len() {
                assert(all[k2] == h[k2]);
            } else {
                assert(h[k1].1 <= p.len());
            }
        }
    }
}

/// The head limit a search uses: the given one when at least 1 (else 120),
/// capped at 120.
pub open spec fn grep_head_limit(head_limit: Option<u64>) -> usize {
    let l = positive_or(head_limit, MAX_GREP_MATCHES as u64) as usize;
    if l <= MAX_GREP_MATCHES {
        l
    } else {
        MAX_GREP_MATCHES
    }
}

proof fn lemma_hits_prefix(path: Seq<char>, lines: Seq<Seq<char>>, pattern: Seq<char>, k: int)
    requires
        0 <= k <= lines.len(),
    ensures
        line_hits(path, lines.take(k), pattern).len() <= line_hits(path, lines, pattern).len(),
        line_hits(path, lines, pattern).take(line_hits(path, lines.take(k), pattern).len() as int)
            == line_hits(path, lines.take(k), pattern),
    decreases lines.len() - k,
{
    if k == lines.len() {
        assert(lines.take(k) == lines);
    } else {
        lemma_hits_prefix(path, lines, pattern, k + 1);
        assert(lines.take(k + 1).drop_last() == lines.take(k));
        let a = line_hits(path, lines.take(k), pattern);
        let b = line_hits(path, lines.take(k + 1), pattern);
        let c = line_hits(path, lines, pattern);
        assert(b.take(a.len() as int) =~= a);
        assert(c.take(a.len() as int) =~= b.take(a.len() as int));
    }
}

/// A given head limit from 1 to 120 is used as it is; a larger one is cut
/// to 120 (a value past `usize::MAX` is first cast to `usize`, as `as`
/// does); none, or 0, means 120.  The limit never exceeds a given positive
/// limit.
pub proof fn lemma_grep_head_limit(n: u64)
    ensures
        1 <= n <= MAX_GREP_MATCHES ==> grep_head_limit(Some(n)) == n,
        MAX_GREP_MATCHES < n <= usize::MAX ==> grep_head_limit(Some(n)) == MAX_GREP_MATCHES,
        n >= 1 ==> grep_head_limit(Some(n)) <= n,
        grep_head_limit(Some(0)) == MAX_GREP_MATCHES,
        grep_head_limit(None) == MAX_GREP_MATCHES,
        n <= usize::MAX ==> 1 <= grep_head_limit(Some(n)) <= MAX_GREP_MATCHES,
{
}

/// The matches found so far, capped at the head limit.
pub struct GrepScan {
    matches: Vec<GrepMatch>,
    head_limit: usize,
}

impl GrepScan {
    pub closed spec fn found(&self) -> Seq<(Seq<char>, int, Seq<char>)> {
        self.matches@.map_values(|m: GrepMatch| match_view(m))
    }

    pub closed spec fn limit(&self) -> nat {
        self.head_limit as nat
    }

    /// A scan capped at the head limit the search asks for.
    pub fn new(head_limit: Option<u64>) -> (r: Self)
        ensures
            r.found() == Seq::<(Seq<char>, int, Seq<char>)>::empty(),
            r.limit() == grep_head_limit(head_limit),
    {
        let l = super::read_file::positive_or_exec(head_limit, MAX_GREP_MATCHES as u64) as usize;
        let l = if l <= MAX_GREP_MATCHES {
            l
        } else {
            MAX_GREP_MATCHES
        };
        let r = GrepScan { matches: Vec::new(), head_limit: l };
        assert(r.found() =~= Seq::<(Seq<char>, int, Seq<char>)>::empty());
        r
    }

    /// The head limit.
    pub fn head_limit(&self) -> (n: usize)
        ensures
            n == self.limit(),
    {
        self.head_limit
    }

    /// Feeds the text of a file: its matching lines are added until the
    /// head limit is reached.  Tells whether the walk goes on.
    pub fn feed_file(&mut self, rel: &str, text: &str, re: &RegexMatcher) -> (more: bool)
        requires
            old(self).found().len() < old(self).limit(),
        ensures
            final(self).limit() == old(self).limit(),
            ({
                let hits = line_hits(rel@, lines_of(text@), re.pattern());
                let room = old(self).limit() - old(self).found().len();
                final(self).found() == old(self).found() + (if hits.len() <= room {
                    hits
                } else {
                    hits.take(room)
                })
            }),
            more == (final(self).found().len() < final(self).limit()),
    {
        let lines = lines_str(text);
        let ghost ls = lines_of(text@);
        let ghost start = self.found();
        let ghost pat = re.pattern();
        let mut i: usize = 0;
        assert(ls.take(0) == Seq::<Seq<char>>::empty());
        while i < lines.len()
            invariant
                0 <= i <= lines@.len(),
                ls == seqs_view(lines@),
                ls == lines_of(text@),
                pat == re.pattern(),
                self.limit() == old(self).limit(),
                start == old(self).found(),
                self.found() == start + line_hits(rel@, ls.take(i as int), pat),
                self.found().len() < self.limit(),
            decreases lines@.len() - i,
        {
            assert(ls.take(i + 1).drop_last() == ls.take(i as int));
            assert(ls.take(i + 1).last() == lines@[i as int]@);
            let line_s = string_of(lines[i].as_slice());
            if regex_is_match(re, line_s.as_str()) {
                let ghost before = self.found();
                let m = GrepMatch {
                    path: string_of(chars_of(rel).as_slice()),
                    line: i + 1,
                    text: line_s,
                };
                self.matches.push(m);
                assert(self.found() =~= before.push((rel@, i + 1, lines@[i as int]@)));
                assert(ls.take(i + 1).len() == i + 1);
                if self.matches.len() >= self.head_limit {
                    proof {
                        lemma_hits_prefix(rel@, ls, pat, i + 1);
                        let h = line_hits(rel@, ls.take(i + 1), pat);
                        let all = line_hits(rel@, ls, pat);
                        let room = old(self).limit() - start.len();
                        assert(h.len() == room);
                        assert(all.take(room) == h);
                    }
                    return false;
                }
            }
            i = i + 1;
        }
        assert(ls.take(ls.len() as int) == ls);
        self.matches.len() < self.head_limit
    }

    /// Whether a file passes the optional glob filter.
    pub fn wants(&self, rel: &str, glob: &Option<GlobMatcher>) -> (b: bool)
        ensures
            b == match glob {
                Some(g) => glob_matches(g.pattern(), rel@),
                None => true,
            },
    {
        match glob {
            Some(g) => glob_is_match(g, rel),
            None => true,
        }
    }

    /// The matches found, and whether the search stopped at the head limit.
    pub fn finish(self) -> (r: (Vec<GrepMatch>, bool, usize))
        ensures
            r.0@.map_values(|m: GrepMatch| match_view(m)) == self.found(),
            r.1 == (self.found().len() >= self.limit()),
            r.2 == self.limit(),
    {
        let n = self.matches.len();
        let l = self.head_limit;
        (self.matches, n >= l, l)
    }
}

/// The optional glob filter of a search: absent or blank means none.
pub open spec fn filter_glob(glob: Option<String>) -> Option<Seq<char>> {
    match glob {
        Some(g) => if trim(g@).len() > 0 {
            Some(trim(g@))
        } else {
            None
        },
        None => None,
    }
}

impl GrepSearchTool {
    pub fn new(workspace_root: String) -> (r: Self)
        ensures
            r.root() == workspace_root@,
    {
        GrepSearchTool { workspace_root }
    }

    pub closed spec fn root(&self) -> Seq<char> {
        self.workspace_root@
    }

    pub fn workspace_root(&self) -> (r: &str)
        ensures
            r@ == self.root(),
    {
        self.workspace_root.as_str()
    }

    /// Name, description, capabilities (none) and input schema.
    pub fn descriptor(&self) -> (r: ToolDescriptor)
        ensures
            r.name@ == GREP_SEARCH_NAME@,
            r.description@ == GREP_SEARCH_DESCRIPTION@,
            r.required_capabilities@ == Seq::<crate::policy::ToolCategory>::empty(),
            r.input_schema@ == GREP_SEARCH_SCHEMA@,
    {
        descriptor_of(GREP_SEARCH_NAME, GREP_SEARCH_DESCRIPTION, Vec::new(), GREP_SEARCH_SCHEMA)
    }

    /// Reads the pattern (non-blank, trimmed, compiled) and the base
    /// directory (`.` by default).
    pub fn request(pattern: Option<String>, path: Option<String>) -> (r: Result<
        GrepSearchRequest,
        String,
    >)
        ensures
            match r {
                Ok(q) => search_pattern(pattern) == Some(q.regex.pattern()) && q.path@ == search_base(
                    path,
                ),
                Err(e) => match search_pattern(pattern) {
                    None => e@ == "pattern is required"@,
                    Some(p) => regex_error(p) matches Some(m) && e@ == "invalid regex: "@ + m,
                },
            },
    {
        let p = pattern_field(pattern)?;
        let regex = compile_regex(p.as_str())?;
        Ok(GrepSearchRequest { regex, path: base_field(path) })
    }

    /// Compiles the optional glob filter.
    pub fn glob_filter(glob: Option<String>) -> (r: Result<Option<GlobMatcher>, String>)
        ensures
            match r {
                Ok(None) => filter_glob(glob) is None,
                Ok(Some(m)) => filter_glob(glob) == Some(m.pattern()),
                Err(e) => filter_glob(glob) matches Some(p) && glob_compile_error(p) == Some(e@),
            },
    {
        match glob {
            None => Ok(None),
            Some(g) => {
                let t = trim_str(g.as_str());
                if t.len() == 0 {
                    return Ok(None);
                }
                let ts = string_of(t.as_slice());
                let m = compile_glob(ts.as_str())?;
                Ok(Some(m))
            },
        }
    }
}

} // verus!
