//! Compiled regular expressions (`regex`) and glob patterns (`globset`).
//!
//! What a pattern matches is named here as a function of the pattern text
//! and the text matched; the matchers carry the pattern they were compiled
//! from.

use vstd::prelude::*;

use crate::text::{append_str, chars_of, string_of};

verus! {

#[verifier::external_type_specification]
#[verifier::external_body]
pub struct ExRegex(regex::Regex);

#[verifier::external_type_specification]
#[verifier::external_body]
pub struct ExGlob(globset::Glob);

#[verifier::external_type_specification]
#[verifier::external_body]
pub struct ExGlobSet(globset::GlobSet);

/// The message `regex::Regex::new` fails with for `pattern`, or `None` when
/// it compiles.
pub uninterp spec fn regex_error(pattern: Seq<char>) -> Option<Seq<char>>;

/// Whether the regular expression `pattern` matches somewhere in `haystack`
/// (`Regex::is_match`).
pub uninterp spec fn regex_matches(pattern: Seq<char>, haystack: Seq<char>) -> bool;

/// A compiled regular expression.
#[derive(Debug)]
pub struct RegexMatcher {
    pattern: String,
    re: regex::Regex,
}

impl RegexMatcher {
    /// The pattern this was compiled from.
    pub closed spec fn pattern(&self) -> Seq<char> {
        self.pattern@
    }
}

/// `regex::Regex::new`.
#[verifier::external_body]
pub(crate) fn new_regex(pattern: &str) -> (r: Result<RegexMatcher, String>)
    ensures
        match r {
            Ok(m) => regex_error(pattern@) is None && m.pattern() == pattern@,
            Err(e) => regex_error(pattern@) == Some(e@),
        },
{
    match regex::Regex::new(pattern) {
        Ok(re) => Ok(RegexMatcher { pattern: pattern.to_string(), re }),
        Err(e) => Err(e.to_string()),
    }
}

/// `Regex::is_match`.
#[verifier::external_body]
pub(crate) fn regex_is_match(m: &RegexMatcher, haystack: &str) -> (b: bool)
    ensures
        b == regex_matches(m.pattern(), haystack@),
{
    m.re.is_match(haystack)
}

/// The message `globset::Glob::new` fails with for `pattern`, or `None`.
pub uninterp spec fn glob_parse_error(pattern: Seq<char>) -> Option<Seq<char>>;

/// The message `GlobSetBuilder::build` fails with for a set of the one glob
/// `pattern`, or `None`.
pub uninterp spec fn glob_build_error(pattern: Seq<char>) -> Option<Seq<char>>;

/// Whether the glob `pattern` matches `path` (`GlobSet::is_match`).
pub uninterp spec fn glob_matches(pattern: Seq<char>, path: Seq<char>) -> bool;

/// A parsed glob.
#[derive(Debug)]
pub struct ParsedGlob {
    pattern: String,
    glob: globset::Glob,
}

impl ParsedGlob {
    pub closed spec fn pattern(&self) -> Seq<char> {
        self.pattern@
    }
}

/// A compiled set of one glob.
#[derive(Debug)]
pub struct GlobMatcher {
    pattern: String,
    set: globset::GlobSet,
}

impl GlobMatcher {
    /// The glob this was compiled from.
    pub closed spec fn pattern(&self) -> Seq<char> {
        self.pattern@
    }
}

/// `globset::Glob::new`.
#[verifier::external_body]
pub(crate) fn parse_glob(pattern: &str) -> (r: Result<ParsedGlob, String>)
    ensures
        match r {
            Ok(g) => glob_parse_error(pattern@) is None && g.pattern() == pattern@,
            Err(e) => glob_parse_error(pattern@) == Some(e@),
        },
{
    match globset::Glob::new(pattern) {
        Ok(glob) => Ok(ParsedGlob { pattern: pattern.to_string(), glob }),
        Err(e) => Err(e.to_string()),
    }
}

/// `GlobSetBuilder::build` on a builder holding the one glob.
#[verifier::external_body]
pub(crate) fn build_glob_set(g: ParsedGlob) -> (r: Result<GlobMatcher, String>)
    ensures
        match r {
            Ok(m) => glob_build_error(g.pattern()) is None && m.pattern() == g.pattern(),
            Err(e) => glob_build_error(g.pattern()) == Some(e@),
        },
{
    let mut builder = globset::GlobSetBuilder::new();
    builder.add(g.glob);
    match builder.build() {
        Ok(set) => Ok(GlobMatcher { pattern: g.pattern, set }),
        Err(e) => Err(e.to_string()),
    }
}

/// `GlobSet::is_match`.
#[verifier::external_body]
pub(crate) fn glob_is_match(m: &GlobMatcher, path: &str) -> (b: bool)
    ensures
        b == glob_matches(m.pattern(), path@),
{
    m.set.is_match(path)
}

/// What compiling a glob pattern gives: the error of `Glob::new` (prefixed
/// `invalid glob: `), else that of building the set.
pub open spec fn glob_compile_error(pattern: Seq<char>) -> Option<Seq<char>> {
    match glob_parse_error(pattern) {
        Some(e) => Some("invalid glob: "@ + e),
        None => glob_build_error(pattern),
    }
}

/// Compiles a glob pattern into a matcher.
pub fn compile_glob(pattern: &str) -> (r: Result<GlobMatcher, String>)
    ensures
        match r {
            Ok(m) => glob_compile_error(pattern@) is None && m.pattern() == pattern@,
            Err(e) => glob_compile_error(pattern@) == Some(e@),
        },
{
    let g = match parse_glob(pattern) {
        Ok(g) => g,
        Err(e) => {
            let mut m = chars_of("invalid glob: ");
            append_str(&mut m, e.as_str());
            return Err(string_of(m.as_slice()));
        },
    };
    build_glob_set(g)
}

/// Compiles a regular expression; the error is prefixed `invalid regex: `.
pub fn compile_regex(pattern: &str) -> (r: Result<RegexMatcher, String>)
    ensures
        match r {
            Ok(m) => regex_error(pattern@) is None && m.pattern() == pattern@,
            Err(e) => regex_error(pattern@) matches Some(m) && e@ == "invalid regex: "@ + m,
        },
{
    match new_regex(pattern) {
        Ok(m) => Ok(m),
        Err(e) => {
            let mut m = chars_of("invalid regex: ");
            append_str(&mut m, e.as_str());
            Err(string_of(m.as_slice()))
        },
    }
}

} // verus!
