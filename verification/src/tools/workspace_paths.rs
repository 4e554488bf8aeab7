//! Keeping file tools inside the workspace.
//!
//! The paths these functions compare are canonical (absolute, no `.`, `..`
//! or empty components, no trailing `/` except for the root `/`), as
//! `canonicalize` returns them; for such paths the prefix test below is
//! `Path::starts_with` and the remainder is `Path::strip_prefix`.

use vstd::prelude::*;

use crate::text::{
    append_str, chars_eq, chars_of, has_prefix, matches_at, string_of, sub_chars, trim, trim_str,
};

verus! {

/// `Path::join` on Unix: an absolute `p` replaces `base`, otherwise `p` is
/// appended after a separator.
pub open spec fn path_join(base: Seq<char>, p: Seq<char>) -> Seq<char> {
    if p.len() > 0 && p[0] == '/' {
        p
    } else if base.len() == 0 {
        p
    } else if base.last() == '/' {
        base + p
    } else {
        base + "/"@ + p
    }
}

/// The part of canonical path `p` below canonical directory `root`, or
/// `None` when `p` is not `root` or below it.
pub open spec fn relative_to(root: Seq<char>, p: Seq<char>) -> Option<Seq<char>> {
    if p == root {
        Some(Seq::empty())
    } else if root.len() > 0 && root.last() == '/' && has_prefix(p, root) {
        Some(p.skip(root.len() as int))
    } else if has_prefix(p, root + "/"@) {
        Some(p.skip(root.len() as int + 1))
    } else {
        None
    }
}

/// The path a file tool asks for, joined to the (canonical) workspace root;
/// the user's path is trimmed first.
pub fn workspace_join(workspace_root: &str, user_path: &str) -> (r: String)
    ensures
        r@ == path_join(workspace_root@, trim(user_path@)),
{
    let p = trim_str(user_path);
    let base = chars_of(workspace_root);
    if p.len() > 0 && p[0] == '/' {
        return string_of(p.as_slice());
    }
    if base.len() == 0 {
        return string_of(p.as_slice());
    }
    let mut out = base;
    if out[out.len() - 1] != '/' {
        append_str(&mut out, "/");
    }
    crate::text::append_chars(&mut out, p.as_slice());
    string_of(out.as_slice())
}

fn relative_chars(root: &[char], p: &[char]) -> (r: Option<Vec<char>>)
    ensures
        match r {
            Some(v) => relative_to(root@, p@) == Some(v@),
            None => relative_to(root@, p@) is None,
        },
{
    if chars_eq(p, root) {
        return Some(Vec::new());
    }
    assert(p@.skip(0) == p@);
    if root.len() > 0 && root[root.len() - 1] == '/' {
        if matches_at(p, 0, root) {
            return Some(sub_chars(p, root.len(), p.len()));
        }
        proof {
            let rs = root@ + "/"@;
            reveal_strlit("/");
            if has_prefix(p@, rs) {
                assert(p@.take(root@.len() as int) == rs.take(root@.len() as int));
                assert(rs.take(root@.len() as int) == root@);
            }
        }
        return None;
    }
    proof {
        reveal_strlit("/");
    }
    let mut rs: Vec<char> = Vec::new();
    crate::text::append_chars(&mut rs, root);
    append_str(&mut rs, "/");
    if matches_at(p, 0, rs.as_slice()) {
        let n = rs.len();
        return Some(sub_chars(p, n, p.len()));
    }
    None
}

/// Checks that the canonical `candidate` lies in the canonical workspace
/// root; the path itself when it does.
pub fn resolve_under_workspace(workspace_root: &str, candidate: &str) -> (r: Result<String, String>)
    ensures
        match r {
            Ok(p) => relative_to(workspace_root@, candidate@) is Some && p@ == candidate@,
            Err(e) => relative_to(workspace_root@, candidate@) is None && e@
                == "path escapes workspace_root"@,
        },
{
    let root = chars_of(workspace_root);
    let cand = chars_of(candidate);
    match relative_chars(root.as_slice(), cand.as_slice()) {
        Some(_) => Ok(string_of(cand.as_slice())),
        None => Err(string_of(chars_of("path escapes workspace_root").as_slice())),
    }
}

/// `s` with every `'\\'` turned into `'/'`.
pub open spec fn forward_slashes(s: Seq<char>) -> Seq<char> {
    s.map_values(|c: char| if c == '\\' { '/' } else { c })
}

/// The workspace-relative form of a canonical path that search results
/// show: relative to the root, with forward slashes; `None` outside the
/// workspace.
pub fn workspace_relative(workspace_root: &str, candidate: &str) -> (r: Option<String>)
    ensures
        match r {
            Some(s) => relative_to(workspace_root@, candidate@) matches Some(rel) && s@
                == forward_slashes(rel),
            None => relative_to(workspace_root@, candidate@) is None,
        },
{
    let root = chars_of(workspace_root);
    let cand = chars_of(candidate);
    match relative_chars(root.as_slice(), cand.as_slice()) {
        None => None,
        Some(rel) => {
            let mut out: Vec<char> = Vec::new();
            let mut i: usize = 0;
            while i < rel.len()
                invariant
                    0 <= i <= rel@.len(),
                    out@ == forward_slashes(rel@.take(i as int)),
                decreases rel@.len() - i,
            {
                let c = rel[i];
                out.push(if c == '\\' { '/' } else { c });
                i = i + 1;
                assert(forward_slashes(rel@.take(i as int)) =~= forward_slashes(
                    rel@.take(i - 1),
                ).push(if c == '\\' { '/' } else { c }));
            }
            assert(rel@.take(rel@.len() as int) == rel@);
            Some(string_of(out.as_slice()))
        },
    }
}

} // verus!
