use vstd::prelude::*;

use super::read_file::positive_or;
use crate::text::{chars_lex_lt, chars_of, lemma_lex_lt_irreflexive, lemma_lex_lt_transitive, lex_lt, string_of};
use crate::tools::dispatch::{descriptor_of, ToolDescriptor};

verus! {

pub const LIST_DIR_NAME: &'static str = "list_dir";

pub const LIST_DIR_DESCRIPTION: &'static str = "List files and subdirectories in a workspace directory (non-recursive).";

pub const LIST_DIR_SCHEMA: &'static str = "{\n  \"type\": \"object\",\n  \"additionalProperties\": false,\n  \"properties\": {\n    \"path\": { \"type\": \"string\" },\n    \"limit\": { \"type\": \"integer\", \"minimum\": 1, \"maximum\": 500 }\n  }\n}";

/// Most entries listed.
pub const MAX_ENTRIES: usize = 500;

/// Entries listed when no limit is given.
pub const DEFAULT_LIMIT: u64 = 200;

/// Lists a workspace directory (not recursively).
pub struct ListDirTool {
    workspace_root: String,
}

/// A listing the tool was asked for.
pub struct ListDirRequest {
    /// The directory, as given (`.` when absent).
    pub path: String,
    pub limit: usize,
}

/// One directory entry.
pub struct DirEntryInfo {
    pub name: String,
    pub is_dir: bool,
    pub is_file: bool,
}

/// A listing: entries by name, cut to the limit.
pub struct DirListing {
    pub entries: Vec<DirEntryInfo>,
    pub truncated: bool,
}

/// Entries ordered by name (non-decreasing).
pub open spec fn sorted_by_name(s: Seq<DirEntryInfo>) -> bool {
    forall|i: int, j: int| 0 <= i < j < s.len() ==> !lex_lt(#[trigger] s[j].name@, #[trigger] s[i].name@)
}

/// The limit a request uses: the given one when at least 1 (else 200),
/// capped at 500.
pub open spec fn listing_limit(limit: Option<u64>) -> usize {
    let l = positive_or(limit, DEFAULT_LIMIT) as usize;
    if l <= MAX_ENTRIES {
        l
    } else {
        MAX_ENTRIES
    }
}

/// A given listing limit from 1 to 500 is used as it is; a larger one is
/// cut to 500 (a value past `usize::MAX` is first cast to `usize`, as `as`
/// does); none, or 0, means 200.  The limit never exceeds a given
/// positive limit.
pub proof fn lemma_listing_limit(n: u64)
    ensures
        1 <= n <= MAX_ENTRIES ==> listing_limit(Some(n)) == n,
        MAX_ENTRIES < n <= usize::MAX ==> listing_limit(Some(n)) == MAX_ENTRIES,
        n >= 1 ==> listing_limit(Some(n)) <= n,
        listing_limit(Some(0)) == DEFAULT_LIMIT,
        listing_limit(None) == DEFAULT_LIMIT,
        n <= usize::MAX ==> 1 <= listing_limit(Some(n)) <= MAX_ENTRIES,
{
}

impl ListDirTool {
    pub fn new(workspace_root: String) -> (r: Self)
        ensures
            r.root() == workspace_root@,
    {
        ListDirTool { workspace_root }
    }

    pub closed spec fn root(&self) -> Seq<char> {
        self.workspace_root@
    }

    pub fn workspace_root(&self) -> (r: &str)
        ensures
            r@ == self.root(),
    {
        self.workspace_root.as_str()
    }

    /// Name, description, capabilities (none) and input schema.
    pub fn descriptor(&self) -> (r: ToolDescriptor)
        ensures
            r.name@ == LIST_DIR_NAME@,
            r.description@ == LIST_DIR_DESCRIPTION@,
            r.required_capabilities@ == Seq::<crate::policy::ToolCategory>::empty(),
            r.input_schema@ == LIST_DIR_SCHEMA@,
    {
        descriptor_of(LIST_DIR_NAME, LIST_DIR_DESCRIPTION, Vec::new(), LIST_DIR_SCHEMA)
    }

    /// Reads the input fields: the directory defaults to `.`.
    pub fn request(path: Option<String>, limit: Option<u64>) -> (r: ListDirRequest)
        ensures
            r.path@ == (match path {
                Some(p) => p@,
                None => "."@,
            }),
            r.limit == listing_limit(limit),
    {
        let p = match path {
            Some(p) => p,
            None => string_of(chars_of(".").as_slice()),
        };
        let l = super::read_file::positive_or_exec(limit, DEFAULT_LIMIT) as usize;
        let l = if l <= MAX_ENTRIES {
            l
        } else {
            MAX_ENTRIES
        };
        ListDirRequest { path: p, limit: l }
    }

    /// Orders the entries of a directory by name and keeps the first
    /// `limit`; tells whether any were dropped.
    pub fn listing(entries: Vec<DirEntryInfo>, limit: usize) -> (r: DirListing)
        ensures
            r.truncated == (entries@.len() > limit),
            exists|s: Seq<DirEntryInfo>|
                #![trigger s.to_multiset()]
                s.to_multiset() == entries@.to_multiset() && sorted_by_name(s) && r.entries@ == (if s.len()
                    <= limit {
                    s
                } else {
                    s.take(limit as int)
                }),
    {
        let n = entries.len();
        let sorted = sort_by_name(entries);
        let ghost s = sorted@;
        let mut out = sorted;
        let truncated = n > limit;
        if truncated {
            out.truncate(limit);
            assert(out@ =~= s.take(limit as int));
        }
        DirListing { entries: out, truncated }
    }
}

/// Inserting `x` after every entry whose name is not greater than `x`'s.
fn insert_sorted(out: &mut Vec<DirEntryInfo>, x: DirEntryInfo)
    requires
        sorted_by_name(old(out)@),
    ensures
        sorted_by_name(final(out)@),
        final(out)@.to_multiset() == old(out)@.to_multiset().insert(x),
{
    let xn = chars_of(x.name.as_str());
    let mut j: usize = 0;
    while j < out.len() && !chars_lex_lt(xn.as_slice(), chars_of(out[j].name.as_str()).as_slice())
        invariant
            0 <= j <= out@.len(),
            xn@ == x.name@,
            out@ == old(out)@,
            sorted_by_name(out@),
            forall|k: int| 0 <= k < j ==> !lex_lt(x.name@, #[trigger] out@[k].name@),
        decreases out@.len() - j,
    {
        j = j + 1;
    }
    let ghost before = out@;
    proof {
        if j < before.len() {
            assert(lex_lt(x.name@, before[j as int].name@));
        }
    }
    out.insert(j, x);
    proof {
        let after = out@;
        assert(after == before.insert(j as int, x));
        before.insert_ensures(j as int, x);
        assert forall|a: int, b: int| 0 <= a < b < after.len() implies !lex_lt(
            #[trigger] after[b].name@,
            #[trigger] after[a].name@,
        ) by {
            if a < j && b < j {
                assert(after[a] == before[a] && after[b] == before[b]);
            } else if a < j && b == j {
                assert(after[a] == before[a]);
            } else if a < j && b > j {
                assert(after[a] == before[a] && after[b] == before[b - 1]);
            } else if a == j {
                assert(after[b] == before[b - 1]);
                if lex_lt(after[b].name@, x.name@) {
                    if b - 1 == j {
                        lemma_lex_lt_transitive(before[j as int].name@, x.name@, before[j as int].name@);
                        lemma_lex_lt_irreflexive(before[j as int].name@);
                    } else {
                        lemma_lex_lt_transitive(before[b - 1].name@, x.name@, before[j as int].name@);
                    }
                }
            } else {
                assert(after[a] == before[a - 1] && after[b] == before[b - 1]);
            }
        }
        assert(after.remove(j as int) =~= before);
        vstd::seq_lib::to_multiset_remove(after, j as int);
        after.to_multiset_ensures();
        assert(after[j as int] == x);
        assert(after.contains(x));
        assert(after.to_multiset().count(x) > 0);
        assert(after.to_multiset() =~= before.to_multiset().insert(x)) by {
            broadcast use vstd::multiset::group_multiset_axioms;
        }
    }
}

/// The entries ordered by name; entries with equal names keep their order.
fn sort_by_name(entries: Vec<DirEntryInfo>) -> (r: Vec<DirEntryInfo>)
    ensures
        sorted_by_name(r@),
        r@.to_multiset() == entries@.to_multiset(),
        r@.len() == entries@.len(),
{
    broadcast use vstd::seq_lib::group_to_multiset_ensures, vstd::multiset::group_multiset_axioms;

    let mut rest = entries;
    let ghost all = rest@;
    let mut out: Vec<DirEntryInfo> = Vec::new();
    assert(out@.to_multiset() =~= vstd::multiset::Multiset::<DirEntryInfo>::empty());
    assert(out@.to_multiset().add(rest@.to_multiset()) =~= all.to_multiset());
    while rest.len() > 0
        invariant
            sorted_by_name(out@),
            out@.to_multiset().add(rest@.to_multiset()) == all.to_multiset(),
        decreases rest@.len(),
    {
        let ghost before_rest = rest@;
        let ghost before_out = out@;
        let x = rest.remove(0);
        proof {
            vstd::seq_lib::to_multiset_remove(before_rest, 0);
            assert(before_rest[0] == x);
            assert(before_rest.contains(x));
            before_rest.to_multiset_ensures();
            assert(before_rest.to_multiset().count(x) > 0);
            assert(rest@ == before_rest.remove(0));
        }
        insert_sorted(&mut out, x);
        assert(out@.to_multiset().add(rest@.to_multiset()) =~= before_out.to_multiset().add(
            before_rest.to_multiset(),
        ));
    }
    assert(rest@.to_multiset() =~= vstd::multiset::Multiset::<DirEntryInfo>::empty());
    assert(out@.to_multiset() =~= all.to_multiset());
    assert(out@.len() == out@.to_multiset().len());
    assert(all.len() == all.to_multiset().len());
    out
}

} // verus!
