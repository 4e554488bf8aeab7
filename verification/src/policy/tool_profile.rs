use vstd::prelude::*;

use crate::text::{
    append_chars, append_str, ascii_lower_chars, ascii_lower_seq, chars_eq, chars_eq_str, chars_of,
    is_ws, lemma_lex_lt_transitive, lex_lt, opt_str_view, seqs_view, split_chars, split_on,
    string_of, sub_chars, trim, trim_chars, trim_start, trim_str,
};

verus! {

/// Preset tool belts; the same runtime assembles different allowlists.
#[derive(Debug, Clone, Copy, PartialEq, Eq, Structural)]
pub enum ToolProfile {
    /// Working on a repository: no network tools in the belt.
    Coding,
    /// Office automation: network tools are in the belt (still capability-gated).
    Office,
    /// Every built-in tool.
    Full,
    /// The safe baseline only.
    Minimal,
    /// Listed explicitly, comma separated.
    Custom,
}

/// The key that `ToolProfile::parse` matches on.
pub open spec fn profile_key(raw: Seq<char>) -> Seq<char> {
    ascii_lower_seq(trim(raw))
}

/// The profile that a key names, if any.
pub open spec fn profile_for_key(k: Seq<char>) -> Option<ToolProfile> {
    if k == "coding"@ || k == "code"@ {
        Some(ToolProfile::Coding)
    } else if k == "office"@ {
        Some(ToolProfile::Office)
    } else if k == "full"@ {
        Some(ToolProfile::Full)
    } else if k == "minimal"@ || k == "min"@ {
        Some(ToolProfile::Minimal)
    } else if k == "custom"@ {
        Some(ToolProfile::Custom)
    } else {
        None
    }
}

/// The canonical name of a profile.
pub open spec fn profile_name(p: ToolProfile) -> Seq<char> {
    match p {
        ToolProfile::Coding => "coding"@,
        ToolProfile::Office => "office"@,
        ToolProfile::Full => "full"@,
        ToolProfile::Minimal => "minimal"@,
        ToolProfile::Custom => "custom"@,
    }
}

impl ToolProfile {
    /// Parses a profile name, case-insensitively and ignoring surrounding
    /// whitespace; `code` and `min` are accepted as aliases.
    pub fn parse(raw: &str) -> (r: Result<Self, String>)
        ensures
            match r {
                Ok(p) => profile_for_key(profile_key(raw@)) == Some(p),
                Err(e) => profile_for_key(profile_key(raw@)) is None && e@ == "unknown tool profile: "@
                    + profile_key(raw@),
            },
    {
        let t = trim_str(raw);
        let k = ascii_lower_chars(t.as_slice());
        let k = k.as_slice();
        if chars_eq_str(k, "coding") || chars_eq_str(k, "code") {
            Ok(ToolProfile::Coding)
        } else if chars_eq_str(k, "office") {
            Ok(ToolProfile::Office)
        } else if chars_eq_str(k, "full") {
            Ok(ToolProfile::Full)
        } else if chars_eq_str(k, "minimal") || chars_eq_str(k, "min") {
            Ok(ToolProfile::Minimal)
        } else if chars_eq_str(k, "custom") {
            Ok(ToolProfile::Custom)
        } else {
            let mut msg: Vec<char> = Vec::new();
            append_str(&mut msg, "unknown tool profile: ");
            append_chars(&mut msg, k);
            Err(string_of(msg.as_slice()))
        }
    }

    /// The canonical lower-case name.
    pub fn as_str(self) -> (r: &'static str)
        ensures
            r@ == profile_name(self),
    {
        match self {
            ToolProfile::Coding => "coding",
            ToolProfile::Office => "office",
            ToolProfile::Full => "full",
            ToolProfile::Minimal => "minimal",
            ToolProfile::Custom => "custom",
        }
    }
}

/// Every tool name the runtime knows, in lexicographic order.
pub open spec fn known_tool_names() -> Seq<Seq<char>> {
    seq![
        "echo"@,
        "glob_search"@,
        "grep_search"@,
        "list_dir"@,
        "lsp"@,
        "net_echo"@,
        "read_file"@,
    ]
}

pub open spec fn is_known_tool(n: Seq<char>) -> bool {
    known_tool_names().contains(n)
}

/// The belt of a preset profile, in the order the profile lists it.
pub open spec fn preset_names(p: ToolProfile) -> Seq<Seq<char>> {
    match p {
        ToolProfile::Coding => seq![
            "echo"@,
            "read_file"@,
            "list_dir"@,
            "glob_search"@,
            "grep_search"@,
            "lsp"@,
        ],
        ToolProfile::Minimal => seq!["echo"@, "read_file"@],
        ToolProfile::Office => seq![
            "echo"@,
            "read_file"@,
            "list_dir"@,
            "glob_search"@,
            "grep_search"@,
            "lsp"@,
            "net_echo"@,
        ],
        ToolProfile::Full => seq![
            "echo"@,
            "glob_search"@,
            "grep_search"@,
            "list_dir"@,
            "lsp"@,
            "net_echo"@,
            "read_file"@,
        ],
        ToolProfile::Custom => Seq::empty(),
    }
}

/// The trimmed, non-empty pieces, in order.
pub open spec fn trimmed_nonempty(ps: Seq<Seq<char>>) -> Seq<Seq<char>>
    decreases ps.len(),
{
    if ps.len() == 0 {
        Seq::empty()
    } else {
        let r = trimmed_nonempty(ps.drop_last());
        if trim(ps.last()).len() > 0 {
            r.push(trim(ps.last()))
        } else {
            r
        }
    }
}

/// The names a profile asks for before validation; `None` when a custom
/// profile comes without a (non-blank) list.
pub open spec fn requested_names(p: ToolProfile, custom: Option<Seq<char>>) -> Option<
    Seq<Seq<char>>,
> {
    match p {
        ToolProfile::Custom => match custom {
            Some(c) => if trim(c).len() > 0 {
                Some(trimmed_nonempty(split_on(trim(c), ',')))
            } else {
                None
            },
            None => None,
        },
        _ => Some(preset_names(p)),
    }
}

/// The first name that is not a known tool.
pub open spec fn first_unknown(names: Seq<Seq<char>>) -> Option<Seq<char>>
    decreases names.len(),
{
    if names.len() == 0 {
        None
    } else if !is_known_tool(names[0]) {
        Some(names[0])
    } else {
        first_unknown(names.drop_first())
    }
}

/// The elements of `order` that occur in `names`, in the order of `order`.
pub open spec fn select_in_order(order: Seq<Seq<char>>, names: Seq<Seq<char>>) -> Seq<Seq<char>>
    decreases order.len(),
{
    if order.len() == 0 {
        Seq::empty()
    } else {
        let r = select_in_order(order.drop_last(), names);
        if names.contains(order.last()) {
            r.push(order.last())
        } else {
            r
        }
    }
}

pub open spec fn missing_custom_list_message() -> Seq<char> {
    "HIPPOCAMPUS_TOOL_ALLOWLIST is required when HIPPOCAMPUS_TOOL_PROFILE=custom"@
}

/// The allowlist that a profile resolves to, or the message of the error.
pub open spec fn allowlist_for(p: ToolProfile, custom: Option<Seq<char>>) -> Result<
    Seq<Seq<char>>,
    Seq<char>,
> {
    match requested_names(p, custom) {
        None => Err(missing_custom_list_message()),
        Some(names) => match first_unknown(names) {
            Some(n) => Err("unknown tool name in allowlist: "@ + n),
            None => {
                let r = select_in_order(known_tool_names(), names);
                if r.len() == 0 {
                    Err("resolved tool allowlist is empty"@)
                } else {
                    Ok(r)
                }
            },
        },
    }
}

/// Strictly increasing: sorted and without duplicates.
pub open spec fn strictly_sorted(s: Seq<Seq<char>>) -> bool {
    forall|i: int, j: int| 0 <= i < j < s.len() ==> lex_lt(#[trigger] s[i], #[trigger] s[j])
}

proof fn lemma_known_tool_names_sorted()
    ensures
        strictly_sorted(known_tool_names()),
{
    reveal_strlit("echo");
    reveal_strlit("glob_search");
    reveal_strlit("grep_search");
    reveal_strlit("list_dir");
    reveal_strlit("lsp");
    reveal_strlit("net_echo");
    reveal_strlit("read_file");
    let k = known_tool_names();
    assert(lex_lt(k[0], k[1]));
    assert(lex_lt(k[1], k[2])) by {
        reveal_with_fuel(lex_lt, 3);
    }
    assert(lex_lt(k[2], k[3]));
    assert(lex_lt(k[3], k[4])) by {
        reveal_with_fuel(lex_lt, 3);
    }
    assert(lex_lt(k[4], k[5]));
    assert(lex_lt(k[5], k[6]));
    assert forall|i: int, j: int| 0 <= i < j < k.len() implies lex_lt(
        #[trigger] k[i],
        #[trigger] k[j],
    ) by {
        lemma_consecutive_sorted(k, i, j);
    }
}

proof fn lemma_consecutive_sorted(s: Seq<Seq<char>>, i: int, j: int)
    requires
        0 <= i < j < s.len(),
        forall|m: int| 0 <= m < s.len() - 1 ==> lex_lt(#[trigger] s[m], s[m + 1]),
    ensures
        lex_lt(s[i], s[j]),
    decreases j - i,
{
    if j > i + 1 {
        lemma_consecutive_sorted(s, i, j - 1);
        assert(lex_lt(s[j - 1], s[j]));
        lemma_lex_lt_transitive(s[i], s[j - 1], s[j]);
    }
}

proof fn lemma_select_contains(order: Seq<Seq<char>>, names: Seq<Seq<char>>, n: Seq<char>)
    ensures
        select_in_order(order, names).contains(n) <==> (order.contains(n) && names.contains(n)),
    decreases order.len(),
{
    if order.len() > 0 {
        lemma_select_contains(order.drop_last(), names, n);
        let r = select_in_order(order.drop_last(), names);
        if order.contains(n) && n != order.last() {
            let k = choose|k: int| 0 <= k < order.len() && order[k] == n;
            assert(order.drop_last()[k] == n);
        }
        if order.drop_last().contains(n) {
            let k = choose|k: int| 0 <= k < order.drop_last().len() && order.drop_last()[k] == n;
            assert(order[k] == n);
        }
        if names.contains(order.last()) {
            assert(r.push(order.last()).contains(n) <==> (r.contains(n) || n == order.last())) by {
                if r.push(order.last()).contains(n) && n != order.last() {
                    let k = choose|k: int|
                        0 <= k < r.push(order.last()).len() && r.push(order.last())[k] == n;
                    assert(r[k] == n);
                }
                if r.contains(n) {
                    let k = choose|k: int| 0 <= k < r.len() && r[k] == n;
                    assert(r.push(order.last())[k] == n);
                }
                assert(r.push(order.last())[r.len() as int] == order.last());
            }
        }
        assert(order[order.len() - 1] == order.last());
    }
}

proof fn lemma_select_sorted(order: Seq<Seq<char>>, names: Seq<Seq<char>>)
    requires
        strictly_sorted(order),
    ensures
        strictly_sorted(select_in_order(order, names)),
    decreases order.len(),
{
    if order.len() > 0 {
        let o = order.drop_last();
        assert(strictly_sorted(o)) by {
            assert forall|i: int, j: int| 0 <= i < j < o.len() implies lex_lt(
                #[trigger] o[i],
                #[trigger] o[j],
            ) by {
                assert(o[i] == order[i] && o[j] == order[j]);
            }
        }
        lemma_select_sorted(o, names);
        let r = select_in_order(o, names);
        if names.contains(order.last()) {
            let s = r.push(order.last());
            assert forall|i: int, j: int| 0 <= i < j < s.len() implies lex_lt(
                #[trigger] s[i],
                #[trigger] s[j],
            ) by {
                if j == r.len() {
                    assert(r.contains(r[i]));
                    lemma_select_contains(o, names, r[i]);
                    let k = choose|k: int| 0 <= k < o.len() && o[k] == r[i];
                    assert(order[k] == r[i]);
                    assert(lex_lt(order[k], order[order.len() - 1]));
                } else {
                    assert(s[i] == r[i] && s[j] == r[j]);
                }
            }
        }
    }
}

proof fn lemma_first_unknown_none(names: Seq<Seq<char>>, n: Seq<char>)
    requires
        first_unknown(names) is None,
        names.contains(n),
    ensures
        is_known_tool(n),
    decreases names.len(),
{
    let k = choose|k: int| 0 <= k < names.len() && names[k] == n;
    if k > 0 {
        assert(names.drop_first()[k - 1] == n);
        lemma_first_unknown_none(names.drop_first(), n);
    }
}

fn known_tool_list() -> (r: Vec<Vec<char>>)
    ensures
        seqs_view(r@) == known_tool_names(),
{
    let mut r: Vec<Vec<char>> = Vec::new();
    r.push(chars_of("echo"));
    r.push(chars_of("glob_search"));
    r.push(chars_of("grep_search"));
    r.push(chars_of("list_dir"));
    r.push(chars_of("lsp"));
    r.push(chars_of("net_echo"));
    r.push(chars_of("read_file"));
    assert(seqs_view(r@) =~= known_tool_names());
    r
}

fn preset_list(p: ToolProfile) -> (r: Vec<Vec<char>>)
    requires
        p != ToolProfile::Custom,
    ensures
        seqs_view(r@) == preset_names(p),
{
    let mut r: Vec<Vec<char>> = Vec::new();
    match p {
        ToolProfile::Coding => {
            r.push(chars_of("echo"));
            r.push(chars_of("read_file"));
            r.push(chars_of("list_dir"));
            r.push(chars_of("glob_search"));
            r.push(chars_of("grep_search"));
            r.push(chars_of("lsp"));
        },
        ToolProfile::Minimal => {
            r.push(chars_of("echo"));
            r.push(chars_of("read_file"));
        },
        ToolProfile::Office => {
            r.push(chars_of("echo"));
            r.push(chars_of("read_file"));
            r.push(chars_of("list_dir"));
            r.push(chars_of("glob_search"));
            r.push(chars_of("grep_search"));
            r.push(chars_of("lsp"));
            r.push(chars_of("net_echo"));
        },
        _ => {
            r.push(chars_of("echo"));
            r.push(chars_of("glob_search"));
            r.push(chars_of("grep_search"));
            r.push(chars_of("list_dir"));
            r.push(chars_of("lsp"));
            r.push(chars_of("net_echo"));
            r.push(chars_of("read_file"));
        },
    }
    assert(seqs_view(r@) =~= preset_names(p));
    r
}

/// Whether `names` holds `n`.
pub fn contains_chars(names: &[Vec<char>], n: &[char]) -> (b: bool)
    ensures
        b == seqs_view(names@).contains(n@),
{
    let ghost v = seqs_view(names@);
    let mut i: usize = 0;
    while i < names.len()
        invariant
            0 <= i <= names@.len(),
            v == seqs_view(names@),
            forall|k: int| 0 <= k < i ==> v[k] != n@,
        decreases names@.len() - i,
    {
        if chars_eq(names[i].as_slice(), n) {
            assert(v[i as int] == n@);
            return true;
        }
        i = i + 1;
    }
    false
}

/// Whether `name` is one of the built-in tools.
pub fn is_known_tool_name(name: &str) -> (b: bool)
    ensures
        b == is_known_tool(name@),
{
    let known = known_tool_list();
    let n = chars_of(name);
    contains_chars(known.as_slice(), n.as_slice())
}

fn trimmed_nonempty_exec(ps: &[Vec<char>]) -> (r: Vec<Vec<char>>)
    ensures
        seqs_view(r@) == trimmed_nonempty(seqs_view(ps@)),
{
    let ghost v = seqs_view(ps@);
    let mut r: Vec<Vec<char>> = Vec::new();
    let mut i: usize = 0;
    while i < ps.len()
        invariant
            0 <= i <= ps@.len(),
            v == seqs_view(ps@),
            seqs_view(r@) == trimmed_nonempty(v.take(i as int)),
        decreases ps@.len() - i,
    {
        let t = trim_chars(ps[i].as_slice());
        assert(v.take(i + 1).drop_last() == v.take(i as int));
        assert(v.take(i + 1).last() == ps@[i as int]@);
        if t.len() > 0 {
            let ghost old_r = seqs_view(r@);
            let ghost tv = t@;
            r.push(t);
            assert(seqs_view(r@) =~= old_r.push(tv));
        }
        i = i + 1;
    }
    assert(v.take(ps@.len() as int) == v);
    r
}

fn to_strings(v: &[Vec<char>]) -> (r: Vec<String>)
    ensures
        strings_view(r@) == seqs_view(v@),
{
    let mut r: Vec<String> = Vec::new();
    let mut i: usize = 0;
    while i < v.len()
        invariant
            0 <= i <= v@.len(),
            r@.len() == i,
            forall|k: int| 0 <= k < i ==> (#[trigger] r@[k])@ == v@[k]@,
        decreases v@.len() - i,
    {
        let s = string_of(v[i].as_slice());
        r.push(s);
        i = i + 1;
    }
    assert(strings_view(r@) =~= seqs_view(v@));
    r
}

/// The views of a list of names.
pub open spec fn strings_view(v: Seq<String>) -> Seq<Seq<char>> {
    v.map_values(|s: String| s@)
}

/// Resolves a profile to its ordered, deduplicated allowlist of tool names.
///
/// A custom profile takes its names from `custom_allowlist` (comma
/// separated); every name must be a known tool, and the result must not be
/// empty.
pub fn resolve_tool_allowlist(profile: ToolProfile, custom_allowlist: Option<&str>) -> (r: Result<
    Vec<String>,
    String,
>)
    ensures
        match (r, allowlist_for(profile, opt_str_view(custom_allowlist))) {
            (Ok(v), Ok(s)) => strings_view(v@) == s,
            (Err(e), Err(m)) => e@ == m,
            _ => false,
        },
        r matches Ok(v) ==> {
            &&& strictly_sorted(strings_view(v@))
            &&& requested_names(profile, opt_str_view(custom_allowlist)) matches Some(req)
            &&& forall|n: Seq<char>| strings_view(v@).contains(n) <==> req.contains(n)
        },
{
    let ghost custom = opt_str_view(custom_allowlist);
    let names: Vec<Vec<char>> = match profile {
        ToolProfile::Custom => {
            match custom_allowlist {
                None => {
                    return Err(string_of(chars_of(
                        "HIPPOCAMPUS_TOOL_ALLOWLIST is required when HIPPOCAMPUS_TOOL_PROFILE=custom",
                    ).as_slice()));
                },
                Some(raw) => {
                    let t = trim_str(raw);
                    if t.len() == 0 {
                        return Err(string_of(chars_of(
                            "HIPPOCAMPUS_TOOL_ALLOWLIST is required when HIPPOCAMPUS_TOOL_PROFILE=custom",
                        ).as_slice()));
                    }
                    let pieces = split_chars(t.as_slice(), ',');
                    trimmed_nonempty_exec(pieces.as_slice())
                },
            }
        },
        _ => preset_list(profile),
    };
    let ghost req = seqs_view(names@);
    assert(requested_names(profile, custom) == Some(req));
    // Every requested name must be a known tool.
    let known = known_tool_list();
    let mut i: usize = 0;
    assert(req.skip(0) == req);
    while i < names.len()
        invariant
            0 <= i <= names@.len(),
            req == seqs_view(names@),
            requested_names(profile, custom) == Some(req),
            custom == opt_str_view(custom_allowlist),
            seqs_view(known@) == known_tool_names(),
            first_unknown(req) == first_unknown(req.skip(i as int)),
        decreases names@.len() - i,
    {
        let ghost rest = req.skip(i as int);
        assert(rest[0] == req[i as int]);
        if !contains_chars(known.as_slice(), names[i].as_slice()) {
            let mut msg: Vec<char> = Vec::new();
            append_str(&mut msg, "unknown tool name in allowlist: ");
            append_chars(&mut msg, names[i].as_slice());
            proof {
                assert(req[i as int] == names@[i as int]@);
                assert(rest.len() > 0);
                assert(!is_known_tool(rest[0]));
                assert(first_unknown(rest) == Some(rest[0]));
                assert(msg@ =~= "unknown tool name in allowlist: "@ + rest[0]);
                assert(allowlist_for(profile, custom) == Err::<Seq<Seq<char>>, Seq<char>>(
                    "unknown tool name in allowlist: "@ + rest[0],
                ));
            }
            return Err(string_of(msg.as_slice()));
        }
        assert(rest.drop_first() == req.skip(i + 1));
        i = i + 1;
    }
    assert(req.skip(req.len() as int) =~= Seq::<Seq<char>>::empty());
    // Keep the known names that were requested, in lexicographic order.
    let mut out: Vec<Vec<char>> = Vec::new();
    let mut j: usize = 0;
    while j < known.len()
        invariant
            0 <= j <= known@.len(),
            req == seqs_view(names@),
            requested_names(profile, custom) == Some(req),
            custom == opt_str_view(custom_allowlist),
            seqs_view(known@) == known_tool_names(),
            seqs_view(out@) == select_in_order(known_tool_names().take(j as int), req),
        decreases known@.len() - j,
    {
        let ghost k = known_tool_names();
        assert(k.take(j + 1).drop_last() == k.take(j as int));
        assert(k.take(j + 1).last() == known@[j as int]@);
        if contains_chars(names.as_slice(), known[j].as_slice()) {
            let ghost old_o = seqs_view(out@);
            let ghost kv = known[j as int]@;
            out.push(sub_chars(known[j].as_slice(), 0, known[j].len()));
            assert(known[j as int]@.subrange(0, known[j as int]@.len() as int) == kv);
            assert(seqs_view(out@) =~= old_o.push(kv));
        }
        j = j + 1;
    }
    assert(known_tool_names().take(7) == known_tool_names());
    if out.len() == 0 {
        return Err(string_of(chars_of("resolved tool allowlist is empty").as_slice()));
    }
    proof {
        let s = select_in_order(known_tool_names(), req);
        lemma_known_tool_names_sorted();
        lemma_select_sorted(known_tool_names(), req);
        assert forall|n: Seq<char>| s.contains(n) <==> req.contains(n) by {
            lemma_select_contains(known_tool_names(), req, n);
            if req.contains(n) {
                lemma_first_unknown_none(req, n);
            }
        }
    }
    Ok(to_strings(out.as_slice()))
}

/// The coding profile resolves to its six tools, in lexicographic order.
pub proof fn lemma_coding_allowlist_resolves()
    ensures
        allowlist_for(ToolProfile::Coding, None) == Ok::<Seq<Seq<char>>, Seq<char>>(
            seq!["echo"@, "glob_search"@, "grep_search"@, "list_dir"@, "lsp"@, "read_file"@],
        ),
{
    reveal_strlit("echo");
    reveal_strlit("glob_search");
    reveal_strlit("grep_search");
    reveal_strlit("list_dir");
    reveal_strlit("lsp");
    reveal_strlit("net_echo");
    reveal_strlit("read_file");
    let names = preset_names(ToolProfile::Coding);
    let k = known_tool_names();
    assert(k[0] == names[0] && k[6] == names[1] && k[3] == names[2] && k[1] == names[3] && k[2]
        == names[4] && k[4] == names[5]);
    assert(first_unknown(names) is None) by {
        reveal_with_fuel(first_unknown, 7);
        assert(names.drop_first().drop_first().drop_first().drop_first().drop_first().drop_first().len() == 0);
    }
    assert(!names.contains(k[5])) by {
        if names.contains(k[5]) {
            let i = choose|i: int| 0 <= i < names.len() && names[i] == k[5];
            assert(names[i].len() != k[5].len() || names[i][0] != k[5][0]);
        }
    }
    assert(names.contains(k[0]));
    assert(names.contains(k[1]));
    assert(names.contains(k[2]));
    assert(names.contains(k[3]));
    assert(names.contains(k[4]));
    assert(names.contains(k[6]));
    reveal_with_fuel(select_in_order, 8);
    assert(select_in_order(k, names) =~= seq![k[0], k[1], k[2], k[3], k[4], k[6]]);
}

proof fn lemma_all_known(names: Seq<Seq<char>>)
    requires
        forall|i: int| 0 <= i < names.len() ==> is_known_tool(#[trigger] names[i]),
    ensures
        first_unknown(names) is None,
    decreases names.len(),
{
    if names.len() > 0 {
        assert(is_known_tool(names[0]));
        assert forall|i: int| 0 <= i < names.drop_first().len() implies is_known_tool(
            #[trigger] names.drop_first()[i],
        ) by {
            assert(names.drop_first()[i] == names[i + 1]);
        }
        lemma_all_known(names.drop_first());
    }
}

/// Every preset profile resolves, to its tools in lexicographic order:
/// `minimal` to echo and read_file, `office` and `full` to every tool.
pub proof fn lemma_preset_allowlists()
    ensures
        allowlist_for(ToolProfile::Minimal, None) == Ok::<Seq<Seq<char>>, Seq<char>>(
            seq!["echo"@, "read_file"@],
        ),
        allowlist_for(ToolProfile::Office, None) == Ok::<Seq<Seq<char>>, Seq<char>>(
            known_tool_names(),
        ),
        allowlist_for(ToolProfile::Full, None) == Ok::<Seq<Seq<char>>, Seq<char>>(
            known_tool_names(),
        ),
        allowlist_for(ToolProfile::Coding, None) == Ok::<Seq<Seq<char>>, Seq<char>>(
            seq!["echo"@, "glob_search"@, "grep_search"@, "list_dir"@, "lsp"@, "read_file"@],
        ),
{
    reveal_strlit("echo");
    reveal_strlit("glob_search");
    reveal_strlit("grep_search");
    reveal_strlit("list_dir");
    reveal_strlit("lsp");
    reveal_strlit("net_echo");
    reveal_strlit("read_file");
    lemma_coding_allowlist_resolves();
    let k = known_tool_names();
    let m = preset_names(ToolProfile::Minimal);
    assert(is_known_tool(m[0]) && is_known_tool(m[1])) by {
        assert(k[0] == m[0] && k[6] == m[1]);
    }
    lemma_all_known(m);
    assert(m.contains(k[0]) && m.contains(k[6]));
    assert forall|i: int| 1 <= i <= 5 implies !m.contains(#[trigger] k[i]) by {
        if m.contains(k[i]) {
            let j = choose|j: int| 0 <= j < m.len() && m[j] == k[i];
            assert(m[j].len() != k[i].len() || m[j][0] != k[i][0] || m[j][1] != k[i][1]);
        }
    }
    assert(!m.contains(k[1]) && !m.contains(k[2]) && !m.contains(k[3]) && !m.contains(k[4])
        && !m.contains(k[5]));
    reveal_with_fuel(select_in_order, 8);
    assert(select_in_order(k, m) =~= seq![k[0], k[6]]);
    let o = preset_names(ToolProfile::Office);
    let f = preset_names(ToolProfile::Full);
    assert(f =~= k);
    assert forall|i: int| 0 <= i < f.len() implies is_known_tool(#[trigger] f[i]) by {
        assert(k[i] == f[i]);
    }
    lemma_all_known(f);
    assert forall|i: int| 0 <= i < o.len() implies is_known_tool(#[trigger] o[i]) by {
        if i == 0 { assert(k[0] == o[0]); }
        else if i == 1 { assert(k[6] == o[1]); }
        else if i == 2 { assert(k[3] == o[2]); }
        else if i == 3 { assert(k[1] == o[3]); }
        else if i == 4 { assert(k[2] == o[4]); }
        else if i == 5 { assert(k[4] == o[5]); }
        else { assert(k[5] == o[6]); }
    }
    lemma_all_known(o);
    assert(o.contains(k[0]) && o.contains(k[6]) && o.contains(k[3]) && o.contains(k[1])
        && o.contains(k[2]) && o.contains(k[4]) && o.contains(k[5])) by {
        assert(o[0] == k[0] && o[1] == k[6] && o[2] == k[3] && o[3] == k[1] && o[4] == k[2]
            && o[5] == k[4] && o[6] == k[5]);
    }
    assert(f.contains(k[0]) && f.contains(k[6]) && f.contains(k[3]) && f.contains(k[1])
        && f.contains(k[2]) && f.contains(k[4]) && f.contains(k[5])) by {
        assert(f[0] == k[0] && f[1] == k[1] && f[2] == k[2] && f[3] == k[3] && f[4] == k[4]
            && f[5] == k[5] && f[6] == k[6]);
    }
    assert(select_in_order(k, o) =~= k);
    assert(select_in_order(k, f) =~= k);
}

/// The canonical name of every profile parses back to that profile.
pub proof fn lemma_profile_name_parses_back(p: ToolProfile)
    ensures
        profile_for_key(profile_key(profile_name(p))) == Some(p),
{
    let n = profile_name(p);
    reveal_strlit("coding");
    reveal_strlit("office");
    reveal_strlit("full");
    reveal_strlit("minimal");
    reveal_strlit("custom");
    reveal_strlit("code");
    reveal_strlit("min");
    assert(n.len() > 0 && !is_ws(n[0]) && !is_ws(n.last()));
    assert(trim_start(n) == n);
    assert(trim(n) == n);
    assert(forall|i: int| 0 <= i < n.len() ==> !('A' <= #[trigger] n[i] <= 'Z'));
    assert(ascii_lower_seq(n) =~= n);
    let c = "coding"@;
    let d = "code"@;
    let o = "office"@;
    let f = "full"@;
    let m = "minimal"@;
    let mn = "min"@;
    match p {
        ToolProfile::Coding => {},
        ToolProfile::Office => {
            assert(n[0] != c[0] && n.len() != d.len());
        },
        ToolProfile::Full => {
            assert(n.len() != c.len() && n[0] != d[0] && n.len() != o.len());
        },
        ToolProfile::Minimal => {
            assert(n.len() != c.len() && n.len() != d.len() && n.len() != o.len() && n.len() != f.len());
        },
        ToolProfile::Custom => {
            assert(n[1] != c[1] && n.len() != d.len() && n[0] != o[0] && n.len() != f.len() && n.len()
                != m.len() && n.len() != mn.len());
        },
    }
}

} // verus!
