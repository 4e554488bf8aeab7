use vstd::prelude::*;

use crate::text::{
    append_chars, append_str, chars_of, decimal, decimal_chars, has_prefix, join_seqs,
    lemma_decimal_injective, lines_of, lines_str, matches_at, opt_string_view, seqs_view,
    string_of, strip_prefix, strip_prefix_chars, trim, trim_chars,
};
use crate::tools::types::{ToolCall, ToolCallId};

verus! {

/// The counter behind generated call ids (`tc_1`, `tc_2`, ...).  It wraps
/// around on overflow.
pub struct CallIdSeq {
    next: u64,
}

impl CallIdSeq {
    pub closed spec fn next_value(&self) -> u64 {
        self.next
    }

    /// A counter whose first id is `tc_1`.
    pub fn new() -> (s: Self)
        ensures
            s.next_value() == 1,
    {
        CallIdSeq { next: 1 }
    }

    /// The number the next generated id carries.
    pub fn peek(&self) -> (n: u64)
        ensures
            n == self.next_value(),
    {
        self.next
    }

    fn take(&mut self) -> (n: u64)
        ensures
            n == old(self).next_value(),
            final(self).next_value() == next_after(old(self).next_value()),
    {
        let n = self.next;
        self.next = if n == u64::MAX {
            0
        } else {
            n + 1
        };
        n
    }
}

/// The counter value after one fetch-and-add.
pub open spec fn next_after(n: u64) -> u64 {
    if n == u64::MAX {
        0
    } else {
        (n + 1) as u64
    }
}

/// The text after `Final Answer:` on the first line (trimmed) that starts
/// with it.
pub open spec fn final_answer_in(lines: Seq<Seq<char>>) -> Option<Seq<char>>
    decreases lines.len(),
{
    if lines.len() == 0 {
        None
    } else {
        match strip_prefix(trim(lines[0]), "Final Answer:"@) {
            Some(rest) => Some(rest),
            None => final_answer_in(lines.drop_first()),
        }
    }
}

/// Finds the final answer of a model turn: the rest of the first line that,
/// trimmed, starts with `Final Answer:` (the rest is not trimmed).
pub fn parse_final_answer(text: &str) -> (r: Option<String>)
    ensures
        opt_string_view(r) == final_answer_in(lines_of(text@)),
{
    let lines = lines_str(text);
    let ghost ls = lines_of(text@);
    let marker = chars_of("Final Answer:");
    let mut i: usize = 0;
    assert(ls.skip(0) == ls);
    while i < lines.len()
        invariant
            0 <= i <= lines@.len(),
            ls == seqs_view(lines@),
            ls == lines_of(text@),
            marker@ == "Final Answer:"@,
            final_answer_in(ls) == final_answer_in(ls.skip(i as int)),
        decreases lines@.len() - i,
    {
        let ghost rest = ls.skip(i as int);
        assert(rest[0] == lines@[i as int]@);
        let t = trim_chars(lines[i].as_slice());
        match strip_prefix_chars(t.as_slice(), marker.as_slice()) {
            Some(r) => {
                assert(strip_prefix(trim(rest[0]), "Final Answer:"@) == Some(r@));
                assert(final_answer_in(rest) == Some(r@));
                return Some(string_of(r.as_slice()));
            },
            None => {},
        }
        assert(rest.drop_first() == ls.skip(i + 1));
        i = i + 1;
    }
    assert(ls.skip(ls.len() as int) =~= Seq::<Seq<char>>::empty());
    None
}

/// The `Action:`, `Action Input:` and `Call ID:` values seen so far (the
/// last occurrence of each wins), each trimmed.
pub open spec fn scan_fields(lines: Seq<Seq<char>>) -> (
    Option<Seq<char>>,
    Option<Seq<char>>,
    Option<Seq<char>>,
)
    decreases lines.len(),
{
    if lines.len() == 0 {
        (None, None, None)
    } else {
        let f = scan_fields(lines.drop_last());
        let t = trim(lines.last());
        if has_prefix(t, "Action:"@) {
            (Some(trim(t.skip(7))), f.1, f.2)
        } else if has_prefix(t, "Action Input:"@) {
            (f.0, Some(trim(t.skip(13))), f.2)
        } else if has_prefix(t, "Call ID:"@) {
            (f.0, f.1, Some(trim(t.skip(8))))
        } else {
            f
        }
    }
}

/// The tool call a model turn asks for: its name, its raw input and the
/// call id it gives (if it gives a non-blank one).  There is none unless
/// both `Action:` (non-blank) and `Action Input:` lines are present.
pub open spec fn parsed_call(text: Seq<char>) -> Option<
    (Seq<char>, Seq<char>, Option<Seq<char>>),
> {
    let f = scan_fields(lines_of(text));
    match f.0 {
        None => None,
        Some(a) => {
            let name = trim(a);
            if name.len() == 0 {
                None
            } else {
                match f.1 {
                    None => None,
                    Some(input) => Some(
                        (
                            name,
                            input,
                            match f.2 {
                                Some(c) => if trim(c).len() > 0 {
                                    Some(c)
                                } else {
                                    None
                                },
                                None => None,
                            },
                        ),
                    ),
                }
            }
        },
    }
}

/// `r` is the call parsed from `text`, and the id counter went from `before`
/// to `after`: it advances only when an id was generated.
pub open spec fn call_parsed_as(text: Seq<char>, r: Option<ToolCall>, before: u64, after: u64) -> bool {
    match parsed_call(text) {
        None => r is None && after == before,
        Some((name, input, given)) => r matches Some(c) && c.name@ == name && c.raw_input@ == input
            && match given {
            Some(id) => c.id.0@ == id && after == before,
            None => c.id.0@ == generated_call_id(before) && after == next_after(before),
        },
    }
}

/// The id generated for a call that gives none.
pub open spec fn generated_call_id(n: u64) -> Seq<char> {
    "tc_"@ + decimal(n as nat)
}

/// Generated call ids differ for different counter values, so the ids a
/// counter hands out are distinct until it wraps around.
pub proof fn lemma_generated_ids_distinct(a: u64, b: u64)
    requires
        a != b,
    ensures
        generated_call_id(a) != generated_call_id(b),
{
    if generated_call_id(a) == generated_call_id(b) {
        let p = "tc_"@;
        assert(generated_call_id(a).skip(p.len() as int) =~= decimal(a as nat));
        assert(generated_call_id(b).skip(p.len() as int) =~= decimal(b as nat));
        lemma_decimal_injective(a as nat, b as nat);
    }
}

/// Parses the tool call of a model turn (`Action:` / `Action Input:`, with
/// an optional `Call ID:`).  A call without an id gets the next generated
/// one.
pub fn parse_react_tool_call(text: &str, ids: &mut CallIdSeq) -> (r: Option<ToolCall>)
    ensures
        call_parsed_as(text@, r, old(ids).next_value(), final(ids).next_value()),
{
    let lines = lines_str(text);
    let ghost ls = lines_of(text@);
    let p_action = chars_of("Action:");
    let p_input = chars_of("Action Input:");
    let p_id = chars_of("Call ID:");
    let mut action: Option<Vec<char>> = None;
    let mut action_input: Option<Vec<char>> = None;
    let mut call_id: Option<Vec<char>> = None;
    let mut i: usize = 0;
    proof {
        reveal_strlit("Action:");
        reveal_strlit("Action Input:");
        reveal_strlit("Call ID:");
    }
    assert(ls.take(0) == Seq::<Seq<char>>::empty());
    while i < lines.len()
        invariant
            0 <= i <= lines@.len(),
            ls == seqs_view(lines@),
            p_action@ == "Action:"@,
            p_input@ == "Action Input:"@,
            p_id@ == "Call ID:"@,
            p_action@.len() == 7,
            p_input@.len() == 13,
            p_id@.len() == 8,
            scan_fields(ls.take(i as int)) == (
                opt_vec_view(action),
                opt_vec_view(action_input),
                opt_vec_view(call_id),
            ),
        decreases lines@.len() - i,
    {
        assert(ls.take(i + 1).drop_last() == ls.take(i as int));
        assert(ls.take(i + 1).last() == lines@[i as int]@);
        let t = trim_chars(lines[i].as_slice());
        match strip_prefix_chars(t.as_slice(), p_action.as_slice()) {
            Some(rest) => {
                action = Some(trim_chars(rest.as_slice()));
            },
            None => match strip_prefix_chars(t.as_slice(), p_input.as_slice()) {
                Some(rest) => {
                    action_input = Some(trim_chars(rest.as_slice()));
                },
                None => match strip_prefix_chars(t.as_slice(), p_id.as_slice()) {
                    Some(rest) => {
                        call_id = Some(trim_chars(rest.as_slice()));
                    },
                    None => {},
                },
            },
        }
        i = i + 1;
    }
    assert(ls.take(ls.len() as int) == ls);
    let name = match action {
        None => {
            return None;
        },
        Some(a) => trim_chars(a.as_slice()),
    };
    if name.len() == 0 {
        return None;
    }
    let raw_input = match action_input {
        None => {
            return None;
        },
        Some(v) => v,
    };
    let given = match call_id {
        Some(c) => if trim_chars(c.as_slice()).len() > 0 {
            Some(c)
        } else {
            None
        },
        None => None,
    };
    let id = match given {
        Some(c) => ToolCallId(string_of(c.as_slice())),
        None => {
            let n = ids.take();
            let mut s = chars_of("tc_");
            let d = decimal_chars(n);
            append_chars(&mut s, d.as_slice());
            ToolCallId(string_of(s.as_slice()))
        },
    };
    Some(ToolCall { id, name: string_of(name.as_slice()), raw_input: string_of(raw_input.as_slice()) })
}

/// The characters of an optional character vector.
pub open spec fn opt_vec_view(o: Option<Vec<char>>) -> Option<Seq<char>> {
    match o {
        Some(v) => Some(v@),
        None => None,
    }
}

/// Whether a (trimmed) line starts a new section of a model turn.
pub open spec fn is_section_marker(t: Seq<char>) -> bool {
    ||| has_prefix(t, "Thought:"@)
    ||| has_prefix(t, "Action:"@)
    ||| has_prefix(t, "Action Input:"@)
    ||| has_prefix(t, "Call ID:"@)
    ||| has_prefix(t, "Final Answer:"@)
    ||| has_prefix(t, "Observation:"@)
}

/// The lines up to (not including) the first section marker.
pub open spec fn until_marker(lines: Seq<Seq<char>>) -> Seq<Seq<char>>
    decreases lines.len(),
{
    if lines.len() == 0 || is_section_marker(trim(lines[0])) {
        Seq::empty()
    } else {
        seq![lines[0]] + until_marker(lines.drop_first())
    }
}

/// The thought of a model turn: from the first line that, trimmed, starts
/// with `Thought:`, the rest of that line and the lines that follow up to the
/// next section marker, joined by newlines and trimmed; none when there is no
/// such line or the thought is blank.
pub open spec fn thought_in(lines: Seq<Seq<char>>) -> Option<Seq<char>>
    decreases lines.len(),
{
    if lines.len() == 0 {
        None
    } else {
        match strip_prefix(trim(lines[0]), "Thought:"@) {
            Some(rest) => {
                let body = trim(join_seqs(seq![rest] + until_marker(lines.drop_first()), "\n"@));
                if body.len() > 0 {
                    Some(body)
                } else {
                    None
                }
            },
            None => thought_in(lines.drop_first()),
        }
    }
}

fn is_marker_line(t: &[char]) -> (b: bool)
    ensures
        b == is_section_marker(t@),
{
    let ghost z = t@.skip(0);
    assert(z == t@);
    matches_at(t, 0, chars_of("Thought:").as_slice()) || matches_at(
        t,
        0,
        chars_of("Action:").as_slice(),
    ) || matches_at(t, 0, chars_of("Action Input:").as_slice()) || matches_at(
        t,
        0,
        chars_of("Call ID:").as_slice(),
    ) || matches_at(t, 0, chars_of("Final Answer:").as_slice()) || matches_at(
        t,
        0,
        chars_of("Observation:").as_slice(),
    )
}

/// `parts` joined with newlines.
fn join_lines(parts: &[Vec<char>]) -> (r: Vec<char>)
    ensures
        r@ == join_seqs(seqs_view(parts@), "\n"@),
{
    let ghost views = seqs_view(parts@);
    let mut out: Vec<char> = Vec::new();
    let mut i: usize = 0;
    while i < parts.len()
        invariant
            0 <= i <= parts@.len(),
            views == seqs_view(parts@),
            out@ == join_seqs(views.take(i as int), "\n"@),
        decreases parts@.len() - i,
    {
        assert(views.take(i + 1).drop_last() == views.take(i as int));
        if i > 0 {
            append_str(&mut out, "\n");
        }
        append_chars(&mut out, parts[i].as_slice());
        i = i + 1;
    }
    assert(views.take(parts@.len() as int) == views);
    out
}

/// Extracts the `Thought:` section of a model turn.
pub fn parse_thought(text: &str) -> (r: Option<String>)
    ensures
        opt_string_view(r) == thought_in(lines_of(text@)),
{
    let lines = lines_str(text);
    let ghost ls = lines_of(text@);
    let marker = chars_of("Thought:");
    let n = lines.len();
    let mut i: usize = 0;
    assert(ls.skip(0) == ls);
    while i < n
        invariant
            0 <= i <= n == lines@.len(),
            ls == seqs_view(lines@),
            ls == lines_of(text@),
            marker@ == "Thought:"@,
            thought_in(ls) == thought_in(ls.skip(i as int)),
        decreases n - i,
    {
        let ghost rest = ls.skip(i as int);
        assert(rest[0] == lines@[i as int]@);
        let t = trim_chars(lines[i].as_slice());
        match strip_prefix_chars(t.as_slice(), marker.as_slice()) {
            Some(first) => {
                let mut parts: Vec<Vec<char>> = Vec::new();
                let ghost first_v = first@;
                parts.push(first);
                let mut j: usize = i + 1;
                assert(rest.drop_first() == ls.skip(i + 1));
                assert(seqs_view(parts@) =~= seq![first_v]);
                while j < n && !is_marker_line(trim_chars(lines[j].as_slice()).as_slice())
                    invariant
                        i < j <= n == lines@.len(),
                        ls == seqs_view(lines@),
                        seqs_view(parts@) + until_marker(ls.skip(j as int)) == seq![first_v]
                            + until_marker(ls.skip(i + 1)),
                    decreases n - j,
                {
                    let ghost tail = ls.skip(j as int);
                    assert(tail[0] == lines@[j as int]@);
                    assert(tail.drop_first() == ls.skip(j + 1));
                    let ghost old_p = seqs_view(parts@);
                    let line = sub_all(lines[j].as_slice());
                    parts.push(line);
                    assert(seqs_view(parts@) =~= old_p.push(lines@[j as int]@));
                    assert(until_marker(tail) == seq![tail[0]] + until_marker(tail.drop_first()));
                    assert(old_p.push(lines@[j as int]@) + until_marker(ls.skip(j + 1)) =~= old_p
                        + (seq![tail[0]] + until_marker(tail.drop_first())));
                    j = j + 1;
                }
                proof {
                    let tail = ls.skip(j as int);
                    if j < n {
                        assert(tail[0] == lines@[j as int]@);
                    }
                    assert(until_marker(tail) == Seq::<Seq<char>>::empty());
                    assert(seqs_view(parts@) + Seq::<Seq<char>>::empty() =~= seqs_view(parts@));
                }
                let joined = join_lines(parts.as_slice());
                let body = trim_chars(joined.as_slice());
                proof {
                    assert(strip_prefix(trim(rest[0]), "Thought:"@) == Some(first_v));
                    assert(seqs_view(parts@) == seq![first_v] + until_marker(rest.drop_first()));
                    assert(body@ == trim(
                        join_seqs(seq![first_v] + until_marker(rest.drop_first()), "\n"@),
                    ));
                }
                if body.len() > 0 {
                    return Some(string_of(body.as_slice()));
                } else {
                    return None;
                }
            },
            None => {},
        }
        assert(rest.drop_first() == ls.skip(i + 1));
        i = i + 1;
    }
    assert(ls.skip(ls.len() as int) =~= Seq::<Seq<char>>::empty());
    None
}

fn sub_all(s: &[char]) -> (r: Vec<char>)
    ensures
        r@ == s@,
{
    let r = crate::text::sub_chars(s, 0, s.len());
    assert(s@.subrange(0, s@.len() as int) == s@);
    r
}

} // verus!
