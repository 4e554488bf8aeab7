//! The pieces of a one-shot LSP stdio session that compute: operations,
//! language ids, file URIs, and the `Content-Length` framing of JSON-RPC
//! messages.

use vstd::prelude::*;

use crate::text::{
    append_chars, append_str, chars_eq_str, chars_of, decimal, decimal_chars, digit_char,
    has_prefix, opt_string_view, seqs_view, split_chars, split_on, string_of, strip_prefix,
    strip_prefix_chars, trim, trim_chars, trim_end, trim_start, trim_str,
};

verus! {

/// The queries the `lsp` tool makes.
#[derive(Debug, Clone, Copy, PartialEq, Eq, Structural)]
pub enum LspOperation {
    GoToDefinition,
    FindReferences,
}

/// The operation a (trimmed) name selects; both snake and camel case.
pub open spec fn operation_for(k: Seq<char>) -> Option<LspOperation> {
    if k == "go_to_definition"@ || k == "goToDefinition"@ {
        Some(LspOperation::GoToDefinition)
    } else if k == "find_references"@ || k == "findReferences"@ {
        Some(LspOperation::FindReferences)
    } else {
        None
    }
}

/// The JSON-RPC method of an operation.
pub open spec fn operation_method(op: LspOperation) -> Seq<char> {
    match op {
        LspOperation::GoToDefinition => "textDocument/definition"@,
        LspOperation::FindReferences => "textDocument/references"@,
    }
}

/// The snake-case label of an operation in tool output.
pub open spec fn operation_label(op: LspOperation) -> Seq<char> {
    match op {
        LspOperation::GoToDefinition => "go_to_definition"@,
        LspOperation::FindReferences => "find_references"@,
    }
}

/// `c` in upper case when it is an ASCII lower-case letter.
pub open spec fn ascii_upper(c: char) -> char {
    if 'a' <= c <= 'z' {
        ((c as int) - 32) as char
    } else {
        c
    }
}

/// The camelCase form of a snake_case name: each `_` is dropped and the
/// letter after it is upper-cased.
pub open spec fn camel_case(s: Seq<char>) -> Seq<char>
    decreases s.len(),
{
    if s.len() == 0 {
        Seq::empty()
    } else if s[0] == '_' && s.len() >= 2 {
        seq![ascii_upper(s[1])] + camel_case(s.skip(2))
    } else {
        seq![s[0]] + camel_case(s.drop_first())
    }
}

proof fn lemma_camel_plain(s: Seq<char>)
    requires
        forall|k: int| 0 <= k < s.len() ==> #[trigger] s[k] != '_',
    ensures
        camel_case(s) == s,
    decreases s.len(),
{
    if s.len() > 0 {
        assert(forall|k: int| 0 <= k < s.drop_first().len() ==> #[trigger] s.drop_first()[k] == s[k
            + 1]);
        lemma_camel_plain(s.drop_first());
        assert(seq![s[0]] + s.drop_first() =~= s);
    }
}

proof fn lemma_camel_step(w: Seq<char>, rest: Seq<char>)
    requires
        w.len() >= 1,
        forall|k: int| 0 <= k < w.len() ==> #[trigger] w[k] != '_',
        rest.len() >= 2,
        rest[0] == '_',
    ensures
        camel_case(w + rest) == w + seq![ascii_upper(rest[1])] + camel_case(rest.skip(2)),
    decreases w.len(),
{
    let s = w + rest;
    assert(s[0] == w[0]);
    if w.len() == 1 {
        assert(s.drop_first() =~= rest);
        assert(camel_case(rest) == seq![ascii_upper(rest[1])] + camel_case(rest.skip(2)));
        assert(seq![w[0]] + (seq![ascii_upper(rest[1])] + camel_case(rest.skip(2))) =~= w + seq![
            ascii_upper(rest[1]),
        ] + camel_case(rest.skip(2)));
    } else {
        let w2 = w.drop_first();
        assert(s.drop_first() =~= w2 + rest);
        assert(forall|k: int| 0 <= k < w2.len() ==> #[trigger] w2[k] == w[k + 1]);
        lemma_camel_step(w2, rest);
        assert(seq![w[0]] + (w2 + seq![ascii_upper(rest[1])] + camel_case(rest.skip(2))) =~= w
            + seq![ascii_upper(rest[1])] + camel_case(rest.skip(2)));
    }
}

proof fn lemma_camel_go_to_definition()
    ensures
        camel_case("go_to_definition"@) == "goToDefinition"@,
{
    reveal_strlit("go_to_definition");
    reveal_strlit("goToDefinition");
    let s = "go_to_definition"@;
    let r1 = s.skip(2);
    assert(s =~= seq!['g', 'o'] + r1);
    assert(r1.skip(2) =~= seq!['o', '_', 'd', 'e', 'f', 'i', 'n', 'i', 't', 'i', 'o', 'n']);
    let a = r1.skip(2);
    assert(a =~= seq!['o'] + a.drop_first());
    let b = a.drop_first();
    assert(b =~= seq!['_', 'd', 'e', 'f', 'i', 'n', 'i', 't', 'i', 'o', 'n']);
    let c = b.skip(2);
    assert(c =~= seq!['e', 'f', 'i', 'n', 'i', 't', 'i', 'o', 'n']);
    lemma_camel_plain(c);
    lemma_camel_step(seq!['o'], b);
    assert(seq!['o'] + b =~= a);
    lemma_camel_step(seq!['g', 'o'], r1);
    assert(ascii_upper('t') == 'T');
    assert(ascii_upper('d') == 'D');
    assert(camel_case(s) =~= "goToDefinition"@);
}

proof fn lemma_camel_find_references()
    ensures
        camel_case("find_references"@) == "findReferences"@,
{
    reveal_strlit("find_references");
    reveal_strlit("findReferences");
    let s = "find_references"@;
    let w = seq!['f', 'i', 'n', 'd'];
    let r = s.skip(4);
    assert(s =~= w + r);
    assert(r =~= seq!['_', 'r', 'e', 'f', 'e', 'r', 'e', 'n', 'c', 'e', 's']);
    let c = r.skip(2);
    assert(c =~= seq!['e', 'f', 'e', 'r', 'e', 'n', 'c', 'e', 's']);
    lemma_camel_plain(c);
    lemma_camel_step(w, r);
    assert(ascii_upper('r') == 'R');
    assert(camel_case(s) =~= "findReferences"@);
}

/// Both spellings of an operation name parse to that operation: its
/// snake_case label (as tool output shows it) and the camelCase form of that
/// label (as editors spell it); different operations have different methods.
pub proof fn lemma_operation_names_parse(op: LspOperation, other: LspOperation)
    ensures
        operation_for(operation_label(op)) == Some(op),
        operation_for(camel_case(operation_label(op))) == Some(op),
        op != other ==> operation_method(op) != operation_method(other),
{
    reveal_strlit("go_to_definition");
    reveal_strlit("goToDefinition");
    reveal_strlit("find_references");
    reveal_strlit("findReferences");
    reveal_strlit("textDocument/definition");
    reveal_strlit("textDocument/references");
    lemma_camel_go_to_definition();
    lemma_camel_find_references();
    assert("go_to_definition"@ != "find_references"@) by {
        assert("go_to_definition"@[0] != "find_references"@[0]);
    }
    assert("goToDefinition"@ != "find_references"@) by {
        assert("goToDefinition"@[0] != "find_references"@[0]);
    }
    assert("findReferences"@ != "go_to_definition"@) by {
        assert("findReferences"@[0] != "go_to_definition"@[0]);
    }
    assert("findReferences"@ != "goToDefinition"@) by {
        assert("findReferences"@[0] != "goToDefinition"@[0]);
    }
    assert("textDocument/definition"@ != "textDocument/references"@) by {
        assert("textDocument/definition"@[13] != "textDocument/references"@[13]);
    }
}

impl LspOperation {
    /// Parses an operation name (surrounding whitespace ignored).
    pub fn parse(s: &str) -> (r: Result<Self, String>)
        ensures
            match r {
                Ok(op) => operation_for(trim(s@)) == Some(op),
                Err(e) => operation_for(trim(s@)) is None && e@ == "unsupported lsp operation: "@
                    + trim(s@),
            },
    {
        let k = trim_str(s);
        let k = k.as_slice();
        if chars_eq_str(k, "go_to_definition") || chars_eq_str(k, "goToDefinition") {
            Ok(LspOperation::GoToDefinition)
        } else if chars_eq_str(k, "find_references") || chars_eq_str(k, "findReferences") {
            Ok(LspOperation::FindReferences)
        } else {
            let mut m = chars_of("unsupported lsp operation: ");
            append_chars(&mut m, k);
            Err(string_of(m.as_slice()))
        }
    }

    /// The JSON-RPC method.
    pub fn method(self) -> (r: &'static str)
        ensures
            r@ == operation_method(self),
    {
        match self {
            LspOperation::GoToDefinition => "textDocument/definition",
            LspOperation::FindReferences => "textDocument/references",
        }
    }

    /// The label in tool output.
    pub fn label(self) -> (r: &'static str)
        ensures
            r@ == operation_label(self),
    {
        match self {
            LspOperation::GoToDefinition => "go_to_definition",
            LspOperation::FindReferences => "find_references",
        }
    }
}

/// The components of a path that name something (`Path::components`
/// without root, `.` and empty parts).
pub open spec fn named_components(parts: Seq<Seq<char>>) -> Seq<Seq<char>>
    decreases parts.len(),
{
    if parts.len() == 0 {
        Seq::empty()
    } else {
        let r = named_components(parts.drop_last());
        if parts.last().len() == 0 || parts.last() == "."@ {
            r
        } else {
            r.push(parts.last())
        }
    }
}

/// `Path::file_name`: the last component, unless it is `..` or absent.
pub open spec fn file_name(p: Seq<char>) -> Option<Seq<char>> {
    let c = named_components(split_on(p, '/'));
    if c.len() == 0 || c.last() == ".."@ {
        None
    } else {
        Some(c.last())
    }
}

/// The index of the last `'.'`, or -1.
pub open spec fn last_dot(s: Seq<char>) -> int
    decreases s.len(),
{
    if s.len() == 0 {
        -1
    } else if s.last() == '.' {
        s.len() - 1
    } else {
        last_dot(s.drop_last())
    }
}

/// `Path::extension`: what follows the last `'.'` of the file name, unless
/// that dot starts the name.
pub open spec fn extension(p: Seq<char>) -> Option<Seq<char>> {
    match file_name(p) {
        None => None,
        Some(n) => if last_dot(n) > 0 {
            Some(n.skip(last_dot(n) + 1))
        } else {
            None
        },
    }
}

/// The LSP language id for a file extension.
pub open spec fn language_for(ext: Option<Seq<char>>) -> Seq<char> {
    match ext {
        Some(e) => if e == "rs"@ {
            "rust"@
        } else if e == "ts"@ || e == "tsx"@ {
            "typescript"@
        } else if e == "js"@ || e == "jsx"@ || e == "mjs"@ || e == "cjs"@ {
            "javascript"@
        } else if e == "json"@ {
            "json"@
        } else if e == "md"@ {
            "markdown"@
        } else if e == "toml"@ {
            "toml"@
        } else if e == "go"@ {
            "go"@
        } else if e == "py"@ {
            "python"@
        } else if e == "c"@ || e == "h"@ {
            "c"@
        } else if e == "cpp"@ || e == "cc"@ || e == "cxx"@ || e == "hpp"@ {
            "cpp"@
        } else {
            "plaintext"@
        },
        None => "plaintext"@,
    }
}

fn named_components_exec(parts: &[Vec<char>]) -> (r: Vec<Vec<char>>)
    ensures
        seqs_view(r@) == named_components(seqs_view(parts@)),
{
    let ghost v = seqs_view(parts@);
    let mut r: Vec<Vec<char>> = Vec::new();
    let mut i: usize = 0;
    while i < parts.len()
        invariant
            0 <= i <= parts@.len(),
            v == seqs_view(parts@),
            seqs_view(r@) == named_components(v.take(i as int)),
        decreases parts@.len() - i,
    {
        assert(v.take(i + 1).drop_last() == v.take(i as int));
        assert(v.take(i + 1).last() == parts@[i as int]@);
        let p = &parts[i];
        if !(p.len() == 0 || chars_eq_str(p.as_slice(), ".")) {
            let ghost before = seqs_view(r@);
            let c = crate::text::sub_chars(p.as_slice(), 0, p.len());
            assert(p@.subrange(0, p@.len() as int) == p@);
            r.push(c);
            assert(seqs_view(r@) =~= before.push(p@));
        }
        i = i + 1;
    }
    assert(v.take(parts@.len() as int) == v);
    r
}

fn extension_exec(path: &str) -> (r: Option<Vec<char>>)
    ensures
        match r {
            Some(e) => extension(path@) == Some(e@),
            None => extension(path@) is None,
        },
{
    let pv = chars_of(path);
    let parts = split_chars(pv.as_slice(), '/');
    let comps = named_components_exec(parts.as_slice());
    if comps.len() == 0 {
        return None;
    }
    let name = &comps[comps.len() - 1];
    if chars_eq_str(name.as_slice(), "..") {
        return None;
    }
    assert(file_name(path@) == Some(name@));
    let mut j: usize = name.len();
    assert(name@.take(j as int) == name@);
    while j > 0 && name[j - 1] != '.'
        invariant
            j <= name@.len(),
            last_dot(name@) == last_dot(name@.take(j as int)),
        decreases j,
    {
        assert(name@.take(j as int).drop_last() == name@.take(j - 1));
        j = j - 1;
    }
    if j == 0 {
        assert(name@.take(0) == Seq::<char>::empty());
        return None;
    }
    assert(name@.take(j as int).last() == '.');
    if j - 1 == 0 {
        return None;
    }
    Some(crate::text::sub_chars(name.as_slice(), j, name.len()))
}

/// The LSP `languageId` of a file, by its extension.
pub fn language_id(path: &str) -> (r: &'static str)
    ensures
        r@ == language_for(extension(path@)),
{
    let e = match extension_exec(path) {
        None => {
            return "plaintext";
        },
        Some(e) => e,
    };
    let e = e.as_slice();
    if chars_eq_str(e, "rs") {
        "rust"
    } else if chars_eq_str(e, "ts") || chars_eq_str(e, "tsx") {
        "typescript"
    } else if chars_eq_str(e, "js") || chars_eq_str(e, "jsx") || chars_eq_str(e, "mjs")
        || chars_eq_str(e, "cjs") {
        "javascript"
    } else if chars_eq_str(e, "json") {
        "json"
    } else if chars_eq_str(e, "md") {
        "markdown"
    } else if chars_eq_str(e, "toml") {
        "toml"
    } else if chars_eq_str(e, "go") {
        "go"
    } else if chars_eq_str(e, "py") {
        "python"
    } else if chars_eq_str(e, "c") || chars_eq_str(e, "h") {
        "c"
    } else if chars_eq_str(e, "cpp") || chars_eq_str(e, "cc") || chars_eq_str(e, "cxx")
        || chars_eq_str(e, "hpp") {
        "cpp"
    } else {
        "plaintext"
    }
}

/// The `file://` URL of a path (`url::Url::from_file_path`), or `None` when
/// the path is not absolute.
pub uninterp spec fn file_url(path: Seq<char>) -> Option<Seq<char>>;

/// `url::Url::from_file_path`, as text.
#[verifier::external_body]
fn file_url_text(path: &str) -> (r: Option<String>)
    ensures
        opt_string_view(r) == file_url(path@),
{
    match url::Url::from_file_path(path) {
        Ok(u) => Some(String::from(u)),
        Err(()) => None,
    }
}

/// The `file://` URI of a path.
pub fn file_uri(path: &str) -> (r: Result<String, String>)
    ensures
        match r {
            Ok(u) => file_url(path@) == Some(u@),
            Err(e) => file_url(path@) is None && e@ == "invalid file path for URL"@,
        },
{
    match file_url_text(path) {
        Some(u) => Ok(u),
        None => Err(string_of(chars_of("invalid file path for URL").as_slice())),
    }
}

/// ASCII text as bytes.
pub open spec fn ascii_bytes(s: Seq<char>) -> Seq<u8> {
    s.map_values(|c: char| c as u8)
}

/// A JSON-RPC message framed for stdio: a `Content-Length` header, a blank
/// line, then the body.
pub open spec fn framed(body: Seq<u8>) -> Seq<u8> {
    ascii_bytes("Content-Length: "@ + decimal(body.len()) + "\r\n\r\n"@) + body
}

/// The header line that frames a body of `n` bytes.
pub open spec fn frame_header_line(n: nat) -> Seq<char> {
    "Content-Length: "@ + decimal(n) + "\r\n"@
}

proof fn lemma_decimal_digits(n: nat)
    ensures
        forall|k: int| 0 <= k < decimal(n).len() ==> '0' <= #[trigger] decimal(n)[k] <= '9',
        decimal(n).len() >= 1,
    decreases n,
{
    if n >= 10 {
        lemma_decimal_digits(n / 10);
        let d = decimal(n / 10);
        assert forall|k: int| 0 <= k < decimal(n).len() implies '0' <= #[trigger] decimal(n)[k]
            <= '9' by {
            if k < d.len() {
                assert(decimal(n)[k] == d[k]);
            }
        }
    }
}

proof fn lemma_parse_digits_push(acc: nat, s: Seq<char>, c: char, a: nat, d: nat)
    requires
        parse_digits(acc, s) == Ok::<nat, ParseIntError>(a),
        digit_value(c) == Some(d),
        a * 10 + d <= usize::MAX,
    ensures
        parse_digits(acc, s.push(c)) == Ok::<nat, ParseIntError>(a * 10 + d),
    decreases s.len(),
{
    let t = s.push(c);
    assert(t.len() > 0);
    if s.len() == 0 {
        assert(a == acc);
        assert(t[0] == c);
        assert(t.drop_first() =~= Seq::<char>::empty());
        assert(parse_digits(acc * 10 + d, t.drop_first()) == Ok::<nat, ParseIntError>(
            acc * 10 + d,
        ));
    } else {
        let e = digit_value(s[0])->0;
        let acc2 = acc * 10 + e;
        assert(digit_value(s[0]) is Some);
        assert(acc2 <= usize::MAX);
        assert(parse_digits(acc2, s.drop_first()) == Ok::<nat, ParseIntError>(a));
        assert(t[0] == s[0]);
        assert(t.drop_first() =~= s.drop_first().push(c));
        lemma_parse_digits_push(acc2, s.drop_first(), c, a, d);
    }
}

proof fn lemma_parse_decimal(n: nat)
    requires
        n <= usize::MAX,
    ensures
        parse_digits(0, decimal(n)) == Ok::<nat, ParseIntError>(n),
    decreases n,
{
    if n < 10 {
        let t = seq![digit_char(n)];
        assert(decimal(n) == t);
        assert(digit_value(t[0]) == Some(n));
        assert(t.drop_first() =~= Seq::<char>::empty());
        assert(parse_digits(n, t.drop_first()) == Ok::<nat, ParseIntError>(n));
    } else {
        assert(decimal(n) == decimal(n / 10).push(digit_char(n % 10)));
        lemma_parse_decimal(n / 10);
        assert(digit_value(digit_char(n % 10)) == Some(n % 10));
        assert((n / 10) * 10 + n % 10 == n);
        lemma_parse_digits_push(0, decimal(n / 10), digit_char(n % 10), n / 10, n % 10);
    }
}

/// Reading back a framed message: the frame is the header line, a blank
/// line, then the body.  The header line ends at its only newline, is not
/// blank, and gives the body's length, so a fresh `LspHeaderReader` fed the
/// two lines answers `Body` with that length.
pub proof fn lemma_frame_reads_back(body: Seq<u8>)
    requires
        body.len() <= usize::MAX,
    ensures
        framed(body) == ascii_bytes(frame_header_line(body.len()) + "\r\n"@) + body,
        frame_header_line(body.len()).last() == '\n',
        forall|k: int|
            0 <= k < frame_header_line(body.len()).len() - 1 ==> #[trigger] frame_header_line(
                body.len(),
            )[k] != '\n',
        frame_header_line(body.len()) != "\r\n"@,
        frame_header_line(body.len()) != "\n"@,
        header_length(frame_header_line(body.len())) == Some(
            Ok::<nat, ParseIntError>(body.len()),
        ),
{
    let n = body.len();
    let p = "Content-Length: "@;
    let fa = "Content-Length:"@;
    let d = decimal(n);
    let line = frame_header_line(n);
    reveal_strlit("Content-Length: ");
    reveal_strlit("Content-Length:");
    reveal_strlit("\r\n");
    reveal_strlit("\r\n\r\n");
    reveal_strlit("\n");
    lemma_decimal_digits(n);
    assert(p + d + "\r\n\r\n"@ =~= line + "\r\n"@);
    assert(line.len() == p.len() + d.len() + 2);
    assert forall|k: int| 0 <= k < line.len() - 1 implies #[trigger] line[k] != '\n' by {
        if k < p.len() {
            assert(line[k] == p[k]);
        } else if k < p.len() + d.len() {
            assert(line[k] == d[k - p.len()]);
        } else {
            assert(line[k] == '\r');
        }
    }
    assert(line[0] == 'C');
    // The line without its line break.
    let core = p + d;
    assert(line.drop_last() =~= core.push('\r'));
    assert(line.drop_last().drop_last() =~= core);
    assert(core.last() == d.last());
    assert(d.last() == d[d.len() - 1]);
    assert(trim_end_crlf(core) == core);
    assert(trim_end_crlf(line.drop_last()) == trim_end_crlf(core));
    assert(trim_end_crlf(line) == core);
    assert(core.take(fa.len() as int) =~= fa);
    assert(core.skip(fa.len() as int) =~= seq![' '] + d);
    let rest = seq![' '] + d;
    assert(rest.drop_first() =~= d);
    assert(trim_start(d) == d) by {
        assert(d[0] == d[0]);
    }
    assert(trim_start(rest) == trim_start(d));
    assert(trim_end(d) == d) by {
        assert(d.last() == d[d.len() - 1]);
    }
    assert(trim(rest) == d);
    assert(d[0] != '+' && d[0] != '-');
    lemma_parse_decimal(n);
}

/// Frames a message body.
pub fn frame_message(body: &[u8]) -> (r: Vec<u8>)
    ensures
        r@ == framed(body@),
{
    let mut header = chars_of("Content-Length: ");
    let n = decimal_chars(body.len() as u64);
    append_chars(&mut header, n.as_slice());
    append_str(&mut header, "\r\n\r\n");
    let mut out: Vec<u8> = Vec::new();
    let mut i: usize = 0;
    while i < header.len()
        invariant
            0 <= i <= header@.len(),
            out@ == ascii_bytes(header@.take(i as int)),
        decreases header@.len() - i,
    {
        out.push(header[i] as u8);
        i = i + 1;
        assert(ascii_bytes(header@.take(i as int)) =~= ascii_bytes(header@.take(i - 1)).push(
            header@[i - 1] as u8,
        ));
    }
    assert(header@.take(header@.len() as int) == header@);
    let mut j: usize = 0;
    let ghost head = out@;
    while j < body.len()
        invariant
            0 <= j <= body@.len(),
            out@ == head + body@.take(j as int),
        decreases body@.len() - j,
    {
        out.push(body[j]);
        j = j + 1;
        assert(body@.take(j as int) == body@.take(j - 1).push(body@[j - 1]));
    }
    assert(body@.take(body@.len() as int) == body@);
    out
}

/// Why a decimal integer did not parse (`std::num::IntErrorKind`).
#[derive(Debug, Clone, Copy, PartialEq, Eq, Structural)]
pub enum ParseIntError {
    Empty,
    InvalidDigit,
    PosOverflow,
}

/// The message `ParseIntError` displays.
pub open spec fn parse_int_message(e: ParseIntError) -> Seq<char> {
    match e {
        ParseIntError::Empty => "cannot parse integer from empty string"@,
        ParseIntError::InvalidDigit => "invalid digit found in string"@,
        ParseIntError::PosOverflow => "number too large to fit in target type"@,
    }
}

pub open spec fn digit_value(c: char) -> Option<nat> {
    if '0' <= c <= '9' {
        Some(((c as int) - ('0' as int)) as nat)
    } else {
        None
    }
}

/// Decimal digits read left to right onto `acc`; the first bad digit or the
/// first overflow past `usize::MAX` ends it.
pub open spec fn parse_digits(acc: nat, s: Seq<char>) -> Result<nat, ParseIntError>
    decreases s.len(),
{
    if s.len() == 0 {
        Ok(acc)
    } else {
        match digit_value(s[0]) {
            None => Err(ParseIntError::InvalidDigit),
            Some(d) => {
                let a = acc * 10 + d;
                if a > usize::MAX {
                    Err(ParseIntError::PosOverflow)
                } else {
                    parse_digits(a, s.drop_first())
                }
            },
        }
    }
}

/// What `str::parse::<usize>` gives: an optional leading `+`, then
/// decimal digits.
pub open spec fn parse_usize_spec(s: Seq<char>) -> Result<nat, ParseIntError> {
    if s.len() == 0 {
        Err(ParseIntError::Empty)
    } else if s[0] == '+' || s[0] == '-' {
        if s.len() == 1 {
            Err(ParseIntError::InvalidDigit)
        } else if s[0] == '+' {
            parse_digits(0, s.drop_first())
        } else {
            parse_digits(0, s)
        }
    } else {
        parse_digits(0, s)
    }
}

/// `str::parse::<usize>`.
pub fn parse_usize(s: &[char]) -> (r: Result<usize, ParseIntError>)
    ensures
        match r {
            Ok(n) => parse_usize_spec(s@) == Ok::<nat, ParseIntError>(n as nat),
            Err(e) => parse_usize_spec(s@) == Err::<nat, ParseIntError>(e),
        },
{
    if s.len() == 0 {
        return Err(ParseIntError::Empty);
    }
    let mut i: usize = 0;
    if s[0] == '+' || s[0] == '-' {
        if s.len() == 1 {
            return Err(ParseIntError::InvalidDigit);
        }
        if s[0] == '+' {
            i = 1;
        }
    }
    let ghost digits = s@.skip(i as int);
    assert(i == 1 ==> digits == s@.drop_first());
    assert(i == 0 ==> digits == s@);
    let mut acc: usize = 0;
    assert(parse_usize_spec(s@) == parse_digits(0, digits));
    while i < s.len()
        invariant
            i <= s@.len(),
            parse_usize_spec(s@) == parse_digits(0, digits),
            parse_digits(0, digits) == parse_digits(acc as nat, s@.skip(i as int)),
        decreases s@.len() - i,
    {
        let ghost rest = s@.skip(i as int);
        assert(rest[0] == s@[i as int]);
        assert(rest.drop_first() == s@.skip(i + 1));
        let c = s[i];
        if !('0' <= c && c <= '9') {
            return Err(ParseIntError::InvalidDigit);
        }
        let d = (c as u32 - '0' as u32) as usize;
        assert(d as nat == digit_value(c)->0);
        match acc.checked_mul(10) {
            None => {
                return Err(ParseIntError::PosOverflow);
            },
            Some(m) => match m.checked_add(d) {
                None => {
                    return Err(ParseIntError::PosOverflow);
                },
                Some(a) => {
                    acc = a;
                },
            },
        }
        i = i + 1;
    }
    assert(s@.skip(i as int).len() == 0);
    Ok(acc)
}

/// `s` without trailing `'\r'` and `'\n'` characters.
pub open spec fn trim_end_crlf(s: Seq<char>) -> Seq<char>
    decreases s.len(),
{
    if s.len() > 0 && (s.last() == '\r' || s.last() == '\n') {
        trim_end_crlf(s.drop_last())
    } else {
        s
    }
}

/// What reading one header line does.
pub enum HeaderStep {
    /// Keep reading header lines.
    More,
    /// The headers ended; the body has this many bytes.
    Body(usize),
    /// The message is malformed.
    Failed(String),
}

/// Reads the header block of one JSON-RPC message, line by line.
pub struct LspHeaderReader {
    content_length: Option<usize>,
}

/// The length a `Content-Length` header line gives, if the line is one.
pub open spec fn header_length(line: Seq<char>) -> Option<Result<nat, ParseIntError>> {
    match strip_prefix(trim_end_crlf(line), "Content-Length:"@) {
        Some(rest) => Some(parse_usize_spec(trim(rest))),
        None => None,
    }
}

impl LspHeaderReader {
    pub closed spec fn length(&self) -> Option<usize> {
        self.content_length
    }

    pub fn new() -> (r: Self)
        ensures
            r.length() is None,
    {
        LspHeaderReader { content_length: None }
    }

    /// Reads one header line: a blank line ends the headers (a length must
    /// have been given), a `Content-Length:` line gives the length, other
    /// lines are skipped.
    pub fn feed_line(&mut self, line: &str) -> (r: HeaderStep)
        ensures
            if line@ == "\r\n"@ || line@ == "\n"@ {
                final(self).length() == old(self).length() && match old(self).length() {
                    Some(n) => r matches HeaderStep::Body(m) && m == n,
                    None => r matches HeaderStep::Failed(e) && e@
                        == "missing Content-Length in LSP message"@,
                }
            } else {
                match header_length(line@) {
                    None => r is More && final(self).length() == old(self).length(),
                    Some(Ok(n)) => r is More && final(self).length() == Some(n as usize),
                    Some(Err(k)) => r matches HeaderStep::Failed(e) && e@ == "Content-Length: "@
                        + parse_int_message(k) && final(self).length() == old(self).length(),
                }
            },
    {
        let v = chars_of(line);
        if chars_eq_str(v.as_slice(), "\r\n") || chars_eq_str(v.as_slice(), "\n") {
            return match self.content_length {
                Some(n) => HeaderStep::Body(n),
                None => HeaderStep::Failed(
                    string_of(chars_of("missing Content-Length in LSP message").as_slice()),
                ),
            };
        }
        let mut j: usize = v.len();
        assert(v@.take(j as int) == v@);
        while j > 0 && (v[j - 1] == '\r' || v[j - 1] == '\n')
            invariant
                j <= v@.len(),
                trim_end_crlf(v@) == trim_end_crlf(v@.take(j as int)),
            decreases j,
        {
            assert(v@.take(j as int).drop_last() == v@.take(j - 1));
            j = j - 1;
        }
        let t = crate::text::sub_chars(v.as_slice(), 0, j);
        assert(t@ == v@.take(j as int));
        assert(trim_end_crlf(v@.take(j as int)) == v@.take(j as int));
        let p = chars_of("Content-Length:");
        match strip_prefix_chars(t.as_slice(), p.as_slice()) {
            None => HeaderStep::More,
            Some(rest) => {
                let digits = trim_chars(rest.as_slice());
                match parse_usize(digits.as_slice()) {
                    Ok(n) => {
                        self.content_length = Some(n);
                        HeaderStep::More
                    },
                    Err(k) => {
                        let mut m = chars_of("Content-Length: ");
                        append_str(&mut m, parse_int_message_str(k));
                        HeaderStep::Failed(string_of(m.as_slice()))
                    },
                }
            },
        }
    }
}

fn parse_int_message_str(e: ParseIntError) -> (r: &'static str)
    ensures
        r@ == parse_int_message(e),
{
    match e {
        ParseIntError::Empty => "cannot parse integer from empty string",
        ParseIntError::InvalidDigit => "invalid digit found in string",
        ParseIntError::PosOverflow => "number too large to fit in target type",
    }
}

/// A 1-based editor position as the 0-based LSP position.
pub fn zero_based(n: u32) -> (r: u32)
    ensures
        r == (if n >= 1 { n - 1 } else { 0 }),
{
    if n >= 1 {
        n - 1
    } else {
        0
    }
}

} // verus!
