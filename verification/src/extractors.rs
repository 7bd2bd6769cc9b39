//! Request bodies read as JSON, with OpenAI-style messages for bodies that
//! cannot be read.

use vstd::prelude::*;

use crate::text::{
    chars_of, concat, find_exec, find_from, lemma_find_from_bounds, occurs_at_exec, owned, replace_all, replace_exec,
    string_of_chars, tail,
};

verus! {

/// A request body read as JSON.
pub struct ValidJson<T>(pub T);

/// Why a JSON body was refused.
#[derive(PartialEq, Eq, Structural, Clone, Copy, Debug)]
pub enum RejectionKind {
    /// The JSON did not match the expected shape.
    JsonDataError,
    /// The body was not valid JSON.
    JsonSyntaxError,
    /// The request did not declare a JSON content type.
    MissingJsonContentType,
    /// Any other refusal.
    Other,
}

/// `s` with the prefix `p` removed as many times as it leads.
pub open spec fn strip_all_prefix(s: Seq<char>, p: Seq<char>) -> Seq<char>
    decreases s.len(),
{
    if p.len() > 0 && p.is_prefix_of(s) {
        strip_all_prefix(s.skip(p.len() as int), p)
    } else {
        s
    }
}

/// A Unicode white-space character (`char::is_whitespace`).
pub open spec fn is_whitespace(c: char) -> bool {
    ('\t' <= c && c <= '\r') || c == ' ' || c == '\u{85}' || c == '\u{a0}' || c == '\u{1680}' || ('\u{2000}' <= c
        && c <= '\u{200a}') || c == '\u{2028}' || c == '\u{2029}' || c == '\u{202f}' || c == '\u{205f}' || c
        == '\u{3000}'
}

/// A quote around a field name.
pub open spec fn is_quote(c: char) -> bool {
    c == '`' || c == '\''
}

/// `s` without its leading white space.
pub open spec fn skip_whitespace(s: Seq<char>) -> Seq<char>
    decreases s.len(),
{
    if s.len() > 0 && is_whitespace(s[0]) {
        skip_whitespace(s.drop_first())
    } else {
        s
    }
}

/// `s` without its leading quotes.
pub open spec fn skip_quotes(s: Seq<char>) -> Seq<char>
    decreases s.len(),
{
    if s.len() > 0 && is_quote(s[0]) {
        skip_quotes(s.drop_first())
    } else {
        s
    }
}

/// The start of `s` up to its first quote or space.
pub open spec fn first_word(s: Seq<char>) -> Seq<char>
    decreases s.len(),
{
    if s.len() == 0 || is_quote(s[0]) || s[0] == ' ' {
        Seq::empty()
    } else {
        seq![s[0]] + first_word(s.drop_first())
    }
}

/// The text between the first and second occurrences of `pat` in `s` (to
/// the end when there is no second).
pub open spec fn second_piece(s: Seq<char>, pat: Seq<char>) -> Seq<char> {
    match find_from(s, pat, 0) {
        Some(i) => {
            let after = s.skip(i + pat.len());
            match find_from(after, pat, 0) {
                Some(j) => after.take(j),
                None => after,
            }
        },
        None => Seq::empty(),
    }
}

/// The name of the missing field in a deserializer message.
pub open spec fn missing_field_name(raw: Seq<char>) -> Seq<char> {
    first_word(skip_quotes(skip_whitespace(second_piece(raw, "missing field"@))))
}

/// The client message for a JSON body that did not match the expected
/// shape, from the deserializer's message `raw`.
pub open spec fn data_error_message(raw: Seq<char>) -> Seq<char> {
    if find_from(raw, "missing field"@, 0) is Some {
        "'"@ + missing_field_name(raw) + "' is required"@
    } else if find_from(raw, "invalid type"@, 0) is Some {
        strip_all_prefix(replace_all(replace_all(raw, " at line"@, Seq::empty()), " column"@, Seq::empty()), "invalid type: "@)
    } else {
        "invalid request body"@
    }
}

/// The client message for a refused body.
pub open spec fn rejection_message(kind: RejectionKind, raw: Seq<char>) -> Seq<char> {
    match kind {
        RejectionKind::JsonDataError => data_error_message(raw),
        RejectionKind::JsonSyntaxError => "invalid JSON"@,
        RejectionKind::MissingJsonContentType => "Content-Type must be application/json"@,
        RejectionKind::Other => "invalid request"@,
    }
}

/// Whether `c` is a Unicode white-space character.
fn is_whitespace_exec(c: char) -> (r: bool)
    ensures
        r == is_whitespace(c),
{
    ('\t' <= c && c <= '\r') || c == ' ' || c == '\u{85}' || c == '\u{a0}' || c == '\u{1680}' || ('\u{2000}' <= c
        && c <= '\u{200a}') || c == '\u{2028}' || c == '\u{2029}' || c == '\u{202f}' || c == '\u{205f}' || c
        == '\u{3000}'
}

/// The number of leading white-space characters of `s`.
fn whitespace_run(s: &Vec<char>) -> (r: usize)
    ensures
        r <= s@.len(),
        skip_whitespace(s@) == s@.skip(r as int),
{
    let mut i: usize = 0;
    assert(s@.skip(0) =~= s@);
    while i < s.len() && is_whitespace_exec(s[i])
        invariant
            0 <= i <= s@.len(),
            skip_whitespace(s@) == skip_whitespace(s@.skip(i as int)),
        decreases s@.len() - i,
    {
        assert(s@.skip(i as int).drop_first() =~= s@.skip(i + 1));
        i = i + 1;
    }
    i
}

/// The number of leading quotes of `s`.
fn quote_run(s: &Vec<char>) -> (r: usize)
    ensures
        r <= s@.len(),
        skip_quotes(s@) == s@.skip(r as int),
{
    let mut i: usize = 0;
    assert(s@.skip(0) =~= s@);
    while i < s.len() && (s[i] == '`' || s[i] == '\'')
        invariant
            0 <= i <= s@.len(),
            skip_quotes(s@) == skip_quotes(s@.skip(i as int)),
        decreases s@.len() - i,
    {
        assert(s@.skip(i as int).drop_first() =~= s@.skip(i + 1));
        i = i + 1;
    }
    i
}

/// The length of the first word of `s`.
fn word_len(s: &Vec<char>) -> (r: usize)
    ensures
        r <= s@.len(),
        first_word(s@) == s@.take(r as int),
{
    let mut i: usize = 0;
    assert(s@.skip(0) =~= s@);
    while i < s.len() && !(s[i] == '`' || s[i] == '\'' || s[i] == ' ')
        invariant
            0 <= i <= s@.len(),
            first_word(s@) == s@.take(i as int) + first_word(s@.skip(i as int)),
        decreases s@.len() - i,
    {
        assert(s@.skip(i as int).drop_first() =~= s@.skip(i + 1));
        assert(s@.take(i + 1) =~= s@.take(i as int) + seq![s@[i as int]]);
        i = i + 1;
    }
    assert(first_word(s@.skip(i as int)) =~= Seq::<char>::empty());
    i
}

/// `s` with the prefix `p` removed as many times as it leads.
fn strip_all_prefix_exec(s: &Vec<char>, p: &Vec<char>) -> (r: Vec<char>)
    requires
        p@.len() > 0,
    ensures
        r@ == strip_all_prefix(s@, p@),
{
    let n = s.len();
    let mut i: usize = 0;
    assert(s@.skip(0) =~= s@);
    loop
        invariant
            n == s@.len(),
            p@.len() > 0,
            0 <= i <= s@.len(),
            strip_all_prefix(s@, p@) == strip_all_prefix(s@.skip(i as int), p@),
        decreases s@.len() - i,
    {
        let ghost rest = s@.skip(i as int);
        if p.len() <= n - i && occurs_at_exec(s, p, i) {
            assert(p@ =~= rest.subrange(0, p@.len() as int));
            assert(rest.skip(p@.len() as int) =~= s@.skip(i + p@.len()));
            i = i + p.len();
        } else {
            proof {
                if p@.is_prefix_of(rest) {
                    assert(s@.subrange(i as int, i + p@.len()) =~= rest.subrange(0, p@.len() as int));
                }
            }
            return tail(s, i);
        }
    }
}

/// The client message for a JSON body that did not match the expected
/// shape, from the deserializer's message `raw`.
pub fn data_error_text(raw: &str) -> (r: String)
    ensures
        r@ == data_error_message(raw@),
{
    let s = chars_of(raw);
    let missing = chars_of("missing field");
    let invalid = chars_of("invalid type");
    proof {
        reveal_strlit("missing field");
        reveal_strlit("invalid type");
    }
    let n = s.len();
    match find_exec(&s, &missing, 0) {
        Some(i) => {
            proof {
                lemma_find_from_bounds(s@, missing@, 0);
            }
            let after = tail(&s, i + missing.len());
            let piece = match find_exec(&after, &missing, 0) {
                Some(j) => {
                    proof {
                        lemma_find_from_bounds(after@, missing@, 0);
                    }
                    let p = string_of_chars(&after, 0, j);
                    chars_of(p.as_str())
                },
                None => after,
            };
            assert(piece@ == second_piece(raw@, "missing field"@));
            let w = whitespace_run(&piece);
            let t1 = tail(&piece, w);
            let q = quote_run(&t1);
            let t2 = tail(&t1, q);
            let len = word_len(&t2);
            let field = string_of_chars(&t2, 0, len);
            assert(field@ == missing_field_name(raw@));
            let mut msg = concat("'", field.as_str());
            crate::text::append_str(&mut msg, "' is required");
            msg
        },
        None => match find_exec(&s, &invalid, 0) {
            Some(_) => {
                let empty: Vec<char> = Vec::new();
                let at_line = chars_of(" at line");
                let column = chars_of(" column");
                let prefix = chars_of("invalid type: ");
                proof {
                    reveal_strlit(" at line");
                    reveal_strlit(" column");
                    reveal_strlit("invalid type: ");
                }
                let a = replace_exec(&s, &at_line, &empty);
                let b = replace_exec(&a, &column, &empty);
                let c = strip_all_prefix_exec(&b, &prefix);
                string_of_chars(&c, 0, c.len())
            },
            None => owned("invalid request body"),
        },
    }
}

/// The answer to a request whose JSON body was refused: status 400, type
/// `invalid_request_error`, and a message saying why.
pub struct JsonErrorResponse {
    message: String,
}

impl JsonErrorResponse {
    /// The message answered.
    pub closed spec fn message_view(&self) -> Seq<char> {
        self.message@
    }

    /// The answer for a refusal of the given kind; `raw` is the
    /// deserializer's message for a body of the wrong shape.
    pub fn from_rejection(kind: RejectionKind, raw: &str) -> (r: Self)
        ensures
            r.message_view() == rejection_message(kind, raw@),
    {
        let message = match kind {
            RejectionKind::JsonDataError => data_error_text(raw),
            RejectionKind::JsonSyntaxError => owned("invalid JSON"),
            RejectionKind::MissingJsonContentType => owned("Content-Type must be application/json"),
            RejectionKind::Other => owned("invalid request"),
        };
        JsonErrorResponse { message }
    }

    /// The message answered.
    pub fn message(&self) -> (r: &str)
        ensures
            r@ == self.message_view(),
    {
        self.message.as_str()
    }

    /// The HTTP status answered: 400.
    pub fn status(&self) -> (r: u16)
        ensures
            r == 400,
    {
        400
    }

    /// The error type answered.
    pub fn error_type(&self) -> (r: &'static str)
        ensures
            r@ == "invalid_request_error"@,
    {
        "invalid_request_error"
    }
}

} // verus!
