//! Small string helpers shared by the whole crate.

use vstd::prelude::*;
use vstd::utf8::encode_utf8;

verus! {

/// Appends one character to a string (`String::push`).
#[verifier::external_body]
pub(crate) fn push_char(s: &mut String, c: char)
    ensures
        final(s)@ == old(s)@.push(c),
{
    s.push(c);
}

/// Builds an owned string from a string slice.
pub(crate) fn owned(s: &str) -> (r: String)
    ensures
        r@ == s@,
{
    s.to_owned()
}

/// Appends a string slice to a string.
pub(crate) fn append_str(s: &mut String, t: &str)
    ensures
        final(s)@ == old(s)@ + t@,
{
    s.append(t);
}

/// Concatenation of two strings into a fresh one.
pub(crate) fn concat(a: &str, b: &str) -> (r: String)
    ensures
        r@ == a@ + b@,
{
    let mut r = owned(a);
    append_str(&mut r, b);
    r
}

} // verus!

verus! {

/// The characters of an optional string, `None` staying `None`.
pub open spec fn opt_view(o: Option<String>) -> Option<Seq<char>> {
    match o {
        Some(s) => Some(s@),
        None => None,
    }
}

/// The characters of an optional string, or the empty sequence.
pub open spec fn view_or_empty(o: Option<String>) -> Seq<char> {
    match o {
        Some(s) => s@,
        None => Seq::empty(),
    }
}

/// A copy of an optional string.
pub(crate) fn clone_opt(o: &Option<String>) -> (r: Option<String>)
    ensures
        r == *o,
{
    match o {
        Some(s) => Some(s.clone()),
        None => None,
    }
}

} // verus!

verus! {

/// Whether two string slices hold the same characters.
pub(crate) fn str_eq(a: &str, b: &str) -> (r: bool)
    ensures
        r == (a@ == b@),
{
    let x = owned(a);
    let y = owned(b);
    x == y
}

/// The characters of an optional string, or those of `d`.
pub open spec fn view_or(o: Option<String>, d: Seq<char>) -> Seq<char> {
    match o {
        Some(s) => s@,
        None => d,
    }
}

/// The string held, or a fresh copy of `d`.
pub(crate) fn unwrap_or_str(o: &Option<String>, d: &str) -> (r: String)
    ensures
        r@ == view_or(*o, d@),
{
    match o {
        Some(s) => s.clone(),
        None => owned(d),
    }
}

/// A header value is accepted when every byte is a visible ASCII
/// character, a space, a tab, or part of a multi-byte character.
pub open spec fn is_header_char(c: char) -> bool {
    (c as u32 >= 32 && c as u32 != 127) || c as u32 == 9
}

/// Every character of `s` may appear in an HTTP header value.
pub open spec fn is_header_text(s: Seq<char>) -> bool {
    forall|i: int| 0 <= i < s.len() ==> is_header_char(#[trigger] s[i])
}

} // verus!

verus! {

/// The characters of a string slice, in order.
pub(crate) fn chars_of(s: &str) -> (r: Vec<char>)
    ensures
        r@ == s@,
{
    let mut r: Vec<char> = Vec::new();
    for c in iter: s.chars()
        invariant
            r@ == iter.seq().take(iter.index()),
    {
        r.push(c);
    }
    r
}

} // verus!

verus! {

/// Whether every character of `s` may appear in an HTTP header value.
pub fn is_valid_header_value(s: &str) -> (r: bool)
    ensures
        r == is_header_text(s@),
{
    let cs = chars_of(s);
    let mut i: usize = 0;
    while i < cs.len()
        invariant
            cs@ == s@,
            0 <= i <= cs.len(),
            forall|j: int| 0 <= j < i ==> is_header_char(#[trigger] s@[j]),
        decreases cs.len() - i,
    {
        let c = cs[i];
        let u = c as u32;
        if !((u >= 32 && u != 127) || u == 9) {
            assert(!is_header_char(s@[i as int]));
            return false;
        }
        i = i + 1;
    }
    true
}

} // verus!

verus! {

/// The decimal digit character for `d` (`d < 10`).
pub open spec fn digit_char(d: nat) -> char {
    (48 + d) as char
}

/// The decimal representation of `n`, without leading zeros.
pub open spec fn decimal(n: nat) -> Seq<char>
    decreases n,
{
    if n < 10 {
        seq![digit_char(n)]
    } else {
        decimal(n / 10).push(digit_char(n % 10))
    }
}

/// The character of the decimal digit `d`.
fn digit(d: u64) -> (c: char)
    requires
        d < 10,
    ensures
        c == digit_char(d as nat),
{
    match d {
        0 => '0',
        1 => '1',
        2 => '2',
        3 => '3',
        4 => '4',
        5 => '5',
        6 => '6',
        7 => '7',
        8 => '8',
        _ => '9',
    }
}

/// The decimal representation of `n`.
pub fn u64_to_decimal(n: u64) -> (r: String)
    ensures
        r@ == decimal(n as nat),
{
    let mut digits: Vec<char> = Vec::new();
    let mut m = n;
    // digits are produced least significant first
    while m >= 10
        invariant
            decimal(n as nat) == decimal(m as nat) + digits@.reverse(),
        decreases m,
    {
        let c = digit(m % 10);
        proof {
            assert(decimal(m as nat) == decimal((m / 10) as nat).push(digit_char((m % 10) as nat)));
            assert(digits@.push(c).reverse() =~= seq![c] + digits@.reverse());
            assert(decimal((m / 10) as nat).push(c) + digits@.reverse() =~= decimal((m / 10) as nat) + (seq![c]
                + digits@.reverse()));
        }
        digits.push(c);
        m = m / 10;
    }
    let c0 = digit(m);
    let mut r = String::new();
    push_char(&mut r, c0);
    assert(r@ =~= decimal(m as nat));
    let mut k = digits.len();
    while k > 0
        invariant
            k <= digits@.len(),
            decimal(n as nat) == decimal(m as nat) + digits@.reverse(),
            r@ == decimal(m as nat) + digits@.subrange(k as int, digits@.len() as int).reverse(),
        decreases k,
    {
        k = k - 1;
        let c = digits[k];
        proof {
            assert(digits@.subrange(k as int, digits@.len() as int).reverse() =~= digits@.subrange(
                k + 1,
                digits@.len() as int,
            ).reverse().push(c));
        }
        push_char(&mut r, c);
        assert(r@ =~= decimal(m as nat) + digits@.subrange(k as int, digits@.len() as int).reverse());
    }
    assert(digits@.subrange(0, digits@.len() as int) =~= digits@);
    r
}

} // verus!

verus! {

/// `c` is an ASCII decimal digit.
pub open spec fn is_digit(c: char) -> bool {
    '0' <= c && c <= '9'
}

/// The number written by a string of decimal digits.
pub open spec fn digits_value(s: Seq<char>) -> nat
    decreases s.len(),
{
    if s.len() == 0 {
        0
    } else {
        digits_value(s.drop_last()) * 10 + ((s.last() as int - 48) as nat)
    }
}

/// The count written in `s`: its value when `s` is a non-empty string of
/// decimal digits (at most `u64::MAX`), else zero.
pub open spec fn count_of(s: Seq<char>) -> u64 {
    if s.len() > 0 && (forall|i: int| 0 <= i < s.len() ==> is_digit(#[trigger] s[i])) {
        if digits_value(s) >= u64::MAX {
            u64::MAX
        } else {
            digits_value(s) as u64
        }
    } else {
        0
    }
}

/// The count written in an optional string, zero when there is none.
pub open spec fn count_of_opt(o: Option<Seq<char>>) -> u64 {
    match o {
        Some(s) => count_of(s),
        None => 0,
    }
}

proof fn lemma_digits_step(p: Seq<char>, c: char)
    requires
        is_digit(c),
    ensures
        digits_value(p.push(c)) == digits_value(p) * 10 + (c as int - 48),
        digits_value(p.push(c)) >= digits_value(p),
{
    assert(p.push(c).drop_last() =~= p);
}

/// Reads a count written in decimal digits: the value (saturated at
/// `u64::MAX`) when `s` is non-empty and all digits, else zero.
pub fn parse_count(s: &str) -> (r: u64)
    ensures
        r == count_of(s@),
{
    let cs = chars_of(s);
    if cs.len() == 0 {
        return 0;
    }
    let mut acc: u64 = 0;
    let mut i: usize = 0;
    while i < cs.len()
        invariant
            cs@ == s@,
            0 <= i <= cs.len(),
            forall|j: int| 0 <= j < i ==> is_digit(#[trigger] s@[j]),
            acc == (if digits_value(s@.take(i as int)) >= u64::MAX { u64::MAX as int } else { digits_value(
                s@.take(i as int),
            ) as int }),
        decreases cs.len() - i,
    {
        let c = cs[i];
        if !('0' <= c && c <= '9') {
            assert(!is_digit(s@[i as int]));
            return 0;
        }
        let d: u64 = (c as u32 - 48) as u64;
        let ghost p = s@.take(i as int);
        proof {
            assert(s@.take(i + 1) =~= p.push(c));
            lemma_digits_step(p, c);
        }
        if acc == u64::MAX || acc > (u64::MAX - d) / 10 {
            proof {
                if acc != u64::MAX {
                    assert(acc * 10 + d > u64::MAX) by (nonlinear_arith)
                        requires
                            acc > (u64::MAX - d) / 10,
                            d <= 9,
                    ;
                }
            }
            acc = u64::MAX;
        } else {
            assert(acc * 10 + d <= u64::MAX) by (nonlinear_arith)
                requires
                    acc <= (u64::MAX - d) / 10,
                    d <= 9,
            ;
            acc = acc * 10 + d;
        }
        i = i + 1;
    }
    assert(s@.take(cs.len() as int) =~= s@);
    acc
}

} // verus!

verus! {

/// Appends bytes to a byte vector.
pub(crate) fn append_bytes(v: &mut Vec<u8>, b: &[u8])
    ensures
        final(v)@ == old(v)@ + b@,
{
    let mut i: usize = 0;
    while i < b.len()
        invariant
            0 <= i <= b@.len(),
            v@ == old(v)@ + b@.take(i as int),
        decreases b@.len() - i,
    {
        v.push(b[i]);
        assert(b@.take(i + 1) =~= b@.take(i as int).push(b@[i as int]));
        i = i + 1;
    }
    assert(b@.take(b@.len() as int) =~= b@);
}

} // verus!

verus! {

/// The string made of `cs[from..to]`.
pub(crate) fn string_of_chars(cs: &Vec<char>, from: usize, to: usize) -> (r: String)
    requires
        from <= to <= cs@.len(),
    ensures
        r@ == cs@.subrange(from as int, to as int),
{
    let mut r = String::new();
    let mut i: usize = from;
    while i < to
        invariant
            from <= i <= to <= cs@.len(),
            r@ == cs@.subrange(from as int, i as int),
        decreases to - i,
    {
        push_char(&mut r, cs[i]);
        assert(cs@.subrange(from as int, i + 1) =~= cs@.subrange(from as int, i as int).push(cs@[i as int]));
        i = i + 1;
    }
    r
}

/// `s` with the prefix `p` removed; `None` when `s` does not start with `p`.
pub(crate) fn strip_prefix(s: &str, p: &str) -> (r: Option<String>)
    ensures
        r is Some <==> p@.is_prefix_of(s@),
        r matches Some(t) ==> t@ == s@.skip(p@.len() as int),
{
    let cs = chars_of(s);
    let ps = chars_of(p);
    if ps.len() > cs.len() {
        return None;
    }
    let mut i: usize = 0;
    while i < ps.len()
        invariant
            cs@ == s@,
            ps@ == p@,
            ps@.len() <= cs@.len(),
            0 <= i <= ps@.len(),
            forall|j: int| 0 <= j < i ==> ps@[j] == cs@[j],
        decreases ps@.len() - i,
    {
        if ps[i] != cs[i] {
            assert(p@[i as int] != s@.subrange(0, p@.len() as int)[i as int]);
            return None;
        }
        i = i + 1;
    }
    assert(p@ =~= s@.subrange(0, p@.len() as int));
    let rest = string_of_chars(&cs, ps.len(), cs.len());
    assert(rest@ =~= s@.skip(p@.len() as int));
    Some(rest)
}

/// The first `n` characters of `s`.
pub(crate) fn take_chars(s: &str, n: usize) -> (r: String)
    requires
        n <= s@.len(),
    ensures
        r@ == s@.take(n as int),
{
    let cs = chars_of(s);
    string_of_chars(&cs, 0, n)
}

} // verus!

verus! {

/// `pat` occurs in `s` at position `i`.
pub open spec fn occurs_at(s: Seq<char>, pat: Seq<char>, i: int) -> bool {
    0 <= i && i + pat.len() <= s.len() && s.subrange(i, i + pat.len()) == pat
}

/// The first position at or after `k` where `pat` occurs in `s`.
pub open spec fn find_from(s: Seq<char>, pat: Seq<char>, k: int) -> Option<int>
    decreases s.len() + 1 - k,
{
    if k < 0 || k + pat.len() > s.len() {
        None
    } else if occurs_at(s, pat, k) {
        Some(k)
    } else {
        find_from(s, pat, k + 1)
    }
}

/// `s` with every occurrence of `pat` (found left to right, without
/// overlap) replaced by `rep`.
pub open spec fn replace_all(s: Seq<char>, pat: Seq<char>, rep: Seq<char>) -> Seq<char>
    decreases s.len(),
{
    if pat.len() == 0 {
        s
    } else {
        match find_from(s, pat, 0) {
            Some(i) => if 0 <= i && i + pat.len() <= s.len() {
                s.take(i) + rep + replace_all(s.skip(i + pat.len()), pat, rep)
            } else {
                s
            },
            None => s,
        }
    }
}

pub(crate) proof fn lemma_find_from_bounds(s: Seq<char>, pat: Seq<char>, k: int)
    requires
        k >= 0,
    ensures
        find_from(s, pat, k) matches Some(i) ==> k <= i && occurs_at(s, pat, i) && forall|j: int|
            k <= j < i ==> !occurs_at(s, pat, j),
        find_from(s, pat, k) is None ==> forall|j: int| k <= j ==> !occurs_at(s, pat, j),
    decreases s.len() + 1 - k,
{
    if !(k < 0 || k + pat.len() > s.len()) && !occurs_at(s, pat, k) {
        lemma_find_from_bounds(s, pat, k + 1);
    }
}

/// Whether `pat` occurs in `s` at `i`.
pub(crate) fn occurs_at_exec(s: &Vec<char>, pat: &Vec<char>, i: usize) -> (r: bool)
    requires
        i + pat@.len() <= s@.len(),
    ensures
        r == occurs_at(s@, pat@, i as int),
{
    let n = s.len();
    let mut j: usize = 0;
    while j < pat.len()
        invariant
            n == s@.len(),
            i + pat@.len() <= s@.len(),
            0 <= j <= pat@.len(),
            forall|m: int| 0 <= m < j ==> s@[i + m] == pat@[m],
        decreases pat@.len() - j,
    {
        if s[i + j] != pat[j] {
            assert(s@.subrange(i as int, i + pat@.len())[j as int] != pat@[j as int]);
            return false;
        }
        j = j + 1;
    }
    assert(s@.subrange(i as int, i + pat@.len()) =~= pat@);
    true
}

/// The first position at or after `k` where `pat` occurs in `s`.
pub(crate) fn find_exec(s: &Vec<char>, pat: &Vec<char>, k: usize) -> (r: Option<usize>)
    requires
        pat@.len() > 0,
    ensures
        match r {
            Some(i) => find_from(s@, pat@, k as int) == Some(i as int),
            None => find_from(s@, pat@, k as int) is None,
        },
{
    let mut i: usize = k;
    while i <= s.len() && pat.len() <= s.len() - i
        invariant
            pat@.len() > 0,
            k <= i,
            find_from(s@, pat@, k as int) == find_from(s@, pat@, i as int),
        decreases s@.len() + 1 - i,
    {
        if occurs_at_exec(s, pat, i) {
            return Some(i);
        }
        i = i + 1;
    }
    None
}

/// The characters of `s` from `from` on.
pub(crate) fn tail(s: &Vec<char>, from: usize) -> (r: Vec<char>)
    requires
        from <= s@.len(),
    ensures
        r@ == s@.skip(from as int),
{
    let mut r: Vec<char> = Vec::new();
    let mut i: usize = from;
    while i < s.len()
        invariant
            from <= i <= s@.len(),
            r@ == s@.subrange(from as int, i as int),
        decreases s@.len() - i,
    {
        r.push(s[i]);
        assert(s@.subrange(from as int, i + 1) =~= s@.subrange(from as int, i as int).push(s@[i as int]));
        i = i + 1;
    }
    r
}

/// `s` with every occurrence of `pat` replaced by `rep`.
pub(crate) fn replace_exec(s: &Vec<char>, pat: &Vec<char>, rep: &Vec<char>) -> (r: Vec<char>)
    requires
        pat@.len() > 0,
    ensures
        r@ == replace_all(s@, pat@, rep@),
{
    let mut out: Vec<char> = Vec::new();
    let mut rest: Vec<char> = tail(s, 0);
    assert(s@.skip(0) =~= s@);
    loop
        invariant
            pat@.len() > 0,
            out@ + replace_all(rest@, pat@, rep@) == replace_all(s@, pat@, rep@),
        decreases rest@.len(),
    {
        let found = find_exec(&rest, pat, 0);
        proof {
            lemma_find_from_bounds(rest@, pat@, 0);
        }
        match found {
            Some(i) => {
                let ghost before = rest@;
                let ghost base = out@;
                let mut k: usize = 0;
                while k < i
                    invariant
                        rest@ == before,
                        i + pat@.len() <= before.len(),
                        0 <= k <= i,
                        out@ == base + before.take(k as int),
                    decreases i - k,
                {
                    out.push(rest[k]);
                    assert(before.take(k + 1) =~= before.take(k as int).push(before[k as int]));
                    k = k + 1;
                }
                let mut m: usize = 0;
                while m < rep.len()
                    invariant
                        0 <= m <= rep@.len(),
                        out@ == base + before.take(i as int) + rep@.take(m as int),
                    decreases rep@.len() - m,
                {
                    out.push(rep[m]);
                    assert(rep@.take(m + 1) =~= rep@.take(m as int).push(rep@[m as int]));
                    m = m + 1;
                }
                assert(rep@.take(rep@.len() as int) =~= rep@);
                let n = rest.len();
                rest = tail(&rest, i + pat.len());
                assert(replace_all(before, pat@, rep@) == before.take(i as int) + rep@ + replace_all(rest@, pat@, rep@));
                assert(out@ + replace_all(rest@, pat@, rep@) =~= base + replace_all(before, pat@, rep@));
            },
            None => {
                let mut k: usize = 0;
                let ghost base = out@;
                while k < rest.len()
                    invariant
                        0 <= k <= rest@.len(),
                        out@ == base + rest@.take(k as int),
                    decreases rest@.len() - k,
                {
                    out.push(rest[k]);
                    assert(rest@.take(k + 1) =~= rest@.take(k as int).push(rest@[k as int]));
                    k = k + 1;
                }
                assert(rest@.take(rest@.len() as int) =~= rest@);
                return out;
            },
        }
    }
}

} // verus!

verus! {

/// The bytes `b[from..to]`.
pub(crate) fn copy_range(b: &[u8], from: usize, to: usize) -> (r: Vec<u8>)
    requires
        from <= to <= b@.len(),
    ensures
        r@ == b@.subrange(from as int, to as int),
{
    let mut r: Vec<u8> = Vec::new();
    let mut i: usize = from;
    while i < to
        invariant
            from <= i <= to <= b@.len(),
            r@ == b@.subrange(from as int, i as int),
        decreases to - i,
    {
        r.push(b[i]);
        assert(b@.subrange(from as int, i + 1) =~= b@.subrange(from as int, i as int).push(b@[i as int]));
        i = i + 1;
    }
    r
}

} // verus!

verus! {

proof fn lemma_decimal_len(n: nat)
    ensures
        decimal(n).len() >= 1,
        n >= 10 ==> decimal(n).len() >= 2,
    decreases n,
{
    if n >= 10 {
        lemma_decimal_len(n / 10);
    }
}

/// Different numbers have different decimal representations.
pub proof fn lemma_decimal_injective(a: nat, b: nat)
    requires
        decimal(a) == decimal(b),
    ensures
        a == b,
    decreases a,
{
    lemma_decimal_len(a);
    lemma_decimal_len(b);
    if a < 10 && b < 10 {
        assert(decimal(a)[0] == digit_char(a));
        assert(decimal(b)[0] == digit_char(b));
        assert(digit_char(a) as u32 == 48 + a);
        assert(digit_char(b) as u32 == 48 + b);
    } else if a >= 10 && b >= 10 {
        assert(decimal(a).drop_last() == decimal(a / 10));
        assert(decimal(b).drop_last() == decimal(b / 10));
        lemma_decimal_injective(a / 10, b / 10);
        assert(decimal(a).last() == digit_char(a % 10));
        assert(decimal(b).last() == digit_char(b % 10));
        assert(digit_char(a % 10) as u32 == 48 + a % 10);
        assert(digit_char(b % 10) as u32 == 48 + b % 10);
    }
}

/// The text of `bytes` read as UTF-8, each invalid sequence replaced by
/// U+FFFD.
pub uninterp spec fn utf8_lossy(bytes: Seq<u8>) -> Seq<char>;

/// `String::from_utf8_lossy`: the text of `bytes`, each invalid UTF-8
/// sequence replaced by U+FFFD; valid UTF-8 reads as the text it encodes.
/// The result depends on the bytes alone.
#[verifier::external_body]
pub(crate) fn lossy_text(bytes: &[u8]) -> (r: String)
    ensures
        r@ == utf8_lossy(bytes@),
        forall|t: Seq<char>| #[trigger] encode_utf8(t) == bytes@ ==> r@ == t,
{
    String::from_utf8_lossy(bytes).into_owned()
}

} // verus!
