//! Server-sent-event framing: cutting complete events out of a byte buffer.
//!
//! An event ends at the first blank line (`"\n\n"`). Within it, the last line
//! starting with `"event: "` names the event and the last line starting with
//! `"data: "` holds its payload; both values are trimmed of white space.

use vstd::prelude::*;

verus! {

/// A one-byte white-space character: tab, line feed, vertical tab, form
/// feed, carriage return or space.
pub open spec fn is_ws(b: u8) -> bool {
    b == 32 || (9 <= b && b <= 13)
}

/// The two-byte UTF-8 encoding of a white-space character: U+0085 or
/// U+00A0.
pub open spec fn is_ws2(a: u8, b: u8) -> bool {
    a == 0xC2 && (b == 0x85 || b == 0xA0)
}

/// The three-byte UTF-8 encoding of a white-space character: U+1680,
/// U+2000 to U+200A, U+2028, U+2029, U+202F, U+205F or U+3000.
pub open spec fn is_ws3(a: u8, b: u8, c: u8) -> bool {
    ||| a == 0xE1 && b == 0x9A && c == 0x80
    ||| a == 0xE2 && b == 0x80 && ((0x80 <= c && c <= 0x8A) || c == 0xA8 || c == 0xA9 || c == 0xAF)
    ||| a == 0xE2 && b == 0x81 && c == 0x9F
    ||| a == 0xE3 && b == 0x80 && c == 0x80
}

/// The length of the white-space character that `s` starts with, or 0.
pub open spec fn ws_len_start(s: Seq<u8>) -> int {
    if s.len() >= 1 && is_ws(s[0]) {
        1
    } else if s.len() >= 2 && is_ws2(s[0], s[1]) {
        2
    } else if s.len() >= 3 && is_ws3(s[0], s[1], s[2]) {
        3
    } else {
        0
    }
}

/// The length of the white-space character that `s` ends with, or 0.
pub open spec fn ws_len_end(s: Seq<u8>) -> int {
    let n = s.len() as int;
    if n >= 1 && is_ws(s[n - 1]) {
        1
    } else if n >= 2 && is_ws2(s[n - 2], s[n - 1]) {
        2
    } else if n >= 3 && is_ws3(s[n - 3], s[n - 2], s[n - 1]) {
        3
    } else {
        0
    }
}

/// `s` without its leading white space.
pub open spec fn trim_start(s: Seq<u8>) -> Seq<u8>
    decreases s.len(),
{
    if ws_len_start(s) > 0 {
        trim_start(s.skip(ws_len_start(s)))
    } else {
        s
    }
}

/// `s` without its trailing white space.
pub open spec fn trim_end(s: Seq<u8>) -> Seq<u8>
    decreases s.len(),
{
    if ws_len_end(s) > 0 {
        trim_end(s.take(s.len() - ws_len_end(s)))
    } else {
        s
    }
}

/// `s` without leading and trailing white space (the UTF-8 encodings of
/// the characters Unicode calls white space).
pub open spec fn trim(s: Seq<u8>) -> Seq<u8> {
    trim_end(trim_start(s))
}

/// A blank line (two line feeds) starts at index `i` of `s`.
pub open spec fn is_delim_at(s: Seq<u8>, i: int) -> bool {
    0 <= i && i + 1 < s.len() && s[i] == 10 && s[i + 1] == 10
}

/// `e` is the start of the first blank line of `s`.
pub open spec fn first_delim(s: Seq<u8>, e: int) -> bool {
    is_delim_at(s, e) && forall|j: int| 0 <= j < e ==> !is_delim_at(s, j)
}

/// The pieces of `s` between line feeds (the last one possibly empty).
pub open spec fn split_lines(s: Seq<u8>) -> Seq<Seq<u8>>
    decreases s.len(),
{
    if s.len() == 0 {
        seq![Seq::<u8>::empty()]
    } else {
        let p = split_lines(s.drop_last());
        if s.last() == 10 {
            p.push(Seq::<u8>::empty())
        } else {
            p.update(p.len() - 1, p.last().push(s.last()))
        }
    }
}

/// A line that ended with a line feed loses one trailing carriage return.
pub open spec fn strip_cr(l: Seq<u8>) -> Seq<u8> {
    if l.len() > 0 && l.last() == 13 {
        l.drop_last()
    } else {
        l
    }
}

/// The bytes of `"event: "`.
pub open spec fn event_prefix() -> Seq<u8> {
    seq![101u8, 118u8, 101u8, 110u8, 116u8, 58u8, 32u8]
}

/// The bytes of `"data: "`.
pub open spec fn data_prefix() -> Seq<u8> {
    seq![100u8, 97u8, 116u8, 97u8, 58u8, 32u8]
}

/// The bytes of `"[DONE]"`, the end-of-stream payload.
pub open spec fn done_marker() -> Seq<u8> {
    seq![91u8, 68u8, 79u8, 78u8, 69u8, 93u8]
}

/// `p` is a prefix of `l`.
pub open spec fn has_prefix(l: Seq<u8>, p: Seq<u8>) -> bool {
    p.len() <= l.len() && l.take(p.len() as int) == p
}

/// The (event name, payload) pair after reading one more line.
pub open spec fn apply_line(f: (Seq<u8>, Seq<u8>), l: Seq<u8>) -> (Seq<u8>, Seq<u8>) {
    if has_prefix(l, event_prefix()) {
        (trim(l.skip(7)), f.1)
    } else if has_prefix(l, data_prefix()) {
        (f.0, trim(l.skip(6)))
    } else {
        f
    }
}

/// The (event name, payload) pair after reading the lines `ls` in order.
pub open spec fn fold_lines(ls: Seq<Seq<u8>>) -> (Seq<u8>, Seq<u8>)
    decreases ls.len(),
{
    if ls.len() == 0 {
        (Seq::<u8>::empty(), Seq::<u8>::empty())
    } else {
        apply_line(fold_lines(ls.drop_last()), ls.last())
    }
}

/// The (event name, payload) pair of the event text `t`.
pub open spec fn event_fields(t: Seq<u8>) -> (Seq<u8>, Seq<u8>) {
    let ps = split_lines(t);
    apply_line(fold_lines(ps.drop_last().map_values(|l: Seq<u8>| strip_cr(l))), ps.last())
}

/// `data` is one JSON text.
pub uninterp spec fn json_parses(data: Seq<u8>) -> bool;

/// Whether `data` parses as JSON (`serde_json::from_slice` into a
/// `serde_json::Value` succeeds); the answer depends on the bytes alone.
#[verifier::external_body]
fn parses_as_json(data: &[u8]) -> (r: bool)
    ensures
        r == json_parses(data@),
{
    serde_json::from_slice::<serde_json::Value>(data).is_ok()
}

/// Taking the first event out of the bytes `before` leaves the bytes `after`
/// and yields `r`: nothing happens before a blank line is complete; then
/// the event text and its blank line are removed, and its name and payload
/// are returned unless the payload is empty, `[DONE]` or not JSON.
pub open spec fn is_event_taken(before: Seq<u8>, after: Seq<u8>, r: Option<(Vec<u8>, Vec<u8>)>) -> bool {
    &&& (forall|j: int| !is_delim_at(before, j)) ==> r is None && after == before
    &&& forall|e: int| #[trigger] first_delim(before, e) ==> {
        let f = event_fields(before.take(e));
        &&& after == before.skip(e + 2)
        &&& (f.1.len() == 0 || f.1 == done_marker() || !json_parses(f.1)) ==> r is None
        &&& !(f.1.len() == 0 || f.1 == done_marker() || !json_parses(f.1)) ==> (r matches Some(p) && p.0@ == f.0
            && p.1@ == f.1)
    }
}

proof fn lemma_split_lines_nonempty(s: Seq<u8>)
    ensures
        split_lines(s).len() >= 1,
    decreases s.len(),
{
    if s.len() > 0 {
        lemma_split_lines_nonempty(s.drop_last());
    }
}

/// The length of the white-space character that `v[a..to]` starts with,
/// or 0.
fn ws_len_at(v: &Vec<u8>, a: usize, to: usize) -> (k: usize)
    requires
        a <= to <= v.len(),
    ensures
        k == ws_len_start(v@.subrange(a as int, to as int)),
{
    let ghost t = v@.subrange(a as int, to as int);
    let n = to - a;
    if n >= 1 {
        assert(t[0] == v@[a as int]);
    }
    if n >= 1 && (v[a] == 32 || (9 <= v[a] && v[a] <= 13)) {
        return 1;
    }
    if n >= 2 {
        assert(t[1] == v@[a + 1]);
    }
    if n >= 2 && v[a] == 0xC2 && (v[a + 1] == 0x85 || v[a + 1] == 0xA0) {
        return 2;
    }
    if n >= 3 {
        assert(t[2] == v@[a + 2]);
        let (x, y, z) = (v[a], v[a + 1], v[a + 2]);
        if (x == 0xE1 && y == 0x9A && z == 0x80) || (x == 0xE2 && y == 0x80 && ((0x80 <= z && z <= 0x8A) || z == 0xA8
            || z == 0xA9 || z == 0xAF)) || (x == 0xE2 && y == 0x81 && z == 0x9F) || (x == 0xE3 && y == 0x80 && z
            == 0x80) {
            return 3;
        }
    }
    0
}

/// The length of the white-space character that `v[a..b]` ends with, or
/// 0.
fn ws_len_before(v: &Vec<u8>, a: usize, b: usize) -> (k: usize)
    requires
        a <= b <= v.len(),
    ensures
        k == ws_len_end(v@.subrange(a as int, b as int)),
{
    let ghost t = v@.subrange(a as int, b as int);
    let n = b - a;
    if n >= 1 {
        assert(t[n - 1] == v@[b - 1]);
    }
    if n >= 1 && (v[b - 1] == 32 || (9 <= v[b - 1] && v[b - 1] <= 13)) {
        return 1;
    }
    if n >= 2 {
        assert(t[n - 2] == v@[b - 2]);
    }
    if n >= 2 && v[b - 2] == 0xC2 && (v[b - 1] == 0x85 || v[b - 1] == 0xA0) {
        return 2;
    }
    if n >= 3 {
        assert(t[n - 3] == v@[b - 3]);
        let (x, y, z) = (v[b - 3], v[b - 2], v[b - 1]);
        if (x == 0xE1 && y == 0x9A && z == 0x80) || (x == 0xE2 && y == 0x80 && ((0x80 <= z && z <= 0x8A) || z == 0xA8
            || z == 0xA9 || z == 0xAF)) || (x == 0xE2 && y == 0x81 && z == 0x9F) || (x == 0xE3 && y == 0x80 && z
            == 0x80) {
            return 3;
        }
    }
    0
}

/// The bytes `v[from..to]` without leading and trailing white space.
fn trimmed(v: &Vec<u8>, from: usize, to: usize) -> (r: Vec<u8>)
    requires
        from <= to <= v.len(),
    ensures
        r@ == trim(v@.subrange(from as int, to as int)),
{
    let ghost s = v@.subrange(from as int, to as int);
    let mut a = from;
    let mut k = ws_len_at(v, a, to);
    while k > 0
        invariant
            from <= a <= to <= v.len(),
            k == ws_len_start(v@.subrange(a as int, to as int)),
            trim_start(s) == trim_start(v@.subrange(a as int, to as int)),
        decreases to - a,
    {
        assert(v@.subrange(a as int, to as int).skip(k as int) =~= v@.subrange(a + k, to as int));
        a = a + k;
        k = ws_len_at(v, a, to);
    }
    let mut b = to;
    k = ws_len_before(v, a, b);
    while k > 0
        invariant
            from <= a <= b <= to <= v.len(),
            k == ws_len_end(v@.subrange(a as int, b as int)),
            trim_end(trim_start(s)) == trim_end(v@.subrange(a as int, b as int)),
        decreases b - a,
    {
        assert(v@.subrange(a as int, b as int).take(b - a - k) =~= v@.subrange(a as int, b - k));
        b = b - k;
        k = ws_len_before(v, a, b);
    }
    let mut r = Vec::new();
    let mut i = a;
    while i < b
        invariant
            a <= i <= b <= v.len(),
            r@ == v@.subrange(a as int, i as int),
        decreases b - i,
    {
        r.push(v[i]);
        assert(v@.subrange(a as int, i + 1) =~= v@.subrange(a as int, i as int).push(v@[i as int]));
        i = i + 1;
    }
    r
}

/// Whether `v[from..to]` starts with the bytes of `p`.
fn starts_with(v: &Vec<u8>, from: usize, to: usize, p: &[u8]) -> (r: bool)
    requires
        from <= to <= v.len(),
    ensures
        r == has_prefix(v@.subrange(from as int, to as int), p@),
{
    let ghost l = v@.subrange(from as int, to as int);
    if p.len() > to - from {
        return false;
    }
    let mut i: usize = 0;
    while i < p.len()
        invariant
            from <= to <= v.len(),
            l == v@.subrange(from as int, to as int),
            p@.len() <= l.len(),
            0 <= i <= p@.len(),
            forall|j: int| 0 <= j < i ==> l[j] == p@[j],
        decreases p@.len() - i,
    {
        if v[from + i] != p[i] {
            assert(l.take(p@.len() as int)[i as int] != p@[i as int]);
            return false;
        }
        i = i + 1;
    }
    assert(l.take(p@.len() as int) =~= p@);
    true
}

/// Reads the line `v[from..to]` into the (event name, payload) pair.
fn read_line(v: &Vec<u8>, from: usize, to: usize, ev: &mut Vec<u8>, data: &mut Vec<u8>)
    requires
        from <= to <= v.len(),
    ensures
        (final(ev)@, final(data)@) == apply_line((old(ev)@, old(data)@), v@.subrange(from as int, to as int)),
{
    let ghost l = v@.subrange(from as int, to as int);
    let ep: [u8; 7] = [101, 118, 101, 110, 116, 58, 32];
    let dp: [u8; 6] = [100, 97, 116, 97, 58, 32];
    assert(ep@ =~= event_prefix());
    assert(dp@ =~= data_prefix());
    if starts_with(v, from, to, ep.as_slice()) {
        assert(l.skip(7) =~= v@.subrange(from + 7, to as int));
        *ev = trimmed(v, from + 7, to);
    } else if starts_with(v, from, to, dp.as_slice()) {
        assert(l.skip(6) =~= v@.subrange(from + 6, to as int));
        *data = trimmed(v, from + 6, to);
    }
}

/// Removes the first complete event from `buffer` and returns its name and
/// payload. Nothing is removed when the buffer holds no blank line. An event
/// whose payload is empty, `[DONE]` or not JSON is removed and `None` is
/// returned.
pub fn take_sse_event(buffer: &mut Vec<u8>) -> (r: Option<(Vec<u8>, Vec<u8>)>)
    ensures
        is_event_taken(old(buffer)@, final(buffer)@, r),
{
    let ghost old_buf = buffer@;
    let n = buffer.len();
    let mut e: usize = 0;
    while e < n && e + 1 < n && !(buffer[e] == 10 && buffer[e + 1] == 10)
        invariant
            n == buffer.len(),
            buffer@ == old_buf,
            forall|j: int| 0 <= j < e ==> !is_delim_at(old_buf, j),
        decreases n - e,
    {
        e = e + 1;
    }
    if e >= n || e + 1 >= n {
        assert forall|j: int| !is_delim_at(old_buf, j) by {
            if 0 <= j && j < e {
            }
        }
        return None;
    }
    assert(first_delim(old_buf, e as int));
    let ghost t = old_buf.take(e as int);
    let mut ev: Vec<u8> = Vec::new();
    let mut data: Vec<u8> = Vec::new();
    let mut start: usize = 0;
    let mut k: usize = 0;
    proof {
        assert(t.take(0) =~= Seq::<u8>::empty());
        assert(split_lines(t.take(0)).drop_last().map_values(|l: Seq<u8>| strip_cr(l)) =~= Seq::<Seq<u8>>::empty());
        assert(t.subrange(0, 0) =~= Seq::<u8>::empty());
    }
    while k < e
        invariant
            n == buffer.len(),
            buffer@ == old_buf,
            e + 1 < n,
            t == old_buf.take(e as int),
            0 <= start <= k <= e,
            split_lines(t.take(k as int)).last() == t.subrange(start as int, k as int),
            (ev@, data@) == fold_lines(split_lines(t.take(k as int)).drop_last().map_values(|l: Seq<u8>| strip_cr(l))),
        decreases e - k,
    {
        let ghost p = split_lines(t.take(k as int));
        proof {
            lemma_split_lines_nonempty(t.take(k as int));
            assert(t.take(k + 1).drop_last() =~= t.take(k as int));
            assert(t.take(k + 1).last() == old_buf[k as int]);
        }
        if buffer[k] == 10 {
            let end = if k > start && buffer[k - 1] == 13 { k - 1 } else { k };
            proof {
                let line = t.subrange(start as int, k as int);
                assert(strip_cr(line) =~= old_buf.subrange(start as int, end as int));
                let q = split_lines(t.take(k + 1));
                assert(q == p.push(Seq::<u8>::empty()));
                assert(q.drop_last() =~= p);
                let m = p.map_values(|l: Seq<u8>| strip_cr(l));
                assert(m.drop_last() =~= p.drop_last().map_values(|l: Seq<u8>| strip_cr(l)));
                assert(m.last() == strip_cr(p.last()));
                assert(t.subrange(k + 1, k + 1) =~= Seq::<u8>::empty());
            }
            read_line(buffer, start, end, &mut ev, &mut data);
            start = k + 1;
        } else {
            proof {
                let q = split_lines(t.take(k + 1));
                assert(q == p.update(p.len() - 1, p.last().push(old_buf[k as int])));
                assert(q.drop_last() =~= p.drop_last());
                assert(t.subrange(start as int, k + 1) =~= t.subrange(start as int, k as int).push(old_buf[k as int]));
            }
        }
        k = k + 1;
    }
    proof {
        assert(t.take(e as int) =~= t);
        assert(t.subrange(start as int, e as int) =~= old_buf.subrange(start as int, e as int));
    }
    read_line(buffer, start, e, &mut ev, &mut data);
    assert((ev@, data@) == event_fields(t));
    let tail = buffer.split_off(e + 2);
    *buffer = tail;
    assert(buffer@ =~= old_buf.skip(e + 2));
    if data.len() == 0 {
        return None;
    }
    if data.len() == 6 && data[0] == 91 && data[1] == 68 && data[2] == 79 && data[3] == 78 && data[4] == 69
        && data[5] == 93 {
        assert(data@ =~= done_marker());
        return None;
    }
    assert(data@ != done_marker()) by {
        if data@.len() == 6 {
            assert(data@ != done_marker() ==> true);
            if data@ == done_marker() {
                assert(data@[0] == 91 && data@[1] == 68 && data@[2] == 79 && data@[3] == 78 && data@[4] == 69
                    && data@[5] == 93);
            }
        }
    }
    if !parses_as_json(data.as_slice()) {
        return None;
    }
    Some((ev, data))
}

} // verus!
