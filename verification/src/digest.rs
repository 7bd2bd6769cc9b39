//! SHA-256 digests and hexadecimal text.

use vstd::prelude::*;

use sha2::{Digest, Sha256};

verus! {

/// The SHA-256 digest of `data`.
pub uninterp spec fn sha256_of(data: Seq<u8>) -> Seq<u8>;

/// SHA-256 of `data` (`sha2::Sha256::digest`): a 32-byte digest that
/// depends on `data` alone.
#[verifier::external_body]
pub(crate) fn sha256(data: &[u8]) -> (r: Vec<u8>)
    ensures
        r@ == sha256_of(data@),
        r@.len() == 32,
{
    Sha256::digest(data).to_vec()
}

/// The lowercase hexadecimal digit for `n` (`n < 16`).
pub open spec fn hex_char(n: int) -> char {
    if n < 10 {
        (48 + n) as char
    } else {
        (87 + n) as char
    }
}

/// Two lowercase hexadecimal digits per byte, high digit first.
pub open spec fn hex_of(b: Seq<u8>) -> Seq<char>
    decreases b.len(),
{
    if b.len() == 0 {
        Seq::empty()
    } else {
        hex_of(b.drop_last()) + seq![hex_char(b.last() as int / 16), hex_char(b.last() as int % 16)]
    }
}

/// Hexadecimal text of `data` (`hex::encode`): each byte as two lowercase
/// digits, high digit first.
#[verifier::external_body]
pub(crate) fn hex_encode(data: &[u8]) -> (r: String)
    ensures
        r@ == hex_of(data@),
{
    hex::encode(data)
}

/// `c` is a hexadecimal digit, in either case.
pub open spec fn is_hex_digit(c: char) -> bool {
    ('0' <= c && c <= '9') || ('a' <= c && c <= 'f') || ('A' <= c && c <= 'F')
}

/// The value of the hexadecimal digit `c`.
pub open spec fn hex_value(c: char) -> int {
    if '0' <= c && c <= '9' {
        c as int - 48
    } else if 'a' <= c && c <= 'f' {
        c as int - 87
    } else {
        c as int - 55
    }
}

/// `s` is an even number of hexadecimal digits.
pub open spec fn is_hex_text(s: Seq<char>) -> bool {
    s.len() % 2 == 0 && forall|i: int| 0 <= i < s.len() ==> is_hex_digit(#[trigger] s[i])
}

/// The bytes written by hexadecimal text, two digits each.
pub open spec fn hex_bytes(s: Seq<char>) -> Seq<u8> {
    Seq::new(s.len() / 2, |i: int| (hex_value(s[2 * i]) * 16 + hex_value(s[2 * i + 1])) as u8)
}

/// Bytes from hexadecimal text (`hex::decode`): the bytes when `s` is an
/// even number of hexadecimal digits, else an error carrying the decoder's
/// message (whose text is not stated here).
#[verifier::external_body]
pub(crate) fn hex_decode(s: &str) -> (r: Result<Vec<u8>, String>)
    ensures
        r is Ok <==> is_hex_text(s@),
        r matches Ok(b) ==> b@ == hex_bytes(s@),
{
    hex::decode(s).map_err(|e| e.to_string())
}

pub(crate) proof fn lemma_hex_of_index(b: Seq<u8>)
    ensures
        hex_of(b).len() == 2 * b.len(),
        forall|i: int|
            0 <= i < b.len() ==> hex_of(b)[2 * i] == hex_char(#[trigger] b[i] as int / 16) && hex_of(b)[2 * i + 1]
                == hex_char(b[i] as int % 16),
    decreases b.len(),
{
    if b.len() > 0 {
        let p = b.drop_last();
        lemma_hex_of_index(p);
        assert forall|i: int| 0 <= i < b.len() implies hex_of(b)[2 * i] == hex_char(#[trigger] b[i] as int / 16)
            && hex_of(b)[2 * i + 1] == hex_char(b[i] as int % 16) by {
            if i < b.len() - 1 {
                assert(p[i] == b[i]);
            }
        }
    }
}

/// Hexadecimal text decodes to the bytes it was made from.
pub proof fn lemma_hex_roundtrip(b: Seq<u8>)
    ensures
        is_hex_text(hex_of(b)),
        hex_bytes(hex_of(b)) == b,
{
    lemma_hex_of_index(b);
    let h = hex_of(b);
    assert forall|j: int| 0 <= j < h.len() implies is_hex_digit(#[trigger] h[j]) by {
        let i = j / 2;
        assert(0 <= i < b.len());
        if j % 2 == 0 {
            assert(j == 2 * i);
            assert(h[j] == hex_char(b[i] as int / 16));
        } else {
            assert(j == 2 * i + 1);
            assert(h[j] == hex_char(b[i] as int % 16));
        }
    }
    assert(hex_bytes(h) =~= b) by {
        assert forall|i: int| 0 <= i < b.len() implies #[trigger] hex_bytes(h)[i] == b[i] by {
            let hi = b[i] as int / 16;
            let lo = b[i] as int % 16;
            assert(h[2 * i] == hex_char(hi));
            assert(h[2 * i + 1] == hex_char(lo));
            assert(hex_value(hex_char(hi)) == hi);
            assert(hex_value(hex_char(lo)) == lo);
            assert(hi * 16 + lo == b[i]);
        }
    }
}

} // verus!
