//! AES-256-GCM encryption of stored credentials.
//!
//! A sealed credential is the 12-byte random nonce followed by the
//! AES-256-GCM ciphertext (with its tag) of the credential's UTF-8 bytes.

use vstd::prelude::*;

use aes_gcm::aead::{Aead, KeyInit};
use aes_gcm::{Aes256Gcm, Key, Nonce};

use crate::digest::{hex_bytes, hex_decode, hex_encode, hex_of, is_hex_text, lemma_hex_roundtrip};
use crate::text::{append_bytes, concat, copy_range, owned};
use vstd::utf8::encode_utf8;

verus! {

/// The AES-256-GCM ciphertext, tag included, of `plaintext` under `key`
/// and `nonce` (no associated data).
pub uninterp spec fn aes256gcm_seal(key: Seq<u8>, nonce: Seq<u8>, plaintext: Seq<u8>) -> Seq<u8>;

/// The plaintext that AES-256-GCM recovers from `ciphertext` under `key`
/// and `nonce`; `None` when the ciphertext does not authenticate.
pub uninterp spec fn aes256gcm_open(key: Seq<u8>, nonce: Seq<u8>, ciphertext: Seq<u8>) -> Option<Seq<u8>>;

/// The largest plaintext AES-GCM accepts, in bytes.
pub open spec fn max_plaintext() -> int {
    0x10_0000_0000
}

/// Encrypts with AES-256-GCM (`Aead::encrypt` of `aes_gcm::Aes256Gcm`):
/// fails, with the message `aead::Error`, exactly when the plaintext is
/// longer than 2^36 bytes; else the result is the encrypted plaintext
/// followed by a 16-byte tag, depends on key, nonce and plaintext alone,
/// and decrypts under the same key and nonce to the plaintext.
#[verifier::external_body]
fn aes_seal(key: &[u8], nonce: &[u8], plaintext: &[u8]) -> (r: Result<Vec<u8>, String>)
    requires
        key@.len() == 32,
        nonce@.len() == 12,
    ensures
        r is Ok <==> plaintext@.len() <= max_plaintext(),
        r matches Ok(c) ==> c@ == aes256gcm_seal(key@, nonce@, plaintext@) && aes256gcm_open(key@, nonce@, c@) == Some(
            plaintext@,
        ) && c@.len() == plaintext@.len() + 16,
        r matches Err(m) ==> m@ == "aead::Error"@,
{
    Aes256Gcm::new(Key::<Aes256Gcm>::from_slice(key)).encrypt(Nonce::from_slice(nonce), plaintext).map_err(|e| e.to_string())
}

/// Decrypts with AES-256-GCM (`Aead::decrypt` of `aes_gcm::Aes256Gcm`):
/// the plaintext when the ciphertext authenticates under the key and
/// nonce, else a failure with the message `aead::Error`.
#[verifier::external_body]
fn aes_open(key: &[u8], nonce: &[u8], ciphertext: &[u8]) -> (r: Result<Vec<u8>, String>)
    requires
        key@.len() == 32,
        nonce@.len() == 12,
    ensures
        match aes256gcm_open(key@, nonce@, ciphertext@) {
            Some(p) => r matches Ok(v) && v@ == p,
            None => r matches Err(m) && m@ == "aead::Error"@,
        },
{
    Aes256Gcm::new(Key::<Aes256Gcm>::from_slice(key)).decrypt(Nonce::from_slice(nonce), ciphertext).map_err(|e| e.to_string())
}

/// Twelve bytes drawn by `rand::random::<[u8; 12]>()`; any bytes may come.
#[verifier::external_body]
fn random_nonce() -> [u8; 12] {
    rand::random::<[u8; 12]>()
}

/// Thirty-two bytes drawn by `rand::random::<[u8; 32]>()`; any bytes may
/// come.
#[verifier::external_body]
fn random_key() -> [u8; 32] {
    rand::random::<[u8; 32]>()
}

/// The `ENCRYPTION_KEY` text for a key: 64 lowercase hexadecimal digits.
pub fn key_text_of(key: &[u8; 32]) -> (r: String)
    ensures
        r@ == hex_of(key@),
{
    hex_encode(key)
}

/// A fresh random key, as `ENCRYPTION_KEY` text.
pub fn generate_key_text() -> (r: String)
    ensures
        exists|key: Seq<u8>| key.len() == 32 && r@ == #[trigger] hex_of(key),
{
    let key = random_key();
    key_text_of(&key)
}

/// A key written as text by [`generate_key_text`] or [`key_text_of`] is
/// accepted as `ENCRYPTION_KEY` and read back as the key it was made from.
pub proof fn lemma_key_text_accepted(key: Seq<u8>)
    requires
        key.len() == 32,
    ensures
        is_hex_text(hex_of(key)),
        hex_bytes(hex_of(key)) == key,
        hex_bytes(hex_of(key)).len() == 32,
{
    lemma_hex_roundtrip(key);
}

/// Text from UTF-8 bytes (`String::from_utf8`): the UTF-8 encoding of any
/// characters is accepted, and accepted bytes are the encoding of the
/// text returned; a refusal carries the decoder's message (not stated
/// here).
#[verifier::external_body]
fn utf8_string(bytes: Vec<u8>) -> (r: Result<String, String>)
    ensures
        r matches Ok(s) ==> encode_utf8(s@) == bytes@,
        (exists|t: Seq<char>| #[trigger] encode_utf8(t) == bytes@) ==> r is Ok,
{
    String::from_utf8(bytes).map_err(|e| e.to_string())
}

/// The sealed form of `text` under `key` with `nonce`.
pub open spec fn sealed(key: Seq<u8>, nonce: Seq<u8>, text: Seq<char>) -> Seq<u8> {
    nonce + aes256gcm_seal(key, nonce, encode_utf8(text))
}

/// What sealed `data` opens to under `key`: the bytes recovered from the
/// data after its 12-byte nonce.
pub open spec fn opened(key: Seq<u8>, data: Seq<u8>) -> Option<Seq<u8>> {
    aes256gcm_open(key, data.take(12), data.skip(12))
}

/// Seals and opens credentials under one 256-bit key.
pub struct Encryptor {
    key: Vec<u8>,
}

impl Encryptor {
    /// The key.
    pub closed spec fn key(&self) -> Seq<u8> {
        self.key@
    }

    /// The key is 32 bytes long.
    pub closed spec fn wf(&self) -> bool {
        self.key@.len() == 32
    }

    /// An encryptor from the `ENCRYPTION_KEY` setting (`None` when unset):
    /// 64 hexadecimal digits.
    pub fn from_env(value: Option<&str>) -> (r: Result<Self, String>)
        ensures
            match value {
                None => r matches Err(m) && m@ == "ENCRYPTION_KEY not set"@,
                Some(v) => if !is_hex_text(v@) {
                    r matches Err(m) && "invalid hex key: "@.is_prefix_of(m@)
                } else if hex_bytes(v@).len() != 32 {
                    r matches Err(m) && m@ == "ENCRYPTION_KEY must be 32 bytes (64 hex chars)"@
                } else {
                    r matches Ok(e) && e.wf() && e.key() == hex_bytes(v@)
                },
            },
    {
        let text = match value {
            Some(v) => v,
            None => {
                return Err(owned("ENCRYPTION_KEY not set"));
            },
        };
        let key = match hex_decode(text) {
            Ok(k) => k,
            Err(e) => {
                let m = concat("invalid hex key: ", e.as_str());
                proof {
                    reveal_strlit("invalid hex key: ");
                    assert("invalid hex key: "@ =~= m@.subrange(0, "invalid hex key: "@.len() as int));
                }
                return Err(m);
            },
        };
        if key.len() != 32 {
            return Err(owned("ENCRYPTION_KEY must be 32 bytes (64 hex chars)"));
        }
        Ok(Encryptor { key })
    }

    /// Seals `plaintext` with the given nonce: the nonce followed by the
    /// ciphertext and its 16-byte tag; fails when the text is longer than AES-GCM accepts.
    pub fn encrypt_with_nonce(&self, plaintext: &str, nonce: &[u8; 12]) -> (r: Result<Vec<u8>, String>)
        requires
            self.wf(),
        ensures
            r is Ok <==> encode_utf8(plaintext@).len() <= max_plaintext(),
            r matches Ok(v) ==> v@ == sealed(self.key(), nonce@, plaintext@) && v@.len() == 12 + encode_utf8(
                plaintext@,
            ).len() + 16 && opened(self.key(), v@) == Some(encode_utf8(plaintext@)),
            r matches Err(m) ==> m@ == "encryption failed: "@ + "aead::Error"@,
    {
        let ciphertext = match aes_seal(self.key.as_slice(), nonce, plaintext.as_bytes()) {
            Ok(c) => c,
            Err(e) => {
                return Err(concat("encryption failed: ", e.as_str()));
            },
        };
        let mut result: Vec<u8> = Vec::new();
        append_bytes(&mut result, nonce);
        append_bytes(&mut result, ciphertext.as_slice());
        assert(result@.take(12) =~= nonce@);
        assert(result@.skip(12) =~= ciphertext@);
        Ok(result)
    }

    /// Seals `plaintext` under a fresh random nonce.
    pub fn encrypt(&self, plaintext: &str) -> (r: Result<Vec<u8>, String>)
        requires
            self.wf(),
        ensures
            r is Ok <==> encode_utf8(plaintext@).len() <= max_plaintext(),
            r matches Ok(v) ==> (exists|n: Seq<u8>| n.len() == 12 && v@ == #[trigger] sealed(self.key(), n, plaintext@))
                && v@.len() == 12 + encode_utf8(plaintext@).len() + 16 && opened(self.key(), v@) == Some(
                encode_utf8(plaintext@),
            ),
            r matches Err(m) ==> m@ == "encryption failed: "@ + "aead::Error"@,
    {
        let nonce = random_nonce();
        self.encrypt_with_nonce(plaintext, &nonce)
    }

    /// Opens sealed data: data shorter than a nonce is refused, data that
    /// does not authenticate is refused, and authenticated bytes are read
    /// as UTF-8 text. In particular, what [`Self::encrypt`] sealed opens to
    /// the text sealed.
    pub fn decrypt(&self, data: &[u8]) -> (r: Result<String, String>)
        requires
            self.wf(),
        ensures
            data@.len() < 12 ==> (r matches Err(m) && m@ == "data too short"@),
            data@.len() >= 12 && opened(self.key(), data@) is None ==> (r matches Err(m) && m@ == "decryption failed: "@
                + "aead::Error"@),
            data@.len() >= 12 && opened(self.key(), data@) is Some ==> match r {
                Ok(s) => opened(self.key(), data@) == Some(encode_utf8(s@)),
                Err(m) => "invalid utf8: "@.is_prefix_of(m@) && forall|t: Seq<char>|
                    opened(self.key(), data@) != Some(#[trigger] encode_utf8(t)),
            },
            forall|t: Seq<char>|
                data@.len() >= 12 && opened(self.key(), data@) == Some(#[trigger] encode_utf8(t)) ==> (r matches Ok(s)
                    && s@ == t),
    {
        if data.len() < 12 {
            return Err(owned("data too short"));
        }
        let nonce = copy_range(data, 0, 12);
        let ciphertext = copy_range(data, 12, data.len());
        assert(nonce@ =~= data@.take(12));
        assert(ciphertext@ =~= data@.skip(12));
        let plain = match aes_open(self.key.as_slice(), nonce.as_slice(), ciphertext.as_slice()) {
            Ok(p) => p,
            Err(e) => {
                return Err(concat("decryption failed: ", e.as_str()));
            },
        };
        let ghost plain_bytes = plain@;
        let r = match utf8_string(plain) {
            Ok(s) => Ok(s),
            Err(e) => {
                let m = concat("invalid utf8: ", e.as_str());
                proof {
                    reveal_strlit("invalid utf8: ");
                    assert("invalid utf8: "@ =~= m@.subrange(0, "invalid utf8: "@.len() as int));
                }
                Err(m)
            },
        };
        proof {
            assert forall|t: Seq<char>|
                data@.len() >= 12 && opened(self.key(), data@) == Some(#[trigger] encode_utf8(t)) implies (r matches Ok(
                s,
            ) && s@ == t) by {
                assert(plain_bytes == encode_utf8(t));
                vstd::utf8::encode_utf8_decode_utf8(t);
                match r {
                    Ok(s) => {
                        vstd::utf8::encode_utf8_decode_utf8(s@);
                    },
                    Err(_) => {},
                }
            }
        }
        r
    }
}

} // verus!
