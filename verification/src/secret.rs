//! Where provider API keys come from: environment variables, or
//! credentials stored encrypted.

use vstd::prelude::*;

use crate::encryptor::{opened, Encryptor};
use crate::strmap::StrMap;
use crate::text::append_str;
use vstd::utf8::encode_utf8;

verus! {

/// Looks up the API key of a provider.
pub trait SecretManager {
    /// The API key of `provider`, if known.
    fn get_secret(&self, provider: &str) -> Option<String>;
}

/// The upper-case form of `s` under Unicode case mapping.
pub uninterp spec fn uppercase(s: Seq<char>) -> Seq<char>;

/// Upper-cases a string (`str::to_uppercase`); the result depends on the
/// text alone.
#[verifier::external_body]
fn to_uppercase(s: &str) -> (r: String)
    ensures
        r@ == uppercase(s@),
{
    s.to_uppercase()
}

/// Keys read from `{PROVIDER}_API_KEY` environment variables.
pub struct EnvSecretManager;

impl EnvSecretManager {
    /// The environment variable holding the key of `provider`: its name
    /// upper-cased, then `_API_KEY`.
    pub fn variable_name(&self, provider: &str) -> (r: String)
        ensures
            r@ == uppercase(provider@) + "_API_KEY"@,
    {
        let mut r = to_uppercase(provider);
        append_str(&mut r, "_API_KEY");
        r
    }
}

/// Keys stored encrypted, kept decrypted in memory once loaded.
pub struct EncryptedSecretManager {
    encryptor: Encryptor,
    cache: StrMap<String>,
}

impl EncryptedSecretManager {
    /// The decrypted keys loaded so far, by provider.
    pub closed spec fn loaded(&self) -> Map<Seq<char>, String> {
        self.cache.view()
    }

    /// The encryption key.
    pub closed spec fn key(&self) -> Seq<u8> {
        self.encryptor.key()
    }

    /// The encryptor and the loaded keys are well formed.
    pub closed spec fn wf(&self) -> bool {
        self.encryptor.wf() && self.cache.wf()
    }

    /// A manager with no key loaded.
    pub fn new(encryptor: Encryptor) -> (m: Self)
        requires
            encryptor.wf(),
        ensures
            m.wf(),
            m.key() == encryptor.key(),
            m.loaded() == Map::<Seq<char>, String>::empty(),
    {
        EncryptedSecretManager { encryptor, cache: StrMap::new() }
    }

    /// Decrypts a stored credential of `provider` and keeps it.
    pub fn load_from_db(&mut self, provider: &str, encrypted: Vec<u8>) -> (r: Result<String, String>)
        requires
            old(self).wf(),
        ensures
            final(self).wf(),
            final(self).key() == old(self).key(),
            r matches Ok(s) ==> final(self).loaded() == old(self).loaded().insert(provider@, s) && encrypted@.len() >= 12
                && opened(old(self).key(), encrypted@) == Some(encode_utf8(s@)),
            r is Err ==> final(self).loaded() == old(self).loaded(),
            forall|t: Seq<char>|
                encrypted@.len() >= 12 && opened(old(self).key(), encrypted@) == Some(#[trigger] encode_utf8(t)) ==> (r matches Ok(
                    s,
                ) && s@ == t),
    {
        let plain = self.encryptor.decrypt(encrypted.as_slice());
        match plain {
            Ok(p) => {
                self.cache.insert(provider, p.clone());
                Ok(p)
            },
            Err(e) => Err(e),
        }
    }

    /// The sealed form of a credential, for storage.
    pub fn encrypt_for_store(&self, plaintext: &str) -> (r: Result<Vec<u8>, String>)
        requires
            self.wf(),
        ensures
            r matches Ok(v) ==> v@.len() >= 12 && opened(self.key(), v@) == Some(encode_utf8(plaintext@)),
            r is Ok <==> encode_utf8(plaintext@).len() <= crate::encryptor::max_plaintext(),
    {
        self.encryptor.encrypt(plaintext)
    }
}

impl SecretManager for EncryptedSecretManager {
    /// The key loaded for `provider`.
    fn get_secret(&self, provider: &str) -> (r: Option<String>)
        ensures
            self.wf() ==> match r {
                Some(s) => self.loaded().dom().contains(provider@) && self.loaded()[provider@] == s,
                None => !self.loaded().dom().contains(provider@),
            },
    {
        match self.cache.lookup(provider) {
            Some(s) => Some(s.clone()),
            None => None,
        }
    }
}

} // verus!
