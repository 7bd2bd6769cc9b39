//! Client authentication: bearer keys, the master key, and the derivation
//! of newly issued keys.

use vstd::prelude::*;

use crate::digest::{hex_encode, hex_of, sha256, sha256_of};
use crate::hooks::AuthContext;
use crate::provider::ProviderError;
use crate::text::{concat, owned, str_eq, strip_prefix, take_chars};
use vstd::utf8::encode_utf8;

verus! {

/// The hexadecimal SHA-256 of a key's UTF-8 bytes, under which keys are
/// stored.
pub open spec fn key_hash_of(key: Seq<char>) -> Seq<char> {
    hex_of(sha256_of(encode_utf8(key)))
}

/// The hash under which `key` is stored.
pub fn key_hash(key: &str) -> (r: String)
    ensures
        r@ == key_hash_of(key@),
{
    let digest = sha256(key.as_bytes());
    hex_encode(digest.as_slice())
}

/// A client request authenticated by a bearer key.
pub struct KeyAuth {
    pub api_key: String,
}

impl KeyAuth {
    /// Reads the key from an `Authorization` header (`None` when the header
    /// is absent or not visible ASCII): `Bearer {key}`.
    pub fn from_authorization(header: Option<&str>) -> (r: Result<KeyAuth, (u16, &'static str)>)
        ensures
            match header {
                None => r matches Err((s, m)) && s == 401 && m@ == "missing authorization header"@,
                Some(h) => if "Bearer "@.is_prefix_of(h@) {
                    r matches Ok(k) && k.api_key@ == h@.skip("Bearer "@.len() as int)
                } else {
                    r matches Err((s, m)) && s == 401 && m@ == "invalid authorization format"@
                },
            },
    {
        match header {
            None => Err((401, "missing authorization header")),
            Some(h) => match strip_prefix(h, "Bearer ") {
                Some(key) => Ok(KeyAuth { api_key: key }),
                None => Err((401, "invalid authorization format")),
            },
        }
    }
}

/// An administrative request carrying the master key.
pub struct MasterKeyAuth;

impl MasterKeyAuth {
    /// Checks an `Authorization` header (`None` when absent or not visible
    /// ASCII) against the configured master key: it must read
    /// `Bearer {master_key}`, and a master key must be configured.
    pub fn check(master_key: &Option<String>, header: Option<&str>) -> (r: Result<MasterKeyAuth, (u16, &'static str)>)
        ensures
            crate::text::view_or_empty(*master_key).len() == 0 ==> (r matches Err((s, m)) && s == 401 && m@
                == "master key not configured"@),
            crate::text::view_or_empty(*master_key).len() > 0 ==> match header {
                Some(h) => if "Bearer "@.is_prefix_of(h@) {
                    if h@.skip("Bearer "@.len() as int) == crate::text::view_or_empty(*master_key) {
                        r is Ok
                    } else {
                        r matches Err((s, m)) && s == 401 && m@ == "invalid master key"@
                    }
                } else {
                    r matches Err((s, m)) && s == 401 && m@ == "missing authorization"@
                },
                None => r matches Err((s, m)) && s == 401 && m@ == "missing authorization"@,
            },
    {
        let expected: &str = match master_key {
            Some(k) => k.as_str(),
            None => "",
        };
        proof {
            reveal_strlit("");
        }
        if expected.is_empty() {
            return Err((401, "master key not configured"));
        }
        let given = match header {
            Some(h) => match strip_prefix(h, "Bearer ") {
                Some(g) => g,
                None => {
                    return Err((401, "missing authorization"));
                },
            },
            None => {
                return Err((401, "missing authorization"));
            },
        };
        if str_eq(given.as_str(), expected) {
            Ok(MasterKeyAuth)
        } else {
            Err((401, "invalid master key"))
        }
    }
}

/// A newly issued key and its displayable prefix.
pub struct GeneratedKey {
    pub key: String,
    pub prefix: String,
}

/// The key issued for the given random bytes: `sk-tc-` and their
/// hexadecimal text.
pub open spec fn issued_key(random: Seq<u8>) -> Seq<char> {
    "sk-tc-"@ + hex_of(random)
}

proof fn lemma_hex_len(b: Seq<u8>)
    ensures
        hex_of(b).len() == 2 * b.len(),
    decreases b.len(),
{
    if b.len() > 0 {
        lemma_hex_len(b.drop_last());
    }
}

/// Derives a key from 24 random bytes: the key itself, its first fifteen
/// characters as prefix, and its hash for storage (third component).
pub fn derive_key(random: &[u8; 24]) -> (r: (GeneratedKey, String))
    ensures
        r.0.key@ == issued_key(random@),
        r.0.prefix@ == issued_key(random@).take(15),
        r.1@ == key_hash_of(issued_key(random@)),
{
    let h = hex_encode(random);
    let raw = concat("sk-tc-", h.as_str());
    proof {
        reveal_strlit("sk-tc-");
        lemma_hex_len(random@);
        assert(random@.len() == 24);
    }
    let prefix = take_chars(raw.as_str(), 15);
    let hash = key_hash(raw.as_str());
    (GeneratedKey { key: raw, prefix }, hash)
}

/// Issues a fresh key from 24 random bytes, as [`derive_key`] does for
/// some bytes.
pub fn new_key() -> (r: (GeneratedKey, String))
    ensures
        exists|random: [u8; 24]|
            r.0.key@ == #[trigger] issued_key(random@) && r.0.prefix@ == issued_key(random@).take(15) && r.1@
                == key_hash_of(issued_key(random@)),
{
    let random = crate::clock::random_key_bytes();
    derive_key(&random)
}

/// The error for a request without a key.
pub open spec fn is_unauthorized(e: ProviderError, message: Seq<char>) -> bool {
    e matches ProviderError::UpstreamError { status, message: m } && status == 401 && m@ == message
}

/// Starts authenticating `api_key`: refuses an empty key, else gives the
/// key's hash and the cache key (`key:{hash}`) of its cached identity.
pub fn begin_auth(api_key: &str) -> (r: Result<(String, String), ProviderError>)
    ensures
        api_key@.len() == 0 ==> (r matches Err(e) && is_unauthorized(e, "missing api key"@)),
        api_key@.len() > 0 ==> (r matches Ok((h, k)) && h@ == key_hash_of(api_key@) && k@ == "key:"@
            + key_hash_of(api_key@)),
{
    if api_key.is_empty() {
        return Err(ProviderError::UpstreamError { status: 401, message: owned("missing api key") });
    }
    let h = key_hash(api_key);
    let k = concat("key:", h.as_str());
    Ok((h, k))
}

/// The identity read back from the cache: a cache entry that cannot be
/// read is an internal error.
pub fn auth_from_cached(parsed: Option<AuthContext>) -> (r: Result<AuthContext, ProviderError>)
    ensures
        parsed matches Some(c) ==> r == Ok::<AuthContext, ProviderError>(c),
        parsed is None ==> (r matches Err(ProviderError::UpstreamError { status, message }) && status == 500
            && message@ == "cache corrupt"@),
{
    match parsed {
        Some(c) => Ok(c),
        None => Err(ProviderError::UpstreamError { status: 500, message: owned("cache corrupt") }),
    }
}

/// The identity of a stored key. Stored limits are signed; they are taken
/// as `u32` bit patterns.
pub fn auth_from_row(id: String, name: Option<String>, tpm_limit: Option<i32>, rpm_limit: Option<i32>) -> (r: AuthContext)
    ensures
        r.key_id == id,
        r.key_name == name,
        r.tpm_limit == (match tpm_limit {
            Some(v) => Some(v as u32),
            None => None::<u32>,
        }),
        r.rpm_limit == (match rpm_limit {
            Some(v) => Some(v as u32),
            None => None::<u32>,
        }),
{
    let tpm = match tpm_limit {
        Some(v) => Some(v as u32),
        None => None,
    };
    let rpm = match rpm_limit {
        Some(v) => Some(v as u32),
        None => None,
    };
    AuthContext { key_id: id, key_name: name, tpm_limit: tpm, rpm_limit: rpm }
}

/// `r` answers `api_key` from the statically configured keys: a listed key
/// is accepted with the `yaml-static` identity and no limits, any other key
/// is refused as invalid.
pub open spec fn is_static_answer(api_keys: Seq<String>, api_key: Seq<char>, r: Result<AuthContext, ProviderError>) -> bool {
    &&& (exists|i: int| 0 <= i < api_keys.len() && #[trigger] api_keys[i]@ == api_key) ==> (r matches Ok(c)
        && c.key_id@ == "yaml-static"@ && c.key_name is None && c.tpm_limit is None && c.rpm_limit is None)
    &&& !(exists|i: int| 0 <= i < api_keys.len() && #[trigger] api_keys[i]@ == api_key) ==> (r matches Err(e)
        && is_unauthorized(e, "invalid api key"@))
}

/// Falls back to the statically configured keys: a listed key is accepted
/// with the `yaml-static` identity and no limits.
pub fn static_key_auth(api_keys: &Vec<String>, api_key: &str) -> (r: Result<AuthContext, ProviderError>)
    ensures
        is_static_answer(api_keys@, api_key@, r),
{
    let mut i: usize = 0;
    while i < api_keys.len()
        invariant
            0 <= i <= api_keys@.len(),
            forall|j: int| 0 <= j < i ==> #[trigger] api_keys@[j]@ != api_key@,
        decreases api_keys@.len() - i,
    {
        if str_eq(api_keys[i].as_str(), api_key) {
            return Ok(
                AuthContext { key_id: owned("yaml-static"), key_name: None, tpm_limit: None, rpm_limit: None },
            );
        }
        i = i + 1;
    }
    Err(ProviderError::UpstreamError { status: 401, message: owned("invalid api key") })
}

/// A stored key, as the database gives it: id, name and signed limits.
pub struct KeyRow {
    pub id: String,
    pub name: Option<String>,
    pub tpm_limit: Option<i32>,
    pub rpm_limit: Option<i32>,
}

/// The identity of a stored key, its limits taken as `u32` bit patterns.
pub open spec fn row_identity(row: KeyRow) -> AuthContext {
    AuthContext {
        key_id: row.id,
        key_name: row.name,
        tpm_limit: match row.tpm_limit {
            Some(v) => Some(v as u32),
            None => None,
        },
        rpm_limit: match row.rpm_limit {
            Some(v) => Some(v as u32),
            None => None,
        },
    }
}

/// Seconds an identity read from the database stays cached.
pub open spec fn identity_ttl() -> u64 {
    300
}

/// What authenticating a key asks for next: the cache is read first, then
/// the database (where there is one), then the statically configured keys.
pub enum AuthStep {
    /// Read the identity cached under `key`.
    ReadCache { key: String },
    /// Look up the stored key whose hash is `hash`.
    FindRow { hash: String },
    /// Cache `identity` under `key` for `ttl_secs` seconds, then accept it.
    Remember { key: String, ttl_secs: u64, identity: AuthContext },
    /// Authentication is over.
    Done(Result<AuthContext, ProviderError>),
}

/// The first step of authenticating `api_key`: an empty key is refused;
/// otherwise its cached identity is read, under `key:{hash}`.
pub fn auth_start(api_key: &str) -> (s: AuthStep)
    ensures
        api_key@.len() == 0 ==> (s matches AuthStep::Done(Err(e)) && is_unauthorized(e, "missing api key"@)),
        api_key@.len() > 0 ==> (s matches AuthStep::ReadCache { key } && key@ == "key:"@ + key_hash_of(api_key@)),
{
    match begin_auth(api_key) {
        Ok((_, key)) => AuthStep::ReadCache { key },
        Err(e) => AuthStep::Done(Err(e)),
    }
}

/// The step after the cache was read for `api_key`: `cached` is `None` on
/// a miss, else the identity read back (`None` when the entry cannot be
/// read). A hit answers; a miss looks the key up in the database when
/// there is one (`has_db`), else in the statically configured keys.
pub fn auth_after_cache(api_key: &str, cached: Option<Option<AuthContext>>, has_db: bool, api_keys: &Vec<String>) -> (s:
    AuthStep)
    ensures
        match cached {
            Some(Some(c)) => s == AuthStep::Done(Ok::<AuthContext, ProviderError>(c)),
            Some(None) => s matches AuthStep::Done(Err(ProviderError::UpstreamError { status, message })) && status
                == 500 && message@ == "cache corrupt"@,
            None => if has_db {
                s matches AuthStep::FindRow { hash } && hash@ == key_hash_of(api_key@)
            } else {
                s matches AuthStep::Done(r) && is_static_answer(api_keys@, api_key@, r)
            },
        },
{
    match cached {
        Some(parsed) => AuthStep::Done(auth_from_cached(parsed)),
        None => {
            if has_db {
                AuthStep::FindRow { hash: key_hash(api_key) }
            } else {
                AuthStep::Done(static_key_auth(api_keys, api_key))
            }
        },
    }
}

/// The step after the database was asked for `api_key`: a stored key's
/// identity is cached for five minutes and accepted; otherwise the
/// statically configured keys decide.
pub fn auth_after_row(api_key: &str, row: Option<KeyRow>, api_keys: &Vec<String>) -> (s: AuthStep)
    ensures
        match row {
            Some(k) => s matches AuthStep::Remember { key, ttl_secs, identity } && key@ == "key:"@ + key_hash_of(
                api_key@,
            ) && ttl_secs == identity_ttl() && identity == row_identity(k),
            None => s matches AuthStep::Done(r) && is_static_answer(api_keys@, api_key@, r),
        },
{
    match row {
        Some(k) => {
            let h = key_hash(api_key);
            let key = concat("key:", h.as_str());
            let identity = auth_from_row(k.id, k.name, k.tpm_limit, k.rpm_limit);
            AuthStep::Remember { key, ttl_secs: 300, identity }
        },
        None => AuthStep::Done(static_key_auth(api_keys, api_key)),
    }
}

/// An issued key authenticates: it is not empty, its displayed prefix is
/// the start of the key, and the hash stored for it is the hash a request
/// carrying it is looked up by.
pub proof fn lemma_issued_key_authenticates(random: Seq<u8>)
    requires
        random.len() == 24,
    ensures
        issued_key(random).len() == 54,
        issued_key(random).take(15).is_prefix_of(issued_key(random)),
        "sk-tc-"@.is_prefix_of(issued_key(random).take(15)),
        key_hash_of(issued_key(random)) == hex_of(sha256_of(encode_utf8(issued_key(random)))),
{
    reveal_strlit("sk-tc-");
    lemma_hex_len(random);
    assert(issued_key(random).take(15).subrange(0, 6) =~= "sk-tc-"@);
    assert(issued_key(random).take(15) =~= issued_key(random).subrange(0, 15));
}

} // verus!
