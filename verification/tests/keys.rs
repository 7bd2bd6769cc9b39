use aes_gcm::aead::{Aead, KeyInit};
use aes_gcm::{Aes256Gcm, Key, Nonce};
use tokencamp::auth::{
    auth_after_cache, auth_after_row, auth_from_cached, auth_from_row, auth_start, begin_auth, derive_key, key_hash,
    new_key, static_key_auth, AuthStep, KeyAuth, KeyRow, MasterKeyAuth,
};
use tokencamp::encryptor::{generate_key_text, key_text_of, Encryptor};
use tokencamp::hooks::AuthContext;
use tokencamp::provider::ProviderError;
use tokencamp::secret::{EncryptedSecretManager, EnvSecretManager, SecretManager};

const KEY_HEX: &str = "000102030405060708090a0b0c0d0e0f101112131415161718191a1b1c1d1e1f";

#[test]
fn key_hash_is_hex_sha256() {
    assert_eq!(key_hash("abc"), "ba7816bf8f01cfea414140de5dae2223b00361a396177a9cb410ff61f20015ad");
    assert_eq!(key_hash(""), "e3b0c44298fc1c149afbf4c8996fb92427ae41e4649b934ca495991b7852b855");
}

#[test]
fn issued_keys() {
    let random = [0xabu8; 24];
    let (k, hash) = derive_key(&random);
    assert_eq!(k.key, format!("sk-tc-{}", "ab".repeat(24)));
    assert_eq!(k.prefix, "sk-tc-ababababa");
    assert_eq!(k.prefix.len(), 15);
    assert_eq!(hash, key_hash(&k.key));
    let (a, _) = new_key();
    let (b, _) = new_key();
    assert_eq!(a.key.len(), 54);
    assert!(a.key.starts_with("sk-tc-"));
    assert_ne!(a.key, b.key);
}

#[test]
fn bearer_header() {
    assert!(matches!(KeyAuth::from_authorization(None), Err((401, "missing authorization header"))));
    assert!(matches!(KeyAuth::from_authorization(Some("Basic x")), Err((401, "invalid authorization format"))));
    match KeyAuth::from_authorization(Some("Bearer sk-1")) {
        Ok(k) => assert_eq!(k.api_key, "sk-1"),
        Err(_) => panic!("expected the key"),
    }
    match KeyAuth::from_authorization(Some("Bearer ")) {
        Ok(k) => assert_eq!(k.api_key, ""),
        Err(_) => panic!("expected an empty key"),
    }
}

#[test]
fn master_key_check() {
    let mk = Some("secret".to_string());
    assert!(MasterKeyAuth::check(&mk, Some("Bearer secret")).is_ok());
    assert!(matches!(MasterKeyAuth::check(&mk, Some("Bearer other")), Err((401, "invalid master key"))));
    assert!(matches!(MasterKeyAuth::check(&mk, Some("secret")), Err((401, "missing authorization"))));
    assert!(matches!(MasterKeyAuth::check(&mk, None), Err((401, "missing authorization"))));
    assert!(matches!(MasterKeyAuth::check(&None, Some("Bearer secret")), Err((401, "master key not configured"))));
    assert!(matches!(MasterKeyAuth::check(&Some(String::new()), Some("Bearer ")), Err((401, "master key not configured"))));
}

#[test]
fn authentication_steps() {
    assert!(matches!(begin_auth(""), Err(ProviderError::UpstreamError { status: 401, message }) if message == "missing api key"));
    match begin_auth("abc") {
        Ok((h, k)) => {
            assert_eq!(h, key_hash("abc"));
            assert_eq!(k, format!("key:{}", key_hash("abc")));
        },
        Err(_) => panic!("expected the hash"),
    }
    let keys = vec!["sk-a".to_string(), "sk-b".to_string()];
    match static_key_auth(&keys, "sk-b") {
        Ok(c) => {
            assert_eq!(c.key_id, "yaml-static");
            assert!(c.key_name.is_none() && c.tpm_limit.is_none() && c.rpm_limit.is_none());
        },
        Err(_) => panic!("expected the static identity"),
    }
    assert!(matches!(static_key_auth(&keys, "sk-c"), Err(ProviderError::UpstreamError { status: 401, message }) if message == "invalid api key"));
    let row = auth_from_row("id-1".into(), Some("n".into()), Some(100), Some(-1));
    assert_eq!(row.tpm_limit, Some(100));
    assert_eq!(row.rpm_limit, Some(u32::MAX));
    assert!(matches!(auth_from_cached(None), Err(ProviderError::UpstreamError { status: 500, message }) if message == "cache corrupt"));
    let c = AuthContext { key_id: "x".into(), key_name: None, tpm_limit: None, rpm_limit: Some(5) };
    match auth_from_cached(Some(c)) {
        Ok(c) => assert_eq!(c.rpm_limit, Some(5)),
        Err(_) => panic!("expected the cached identity"),
    }
}

fn encryptor() -> Encryptor {
    match Encryptor::from_env(Some(KEY_HEX)) {
        Ok(e) => e,
        Err(m) => panic!("{}", m),
    }
}

#[test]
fn encryption_key_validation() {
    assert!(matches!(Encryptor::from_env(None), Err(m) if m == "ENCRYPTION_KEY not set"));
    assert!(matches!(Encryptor::from_env(Some("zz")), Err(m) if m.starts_with("invalid hex key: ")));
    assert!(matches!(Encryptor::from_env(Some("abc")), Err(m) if m.starts_with("invalid hex key: ")));
    assert!(matches!(Encryptor::from_env(Some("abcd")), Err(m) if m == "ENCRYPTION_KEY must be 32 bytes (64 hex chars)"));
    assert!(Encryptor::from_env(Some(KEY_HEX.to_uppercase().as_str())).is_ok());
    let text = generate_key_text();
    assert_eq!(text.len(), 64);
    assert!(Encryptor::from_env(Some(text.as_str())).is_ok());
    assert_eq!(key_text_of(&[0u8; 32]), "0".repeat(64));
}

#[test]
fn encryption_round_trip() {
    let e = encryptor();
    let sealed = e.encrypt("sk-provider-κey").unwrap();
    assert_eq!(sealed.len(), 12 + "sk-provider-κey".len() + 16);
    assert_eq!(e.decrypt(&sealed).unwrap(), "sk-provider-κey");
    let again = e.encrypt("sk-provider-κey").unwrap();
    assert_ne!(sealed, again);
    let fixed = e.encrypt_with_nonce("x", &[7u8; 12]).unwrap();
    assert_eq!(fixed, e.encrypt_with_nonce("x", &[7u8; 12]).unwrap());
    assert_eq!(&fixed[..12], &[7u8; 12]);
}

#[test]
fn decryption_failures() {
    let e = encryptor();
    assert_eq!(e.decrypt(&[1, 2, 3]), Err("data too short".to_string()));
    let mut sealed = e.encrypt("hello").unwrap();
    let last = sealed.len() - 1;
    sealed[last] ^= 1;
    assert_eq!(e.decrypt(&sealed), Err("decryption failed: aead::Error".to_string()));
    let other = match Encryptor::from_env(Some("11".repeat(32).as_str())) {
        Ok(o) => o,
        Err(m) => panic!("{}", m),
    };
    let sealed = e.encrypt("hello").unwrap();
    assert!(other.decrypt(&sealed).is_err());
}

#[test]
fn secrets() {
    assert_eq!(EnvSecretManager.variable_name("openai"), "OPENAI_API_KEY");
    assert_eq!(EnvSecretManager.variable_name("straße"), "STRASSE_API_KEY");
    let mut m = EncryptedSecretManager::new(encryptor());
    assert_eq!(m.get_secret("openai"), None);
    let sealed = m.encrypt_for_store("sk-123").unwrap();
    assert_eq!(m.load_from_db("openai", sealed).unwrap(), "sk-123");
    assert_eq!(m.get_secret("openai").as_deref(), Some("sk-123"));
    assert!(m.load_from_db("anthropic", vec![0; 40]).is_err());
    assert_eq!(m.get_secret("anthropic"), None);
}

#[test]
fn decrypted_bytes_must_be_text() {
    let key = hex::decode(KEY_HEX).unwrap();
    let cipher = Aes256Gcm::new(Key::<Aes256Gcm>::from_slice(&key));
    let nonce = [3u8; 12];
    let sealed = cipher.encrypt(Nonce::from_slice(&nonce), &[0xffu8, 0xfe][..]).unwrap();
    let mut data = nonce.to_vec();
    data.extend(sealed);
    match encryptor().decrypt(&data) {
        Err(m) => assert!(m.starts_with("invalid utf8: ")),
        Ok(_) => panic!("expected a refusal"),
    }
}

#[test]
fn authentication_order() {
    assert!(matches!(auth_start(""), AuthStep::Done(Err(ProviderError::UpstreamError { status: 401, .. }))));
    match auth_start("sk-x") {
        AuthStep::ReadCache { key } => assert_eq!(key, format!("key:{}", key_hash("sk-x"))),
        _ => panic!("expected a cache read"),
    }
    let keys = vec!["sk-x".to_string()];
    let cached = AuthContext { key_id: "k9".into(), key_name: None, tpm_limit: Some(5), rpm_limit: None };
    match auth_after_cache("sk-x", Some(Some(cached)), true, &keys) {
        AuthStep::Done(Ok(c)) => assert_eq!(c.key_id, "k9"),
        _ => panic!("expected the cached identity"),
    }
    assert!(matches!(
        auth_after_cache("sk-x", Some(None), true, &keys),
        AuthStep::Done(Err(ProviderError::UpstreamError { status: 500, .. }))
    ));
    match auth_after_cache("sk-x", None, true, &keys) {
        AuthStep::FindRow { hash } => assert_eq!(hash, key_hash("sk-x")),
        _ => panic!("expected a database lookup"),
    }
    match auth_after_cache("sk-x", None, false, &keys) {
        AuthStep::Done(Ok(c)) => assert_eq!(c.key_id, "yaml-static"),
        _ => panic!("expected the static key"),
    }
    let row = KeyRow { id: "id-7".into(), name: Some("n".into()), tpm_limit: Some(10), rpm_limit: None };
    match auth_after_row("sk-x", Some(row), &keys) {
        AuthStep::Remember { key, ttl_secs, identity } => {
            assert_eq!(key, format!("key:{}", key_hash("sk-x")));
            assert_eq!(ttl_secs, 300);
            assert_eq!(identity.key_id, "id-7");
            assert_eq!(identity.tpm_limit, Some(10));
        },
        _ => panic!("expected the stored identity"),
    }
    assert!(matches!(
        auth_after_row("sk-y", None, &keys),
        AuthStep::Done(Err(ProviderError::UpstreamError { status: 401, .. }))
    ));
}
