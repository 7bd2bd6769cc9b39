use tokencamp::cache::{CacheLayer, DualCache, FrontLayer};
use tokencamp::response_cache::ResponseCache;
use tokencamp::types::{ChatRequest, Message};

#[test]
fn read_after_write() {
    let mut c = DualCache::new_in_memory(2);
    c.set("k", "v", 60);
    assert_eq!(c.get("k").as_deref(), Some("v"));
    c.set("k", "w", 60);
    assert_eq!(c.get("k").as_deref(), Some("w"));
    assert_eq!(c.get("other"), None);
}

#[test]
fn values_survive_front_eviction() {
    let mut c = DualCache::new_in_memory(1);
    c.set("a", "1", 60);
    c.set("b", "2", 60);
    c.set("c", "3", 60);
    assert_eq!(c.get("a").as_deref(), Some("1"));
    assert_eq!(c.get("b").as_deref(), Some("2"));
    assert_eq!(c.get("c").as_deref(), Some("3"));
}

#[test]
fn expired_front_entry_falls_back_to_store() {
    let mut c = DualCache::new_in_memory(4);
    c.set("k", "v", 0);
    assert_eq!(c.get("k").as_deref(), Some("v"));
}

#[test]
fn delete_removes_value() {
    let mut c = DualCache::new_in_memory(4);
    c.set("k", "v", 60);
    c.del("k");
    assert_eq!(c.get("k"), None);
}

#[test]
fn counters_count_and_read_as_decimal() {
    let mut c = DualCache::new_in_memory(4);
    assert_eq!(c.incr("n"), Ok(1));
    assert_eq!(c.incr("n"), Ok(2));
    assert_eq!(c.incr("n"), Ok(3));
    assert_eq!(c.get("n").as_deref(), Some("3"));
    c.expire("n", 60);
    assert_eq!(c.get("n").as_deref(), Some("3"));
}

#[test]
fn stored_value_shadows_counter() {
    let mut c = DualCache::new_in_memory(4);
    let _ = c.incr("k");
    c.set("k", "text", 60);
    assert_eq!(c.get("k").as_deref(), Some("text"));
    c.del("k");
    assert_eq!(c.get("k").as_deref(), Some("1"));
}

#[test]
fn lists_append_in_order() {
    let mut c = DualCache::new_in_memory(4);
    c.rpush("q", "a");
    c.rpush("q", "b");
    assert_eq!(c.get("q"), None);
}

#[test]
fn front_layer_expiry_and_eviction() {
    let mut f = FrontLayer::new(1);
    f.remember_at("a", "1", 10, 1_000);
    assert_eq!(f.lookup_at("a", 5_000).as_deref(), Some("1"));
    assert_eq!(f.lookup_at("a", 11_000), None);
    assert_eq!(f.lookup_at("a", 5_000), None);
    f.remember_at("a", "1", 10, 0);
    f.remember_at("b", "2", 10, 0);
    assert_eq!(f.lookup_at("a", 0), None);
    assert_eq!(f.lookup_at("b", 0).as_deref(), Some("2"));
    f.forget("b");
    assert_eq!(f.lookup_at("b", 0), None);
}

#[test]
fn fetched_values_held_for_a_minute() {
    let mut f = FrontLayer::new(4);
    f.remember_fetched_at("k", "v", 1_000);
    assert_eq!(f.lookup_at("k", 60_999).as_deref(), Some("v"));
    assert_eq!(f.lookup_at("k", 61_000), None);
}

fn request(stream: Option<bool>) -> ChatRequest {
    ChatRequest {
        model: "gpt".into(),
        messages: vec![Message { role: "user".into(), content: "hi".into() }],
        temperature: Some(0.5f64.to_bits()),
        max_tokens: Some(10),
        stream,
        extra: vec![],
    }
}

#[test]
fn response_cache_key_is_sha256_of_prompt() {
    let key = ResponseCache::cache_key(&request(None));
    assert!(key.starts_with("response:"));
    assert_eq!(key.len(), "response:".len() + 64);
    assert_eq!(key, ResponseCache::cache_key(&request(Some(true))));
    let mut other = request(None);
    other.max_tokens = Some(11);
    assert_ne!(key, ResponseCache::cache_key(&other));
}

#[test]
fn response_cache_key_of_bare_model() {
    let r = ChatRequest { model: "abc".into(), messages: vec![], temperature: None, max_tokens: None, stream: None, extra: vec![] };
    assert_eq!(
        ResponseCache::cache_key(&r),
        "response:ba7816bf8f01cfea414140de5dae2223b00361a396177a9cb410ff61f20015ad"
    );
}

#[test]
fn response_cache_round_trip() {
    let mut c = DualCache::new_in_memory(8);
    let rc = ResponseCache::new();
    assert_eq!(rc.get(&request(None), &mut c), None);
    rc.set(&request(None), "{\"id\":\"x\"}", &mut c);
    assert_eq!(rc.get(&request(Some(false)), &mut c).as_deref(), Some("{\"id\":\"x\"}"));
}

fn write_then_read<C: CacheLayer>(c: &mut C) -> (Option<String>, Result<u32, String>) {
    c.set("k", "v", 60);
    c.rpush("l", "x");
    c.expire("k", 5);
    let n = c.incr("n");
    let v = c.get("k");
    c.del("k");
    (v, n)
}

#[test]
fn cache_layer_operations() {
    let mut c = DualCache::new_in_memory(4);
    let (v, n) = write_then_read(&mut c);
    assert_eq!(v.as_deref(), Some("v"));
    assert_eq!(n, Ok(1));
    assert_eq!(CacheLayer::get(&mut c, "k"), None);
}
