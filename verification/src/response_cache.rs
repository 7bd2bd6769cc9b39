//! Cache of whole responses to identical prompts.
//!
//! A request's key digests its model, its messages, its temperature and
//! its token limit; the response is kept, serialized, for five minutes.

use vstd::prelude::*;

use crate::cache::{after_write, after_writes, expiry_after, lemma_read_back_after_writes, lookup, writes_value, CacheWrite, DualCache};
use crate::digest::{hex_encode, hex_of, sha256, sha256_of};
use crate::text::{append_bytes, concat};
use crate::types::{ChatRequest, Message};
use vstd::bytes::{spec_u32_to_le_bytes, spec_u64_to_le_bytes, u32_to_le_bytes, u64_to_le_bytes};
use vstd::utf8::encode_utf8;

verus! {

/// How long a cached response is kept, in seconds.
pub const RESPONSE_TTL_SECS: u64 = 300;

/// The bytes digested for a list of messages: each role, then its
/// content, in order.
pub open spec fn messages_material(ms: Seq<Message>) -> Seq<u8>
    decreases ms.len(),
{
    if ms.len() == 0 {
        Seq::empty()
    } else {
        messages_material(ms.drop_last()) + encode_utf8(ms.last().role@) + encode_utf8(ms.last().content@)
    }
}

/// The bytes digested for a request: its model, its messages, then its
/// temperature (eight little-endian bytes of its bits) and its token limit
/// (four little-endian bytes), each when present.
pub open spec fn key_material(r: ChatRequest) -> Seq<u8> {
    encode_utf8(r.model@) + messages_material(r.messages@) + match r.temperature {
        Some(t) => spec_u64_to_le_bytes(t),
        None => Seq::empty(),
    } + match r.max_tokens {
        Some(m) => spec_u32_to_le_bytes(m),
        None => Seq::empty(),
    }
}

/// The cache key of a request: `response:` and the hexadecimal SHA-256 of
/// its key material.
pub open spec fn response_key(r: ChatRequest) -> Seq<char> {
    "response:"@ + hex_of(sha256_of(key_material(r)))
}

/// Caches responses by request.
pub struct ResponseCache;

impl ResponseCache {
    /// A response cache; its entries live in the cache handed to each call.
    pub fn new() -> Self {
        ResponseCache
    }

    /// The key material of a request.
    fn key_material_of(request: &ChatRequest) -> (r: Vec<u8>)
        ensures
            r@ == key_material(*request),
    {
        let mut m: Vec<u8> = Vec::new();
        append_bytes(&mut m, request.model.as_str().as_bytes());
        let mut i: usize = 0;
        while i < request.messages.len()
            invariant
                0 <= i <= request.messages@.len(),
                m@ == encode_utf8(request.model@) + messages_material(request.messages@.take(i as int)),
            decreases request.messages@.len() - i,
        {
            let msg = &request.messages[i];
            append_bytes(&mut m, msg.role.as_str().as_bytes());
            append_bytes(&mut m, msg.content.as_str().as_bytes());
            proof {
                let t = request.messages@.take(i + 1);
                assert(t.drop_last() =~= request.messages@.take(i as int));
                assert(m@ =~= encode_utf8(request.model@) + messages_material(t));
            }
            i = i + 1;
        }
        assert(request.messages@.take(request.messages@.len() as int) =~= request.messages@);
        match request.temperature {
            Some(t) => {
                let b = u64_to_le_bytes(t);
                append_bytes(&mut m, b.as_slice());
            },
            None => {},
        }
        match request.max_tokens {
            Some(mt) => {
                let b = u32_to_le_bytes(mt);
                append_bytes(&mut m, b.as_slice());
            },
            None => {},
        }
        assert(m@ =~= key_material(*request));
        m
    }

    /// The cache key of a request.
    pub fn cache_key(request: &ChatRequest) -> (r: String)
        ensures
            r@ == response_key(*request),
            r@.len() == 73,
    {
        let material = Self::key_material_of(request);
        let digest = sha256(material.as_slice());
        let h = hex_encode(digest.as_slice());
        proof {
            crate::digest::lemma_hex_of_index(digest@);
            reveal_strlit("response:");
        }
        concat("response:", h.as_str())
    }

    /// The serialized response cached for `request`, if any.
    pub fn get(&self, request: &ChatRequest, cache: &mut DualCache) -> (r: Option<String>)
        requires
            old(cache).wf(),
        ensures
            final(cache).wf(),
            final(cache).values() == old(cache).values(),
            final(cache).counters() == old(cache).counters(),
            final(cache).lists() == old(cache).lists(),
            crate::text::opt_view(r) == lookup(old(cache).values(), old(cache).counters(), response_key(*request)),
    {
        let key = Self::cache_key(request);
        cache.get(key.as_str())
    }

    /// Caches the serialized response for `request` for five minutes.
    pub fn set(&self, request: &ChatRequest, serialized: &str, cache: &mut DualCache)
        requires
            old(cache).wf(),
        ensures
            final(cache).wf(),
            final(cache).values() == old(cache).values().insert(response_key(*request), serialized@),
            final(cache).counters() == old(cache).counters(),
            final(cache).lists() == old(cache).lists(),
            final(cache).state() == after_write(
                old(cache).state(),
                CacheWrite::Store { key: response_key(*request), value: serialized@ },
            ),
            exists|now: u64|
                final(cache).front_copies().dom().contains(response_key(*request))
                    && final(cache).front_copies()[response_key(*request)] == (
                    serialized@,
                    #[trigger] expiry_after(now, RESPONSE_TTL_SECS),
                ),
    {
        let key = Self::cache_key(request);
        cache.set(key.as_str(), serialized, RESPONSE_TTL_SECS);
    }
}

/// Requests with the same model, messages, temperature and token limit
/// share one cache entry, whatever else they carry (such as the stream
/// flag).
pub proof fn lemma_same_prompt_same_key(a: ChatRequest, b: ChatRequest)
    requires
        a.model@ == b.model@,
        a.messages@ == b.messages@,
        a.temperature == b.temperature,
        a.max_tokens == b.max_tokens,
    ensures
        response_key(a) == response_key(b),
{
}

/// A response cached for a request is what a later lookup for the same
/// prompt finds.
pub proof fn lemma_cached_response_found(
    values: Map<Seq<char>, Seq<char>>,
    counters: Map<Seq<char>, u32>,
    request: ChatRequest,
    serialized: Seq<char>,
)
    ensures
        lookup(values.insert(response_key(request), serialized), counters, response_key(request)) == Some(serialized),
{
}

/// A response cached for a request is what a later lookup for any request
/// with the same prompt finds, for as long as no later write stores or
/// deletes a value under the same cache key, whatever else is written to
/// the cache meanwhile.
pub proof fn lemma_cached_response_kept(
    s: (Map<Seq<char>, Seq<char>>, Map<Seq<char>, u32>),
    request: ChatRequest,
    serialized: Seq<char>,
    later: Seq<CacheWrite>,
    again: ChatRequest,
)
    requires
        forall|i: int| 0 <= i < later.len() ==> !writes_value(#[trigger] later[i], response_key(request)),
        again.model@ == request.model@,
        again.messages@ == request.messages@,
        again.temperature == request.temperature,
        again.max_tokens == request.max_tokens,
    ensures
        ({
            let t = after_writes(s, seq![CacheWrite::Store { key: response_key(request), value: serialized }] + later);
            lookup(t.0, t.1, response_key(again)) == Some(serialized)
        }),
{
    lemma_same_prompt_same_key(again, request);
    lemma_read_back_after_writes(s, response_key(request), serialized, later);
}

proof fn lemma_messages_material_split(a: Seq<Message>, b: Seq<Message>)
    requires
        a.len() == b.len(),
        a.len() > 0,
        forall|i: int| 0 <= i < a.len() - 1 ==> a[i].role@ == b[i].role@ && a[i].content@ == b[i].content@,
        a.last().role@ == b.last().role@,
    ensures
        messages_material(a.drop_last()) == messages_material(b.drop_last()),
{
    lemma_messages_material_equal(a.drop_last(), b.drop_last());
}

proof fn lemma_messages_material_equal(a: Seq<Message>, b: Seq<Message>)
    requires
        a.len() == b.len(),
        forall|i: int| 0 <= i < a.len() ==> a[i].role@ == b[i].role@ && a[i].content@ == b[i].content@,
    ensures
        messages_material(a) == messages_material(b),
    decreases a.len(),
{
    if a.len() > 0 {
        lemma_messages_material_equal(a.drop_last(), b.drop_last());
    }
}

/// A message's content is part of what a request is cached under: two
/// requests alike in model, temperature, token limit, roles and all
/// earlier messages, whose last messages differ in content, have different
/// key material (and so answer from different cache entries unless their
/// SHA-256 digests collide).
pub proof fn lemma_content_distinguishes_requests(a: ChatRequest, b: ChatRequest)
    requires
        a.model@ == b.model@,
        a.temperature == b.temperature,
        a.max_tokens == b.max_tokens,
        a.messages@.len() == b.messages@.len(),
        a.messages@.len() > 0,
        forall|i: int|
            0 <= i < a.messages@.len() - 1 ==> a.messages@[i].role@ == b.messages@[i].role@
                && a.messages@[i].content@ == b.messages@[i].content@,
        a.messages@.last().role@ == b.messages@.last().role@,
        a.messages@.last().content@ != b.messages@.last().content@,
    ensures
        key_material(a) != key_material(b),
{
    let ma = a.messages@;
    let mb = b.messages@;
    lemma_messages_material_split(ma, mb);
    let p = encode_utf8(a.model@) + messages_material(ma.drop_last()) + encode_utf8(ma.last().role@);
    let ca = encode_utf8(ma.last().content@);
    let cb = encode_utf8(mb.last().content@);
    let tail = match a.temperature {
        Some(t) => spec_u64_to_le_bytes(t),
        None => Seq::empty(),
    } + match a.max_tokens {
        Some(m) => spec_u32_to_le_bytes(m),
        None => Seq::empty(),
    };
    assert(key_material(a) =~= p + ca + tail);
    assert(key_material(b) =~= p + cb + tail);
    if key_material(a) == key_material(b) {
        assert(ca.len() == cb.len());
        assert(ca =~= (p + ca + tail).subrange(p.len() as int, (p.len() + ca.len()) as int));
        assert(cb =~= (p + cb + tail).subrange(p.len() as int, (p.len() + cb.len()) as int));
        vstd::utf8::encode_utf8_decode_utf8(ma.last().content@);
        vstd::utf8::encode_utf8_decode_utf8(mb.last().content@);
    }
}

} // verus!
