//! Spend accounting: one queue line per call, appended to the list
//! `spend_queue` of the shared cache for a batch writer to store.
//!
//! The library fills every field of a line but its cost, which is priced
//! (in floating point) and serialized where the line is written.

use vstd::prelude::*;

use super::AuthContext;
use crate::cache::{list_or_empty, DualCache};
use crate::text::owned;
use crate::types::{ChatRequest, ModelResponse};

verus! {

/// The key of the list that queues spend records.
pub open spec fn spend_queue() -> Seq<char> {
    "spend_queue"@
}

/// A spend record, before pricing.
pub struct SpendEntry {
    pub key_id: String,
    pub request_id: String,
    pub model: String,
    pub provider: String,
    pub prompt_tokens: u32,
    pub completion_tokens: u32,
    pub duration_ms: Option<u64>,
    /// `success` or `error`.
    pub status: String,
}

/// Records the spend of each call.
pub struct CostTracker;

impl CostTracker {
    /// A tracker; its queue lives in the cache handed to each call.
    pub fn new() -> Self {
        CostTracker
    }

    /// The record of a successful call: the key, the response id, the
    /// requested model and the token counts of the response.
    pub fn success_entry(&self, request: &ChatRequest, response: &ModelResponse, auth: &AuthContext) -> (e: SpendEntry)
        ensures
            e.key_id@ == auth.key_id@,
            e.request_id@ == response.id@,
            e.model@ == request.model@,
            e.provider@ == Seq::<char>::empty(),
            e.prompt_tokens == response.usage.prompt_tokens,
            e.completion_tokens == response.usage.completion_tokens,
            e.duration_ms is None,
            e.status@ == "success"@,
    {
        SpendEntry {
            key_id: owned(auth.key_id.as_str()),
            request_id: owned(response.id.as_str()),
            model: owned(request.model.as_str()),
            provider: String::new(),
            prompt_tokens: response.usage.prompt_tokens,
            completion_tokens: response.usage.completion_tokens,
            duration_ms: None,
            status: owned("success"),
        }
    }

    /// The record of a failed call: the key and the requested model, with
    /// no tokens.
    pub fn error_entry(&self, request: &ChatRequest, auth: &AuthContext) -> (e: SpendEntry)
        ensures
            e.key_id@ == auth.key_id@,
            e.request_id@ == Seq::<char>::empty(),
            e.model@ == request.model@,
            e.provider@ == Seq::<char>::empty(),
            e.prompt_tokens == 0,
            e.completion_tokens == 0,
            e.duration_ms is None,
            e.status@ == "error"@,
    {
        SpendEntry {
            key_id: owned(auth.key_id.as_str()),
            request_id: String::new(),
            model: owned(request.model.as_str()),
            provider: String::new(),
            prompt_tokens: 0,
            completion_tokens: 0,
            duration_ms: None,
            status: owned("error"),
        }
    }

    /// The key of the list that queues spend records for the database.
    pub fn queue_key(&self) -> (r: String)
        ensures
            r@ == spend_queue(),
    {
        owned("spend_queue")
    }

    /// Appends a serialized record to the spend queue.
    pub fn enqueue(&self, cache: &mut DualCache, line: &str)
        requires
            old(cache).wf(),
        ensures
            final(cache).wf(),
            final(cache).lists() == old(cache).lists().insert(
                spend_queue(),
                list_or_empty(old(cache).lists(), spend_queue()).push(line@),
            ),
            final(cache).values() == old(cache).values(),
            final(cache).counters() == old(cache).counters(),
    {
        let key = self.queue_key();
        cache.rpush(key.as_str(), line);
    }
}

} // verus!
