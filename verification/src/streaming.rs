//! Reassembly of a streamed completion from the chunks seen so far.

use vstd::prelude::*;

use crate::provider::anthropic::{anthropic_chunk_to_openai, anthropic_event_of, is_openai_chunk_for, read_event_data, AnthropicEventData};
use crate::provider::ChunkTransformer;
use crate::sse::{is_event_taken, take_sse_event};
use crate::text::{lossy_text, owned, utf8_lossy, view_or_empty};
use crate::types::{ChatRequest, ChunkView, Choice, Message, ModelResponse, OpenAiChunk, RequestView, ResponseView, Usage};

verus! {

/// The delta content of a chunk's first choice, or nothing.
pub open spec fn first_delta_content(c: ChunkView) -> Seq<char> {
    if c.choices.len() > 0 {
        view_or_empty(c.choices[0].delta.content)
    } else {
        Seq::empty()
    }
}

/// The finish reason of a chunk's first choice, if any.
pub open spec fn first_finish_reason(c: ChunkView) -> Option<String> {
    if c.choices.len() > 0 {
        c.choices[0].finish_reason
    } else {
        None
    }
}

/// The concatenated first-choice contents of a chunk sequence.
pub open spec fn streamed_content(cs: Seq<ChunkView>) -> Seq<char>
    decreases cs.len(),
{
    if cs.len() == 0 {
        Seq::empty()
    } else {
        streamed_content(cs.drop_last()) + first_delta_content(cs.last())
    }
}

/// The last first-choice finish reason present in a chunk sequence.
pub open spec fn last_finish_reason(cs: Seq<ChunkView>) -> Option<String>
    decreases cs.len(),
{
    if cs.len() == 0 {
        None
    } else {
        match first_finish_reason(cs.last()) {
            Some(r) => Some(r),
            None => last_finish_reason(cs.drop_last()),
        }
    }
}

/// The usage of the last chunk in `cs` that carries one, if any.
pub open spec fn last_usage(cs: Seq<ChunkView>) -> Option<Usage>
    decreases cs.len(),
{
    if cs.len() == 0 {
        None
    } else {
        match cs.last().usage {
            Some(u) => Some(u),
            None => last_usage(cs.drop_last()),
        }
    }
}

/// `r` is the complete response assembled from the non-empty chunk sequence `cs`.
pub open spec fn is_assembled_response(cs: Seq<ChunkView>, r: ResponseView) -> bool {
    let last = cs.last();
    &&& r.id@ == view_or_empty(last.id)
    &&& r.object@ == "chat.completion"@
    &&& r.created == last.created
    &&& r.model@ == view_or_empty(last.model)
    &&& r.choices.len() == 1
    &&& r.choices[0].index == 0
    &&& r.choices[0].message.role@ == "assistant"@
    &&& r.choices[0].message.content@ == streamed_content(cs)
    &&& r.choices[0].finish_reason@ == match last_finish_reason(cs) {
        Some(s) => s@,
        None => "stop"@,
    }
    &&& r.usage == match last_usage(cs) {
        Some(u) => u,
        None => Usage::zero(),
    }
}

/// The provider-independent state of a streamed completion: the request it
/// answers, the event conversion in use, the chunks produced so far and the
/// bytes received but not yet framed into an event.
pub struct StreamWrapper {
    request: ChatRequest,
    transformer: ChunkTransformer,
    collected_chunks: Vec<OpenAiChunk>,
    buffer: Vec<u8>,
}

impl StreamWrapper {
    /// The chunks produced so far, in order.
    pub closed spec fn chunks(&self) -> Seq<ChunkView> {
        self.collected_chunks@.map_values(|c: OpenAiChunk| c@)
    }

    /// The received bytes not yet consumed by an event.
    pub closed spec fn pending(&self) -> Seq<u8> {
        self.buffer@
    }

    /// The request this stream answers.
    pub closed spec fn request(&self) -> RequestView {
        self.request@
    }

    /// The event conversion in use.
    pub closed spec fn transformer(&self) -> ChunkTransformer {
        self.transformer
    }

    /// A stream state with no chunk and no pending byte.
    pub fn new(request: ChatRequest, transformer: ChunkTransformer) -> (w: Self)
        ensures
            w.chunks() == Seq::<ChunkView>::empty(),
            w.pending() == Seq::<u8>::empty(),
            w.request() == request@,
            w.transformer() == transformer,
    {
        let w = StreamWrapper { request, transformer, collected_chunks: Vec::new(), buffer: Vec::new() };
        assert(w.chunks() =~= Seq::<ChunkView>::empty());
        w
    }

    /// The complete response assembled from the chunks seen so far, or
    /// `None` before the first chunk.
    pub fn build_full_response(&self) -> (r: Option<ModelResponse>)
        ensures
            r is None <==> self.chunks().len() == 0,
            r matches Some(resp) ==> is_assembled_response(self.chunks(), resp@),
    {
        let n = self.collected_chunks.len();
        if n == 0 {
            return None;
        }
        let ghost cs = self.chunks();
        let mut content = String::new();
        let mut finish: Option<String> = None;
        let mut usage_seen: Option<Usage> = None;
        let mut i: usize = 0;
        while i < n
            invariant
                n == self.collected_chunks.len(),
                cs == self.chunks(),
                cs.len() == n,
                0 <= i <= n,
                content@ == streamed_content(cs.take(i as int)),
                finish == last_finish_reason(cs.take(i as int)),
                usage_seen == last_usage(cs.take(i as int)),
            decreases n - i,
        {
            let c = &self.collected_chunks[i];
            assert(cs[i as int] == c@);
            assert(cs.take(i + 1).drop_last() =~= cs.take(i as int));
            if c.choices.len() > 0 {
                let cc = &c.choices[0];
                match &cc.delta.content {
                    Some(t) => {
                        content.append(t.as_str());
                    },
                    None => {},
                }
                match &cc.finish_reason {
                    Some(fr) => {
                        finish = Some(fr.clone());
                    },
                    None => {},
                }
            }
            match c.usage {
                Some(u) => {
                    usage_seen = Some(u);
                },
                None => {},
            }
            assert(cs.take(i + 1).last() == cs[i as int]);
            i = i + 1;
        }
        assert(cs.take(n as int) =~= cs);
        let last = &self.collected_chunks[n - 1];
        assert(cs.last() == last@);
        let finish_reason = match finish {
            Some(f) => f,
            None => owned("stop"),
        };
        let id = match &last.id {
            Some(s) => s.clone(),
            None => String::new(),
        };
        let model = match &last.model {
            Some(s) => s.clone(),
            None => String::new(),
        };
        let usage = match usage_seen {
            Some(u) => u,
            None => Usage { prompt_tokens: 0, completion_tokens: 0, total_tokens: 0 },
        };
        let mut choices = Vec::new();
        choices.push(Choice {
            index: 0,
            message: Message { role: owned("assistant"), content },
            finish_reason,
        });
        Some(ModelResponse { id, object: owned("chat.completion"), created: last.created, model, choices, usage })
    }
}

impl StreamWrapper {
    /// Appends bytes received from upstream and removes the first complete
    /// event, as `take_sse_event` does on the whole pending buffer.
    pub fn push_bytes(&mut self, bytes: &[u8]) -> (r: Option<(Vec<u8>, Vec<u8>)>)
        ensures
            final(self).chunks() == old(self).chunks(),
            final(self).request() == old(self).request(),
            final(self).transformer() == old(self).transformer(),
            is_event_taken(old(self).pending() + bytes@, final(self).pending(), r),
    {
        let ghost b = self.buffer@ + bytes@;
        let mut i: usize = 0;
        while i < bytes.len()
            invariant
                0 <= i <= bytes@.len(),
                self.buffer@ == old(self).buffer@ + bytes@.take(i as int),
                self.collected_chunks == old(self).collected_chunks,
                self.request == old(self).request,
                self.transformer == old(self).transformer,
            decreases bytes@.len() - i,
        {
            self.buffer.push(bytes[i]);
            assert(bytes@.take(i + 1) =~= bytes@.take(i as int).push(bytes@[i as int]));
            i = i + 1;
        }
        assert(bytes@.take(bytes@.len() as int) =~= bytes@);
        assert(self.buffer@ == b);
        let r = take_sse_event(&mut self.buffer);
        assert(self.chunks() == old(self).chunks());
        r
    }

    /// Converts one framed event, received at `now` (seconds since the Unix
    /// epoch), into a chunk, records it and returns it.
    pub fn record_event(&mut self, event_type: &str, data: &AnthropicEventData, now: u64) -> (c: OpenAiChunk)
        ensures
            is_openai_chunk_for(event_type@, *data, now, c@),
            final(self).chunks() == old(self).chunks().push(c@),
            final(self).pending() == old(self).pending(),
            final(self).request() == old(self).request(),
            final(self).transformer() == old(self).transformer(),
    {
        let c = match self.transformer {
            ChunkTransformer::AnthropicToOpenAi => anthropic_chunk_to_openai(event_type, data, now),
        };
        self.collected_chunks.push(c.clone());
        assert(self.chunks() =~= old(self).chunks().push(c@));
        c
    }

    /// Converts an event handed out by [`Self::push_bytes`], with name bytes
    /// `event` and payload bytes `payload`, received at `now` (seconds since
    /// the Unix epoch): the name is read as UTF-8 (invalid sequences
    /// replaced) and the payload's fields are read; the chunk is recorded
    /// and returned. A payload that is not JSON gives `None` and records
    /// nothing.
    pub fn record_payload(&mut self, event: &[u8], payload: &[u8], now: u64) -> (r: Option<OpenAiChunk>)
        ensures
            final(self).pending() == old(self).pending(),
            final(self).request() == old(self).request(),
            final(self).transformer() == old(self).transformer(),
            match anthropic_event_of(payload@) {
                None => r is None && final(self).chunks() == old(self).chunks(),
                Some(d) => r matches Some(c) && is_openai_chunk_for(utf8_lossy(event@), d, now, c@)
                    && final(self).chunks() == old(self).chunks().push(c@),
            },
    {
        match read_event_data(payload) {
            Some(d) => {
                let name = lossy_text(event);
                Some(self.record_event(name.as_str(), &d, now))
            },
            None => None,
        }
    }
}

} // verus!
