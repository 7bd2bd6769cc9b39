//! OpenAI-format request, response and streaming chunk types.

use vstd::prelude::*;

verus! {

/// One chat message.
pub struct Message {
    pub role: String,
    pub content: String,
}

/// An OpenAI-format chat completion request.
///
/// `temperature` holds the IEEE-754 bit pattern of the request's floating
/// point temperature; `extra` holds the remaining top-level fields as
/// (name, JSON text) pairs.
pub struct ChatRequest {
    pub model: String,
    pub messages: Vec<Message>,
    pub temperature: Option<u64>,
    pub max_tokens: Option<u32>,
    pub stream: Option<bool>,
    pub extra: Vec<(String, String)>,
}

/// Token usage of one completion.
#[derive(Clone, Copy, PartialEq, Eq, Debug)]
pub struct Usage {
    pub prompt_tokens: u32,
    pub completion_tokens: u32,
    pub total_tokens: u32,
}

/// One choice of a non-streaming completion.
pub struct Choice {
    pub index: u32,
    pub message: Message,
    pub finish_reason: String,
}

/// An OpenAI-format chat completion response.
pub struct ModelResponse {
    pub id: String,
    pub object: String,
    pub created: u64,
    pub model: String,
    pub choices: Vec<Choice>,
    pub usage: Usage,
}

/// The incremental part of a streaming choice.
pub struct Delta {
    pub role: Option<String>,
    pub content: Option<String>,
}

/// One choice of a streaming chunk.
pub struct ChunkChoice {
    pub index: u32,
    pub delta: Delta,
    pub finish_reason: Option<String>,
}

/// An OpenAI-format streaming chunk; `done` marks the end of the stream.
pub struct OpenAiChunk {
    pub id: Option<String>,
    pub object: String,
    pub created: u64,
    pub model: Option<String>,
    pub choices: Vec<ChunkChoice>,
    pub usage: Option<Usage>,
    pub done: bool,
}

impl Clone for Message {
    fn clone(&self) -> (r: Self)
        ensures
            r == *self,
    {
        Message { role: self.role.clone(), content: self.content.clone() }
    }
}

} // verus!

verus! {

impl Clone for Delta {
    fn clone(&self) -> (r: Self)
        ensures
            r == *self,
    {
        Delta { role: crate::text::clone_opt(&self.role), content: crate::text::clone_opt(&self.content) }
    }
}

impl Clone for ChunkChoice {
    fn clone(&self) -> (r: Self)
        ensures
            r == *self,
    {
        ChunkChoice {
            index: self.index,
            delta: self.delta.clone(),
            finish_reason: crate::text::clone_opt(&self.finish_reason),
        }
    }
}

/// The mathematical value of a streaming chunk.
pub struct ChunkView {
    pub id: Option<String>,
    pub object: String,
    pub created: u64,
    pub model: Option<String>,
    pub choices: Seq<ChunkChoice>,
    pub usage: Option<Usage>,
    pub done: bool,
}

impl View for OpenAiChunk {
    type V = ChunkView;

    open spec fn view(&self) -> ChunkView {
        ChunkView {
            id: self.id,
            object: self.object,
            created: self.created,
            model: self.model,
            choices: self.choices@,
            usage: self.usage,
            done: self.done,
        }
    }
}

/// The mathematical value of a non-streaming response.
pub struct ResponseView {
    pub id: String,
    pub object: String,
    pub created: u64,
    pub model: String,
    pub choices: Seq<Choice>,
    pub usage: Usage,
}

impl View for ModelResponse {
    type V = ResponseView;

    open spec fn view(&self) -> ResponseView {
        ResponseView {
            id: self.id,
            object: self.object,
            created: self.created,
            model: self.model,
            choices: self.choices@,
            usage: self.usage,
        }
    }
}

/// The mathematical value of a chat request.
pub struct RequestView {
    pub model: String,
    pub messages: Seq<Message>,
    pub temperature: Option<u64>,
    pub max_tokens: Option<u32>,
    pub stream: Option<bool>,
    pub extra: Seq<(String, String)>,
}

impl View for ChatRequest {
    type V = RequestView;

    open spec fn view(&self) -> RequestView {
        RequestView {
            model: self.model,
            messages: self.messages@,
            temperature: self.temperature,
            max_tokens: self.max_tokens,
            stream: self.stream,
            extra: self.extra@,
        }
    }
}

impl Clone for OpenAiChunk {
    fn clone(&self) -> (r: Self)
        ensures
            r@ == self@,
    {
        let choices = self.choices.clone();
        assert forall|i: int| 0 <= i < choices.len() implies choices[i] == self.choices[i] by {
            assert(cloned::<ChunkChoice>(self.choices[i], choices[i]));
        }
        assert(choices@ =~= self.choices@);
        OpenAiChunk {
            id: crate::text::clone_opt(&self.id),
            object: self.object.clone(),
            created: self.created,
            model: crate::text::clone_opt(&self.model),
            choices,
            usage: self.usage,
            done: self.done,
        }
    }
}

impl ChatRequest {
    /// A copy of the request that asks for a streamed answer.
    pub fn streaming_copy(&self) -> (r: ChatRequest)
        ensures
            r@ == (RequestView { stream: Some(true), ..self@ }),
    {
        let messages = self.messages.clone();
        assert forall|i: int| 0 <= i < messages.len() implies messages[i] == self.messages[i] by {
            assert(cloned::<Message>(self.messages[i], messages[i]));
        }
        assert(messages@ =~= self.messages@);
        let mut extra: Vec<(String, String)> = Vec::new();
        let mut i: usize = 0;
        while i < self.extra.len()
            invariant
                0 <= i <= self.extra@.len(),
                extra@ == self.extra@.take(i as int),
            decreases self.extra@.len() - i,
        {
            let (k, v) = &self.extra[i];
            extra.push((k.clone(), v.clone()));
            assert(self.extra@.take(i + 1) =~= self.extra@.take(i as int).push(self.extra@[i as int]));
            i = i + 1;
        }
        assert(self.extra@.take(self.extra@.len() as int) =~= self.extra@);
        ChatRequest {
            model: self.model.clone(),
            messages,
            temperature: self.temperature,
            max_tokens: self.max_tokens,
            stream: Some(true),
            extra,
        }
    }
}

impl Usage {
    /// A usage record with every count at zero.
    pub open spec fn zero() -> Usage {
        Usage { prompt_tokens: 0, completion_tokens: 0, total_tokens: 0 }
    }
}

} // verus!
