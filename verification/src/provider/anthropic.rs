//! The Anthropic adapter: OpenAI chat requests to the Messages API and back,
//! and Messages streaming events to OpenAI chunks.

use vstd::prelude::*;

use super::{ChunkTransformer, HttpMethod, ProviderError, ProviderRequest, RequestBody};
use crate::text::{is_header_text, is_valid_header_value, owned, str_eq, unwrap_or_str, view_or};
use crate::types::{ChatRequest, Choice, ChunkChoice, Delta, Message, ModelResponse, OpenAiChunk, Usage};

verus! {

/// Whether the adapter converts chat completions or passes Messages
/// requests through unchanged.
#[derive(PartialEq, Eq, Structural, Clone, Copy, Debug)]
pub enum AnthropicMode {
    Chat,
    Messages,
}

/// Configuration of one Anthropic deployment.
pub struct AnthropicConfig {
    mode: AnthropicMode,
    base_url: String,
    litellm_model: String,
}

/// The Messages API request built from a chat request.
///
/// `system` holds the system messages, present only when there is one;
/// `messages` holds the other messages; `stream` is set only for a request
/// that asked for streaming.
pub struct AnthropicRequestBody {
    pub model: String,
    pub max_tokens: u32,
    pub system: Option<Vec<Message>>,
    pub messages: Vec<Message>,
    pub temperature: Option<u64>,
    pub stream: bool,
}

/// The fields of a Messages API response body that the adapter reads.
///
/// Each is `None` where the body has no such field or it has another JSON
/// type: `error.message`, `id`, `model`, `content[0].text`, `stop_reason`,
/// `usage.input_tokens` and `usage.output_tokens`.
pub struct AnthropicResponseBody {
    pub error_message: Option<String>,
    pub id: Option<String>,
    pub model: Option<String>,
    pub first_text: Option<String>,
    pub stop_reason: Option<String>,
    pub input_tokens: Option<u64>,
    pub output_tokens: Option<u64>,
}

/// The `usage` object of a streaming event.
#[derive(Clone, Copy)]
pub struct EventUsage {
    pub input_tokens: Option<u64>,
    pub output_tokens: Option<u64>,
}

/// The fields of a streaming event's data that the adapter reads: each is
/// `None` where absent or of another JSON type: `message.id`,
/// `message.model`, `index`, `delta.text`, `delta.stop_reason`, and `usage`
/// when it is an object.
pub struct AnthropicEventData {
    pub message_id: Option<String>,
    pub message_model: Option<String>,
    pub index: Option<u64>,
    pub delta_text: Option<String>,
    pub stop_reason: Option<String>,
    pub usage: Option<EventUsage>,
}

/// The Anthropic API origin used when a deployment names none.
pub open spec fn default_anthropic_url() -> Seq<char> {
    "https://api.anthropic.com"@
}

/// A system message.
pub open spec fn is_system(m: Message) -> bool {
    m.role@ == "system"@
}

/// The system messages of `ms`, in order.
pub open spec fn system_messages(ms: Seq<Message>) -> Seq<Message> {
    ms.filter(|m: Message| is_system(m))
}

/// The other messages of `ms`, in order.
pub open spec fn conversation_messages(ms: Seq<Message>) -> Seq<Message> {
    ms.filter(|m: Message| !is_system(m))
}

/// `b` is the Messages API body for the chat request `r` sent to `model`.
pub open spec fn is_anthropic_body(r: crate::types::RequestView, model: Seq<char>, b: AnthropicRequestBody) -> bool {
    &&& b.model@ == model
    &&& b.max_tokens == match r.max_tokens {
        Some(t) => t,
        None => 1024u32,
    }
    &&& (system_messages(r.messages).len() == 0 <==> b.system is None)
    &&& (b.system matches Some(s) ==> s@ == system_messages(r.messages))
    &&& b.messages@ == conversation_messages(r.messages)
    &&& b.temperature == r.temperature
    &&& b.stream == (r.stream == Some(true))
}

/// Converts a chat request into a Messages API body for `model`.
pub fn convert_chat_to_anthropic(request: &ChatRequest, model: &str) -> (b: AnthropicRequestBody)
    ensures
        is_anthropic_body(request@, model@, b),
{
    let ghost ms = request.messages@;
    let mut system: Vec<Message> = Vec::new();
    let mut messages: Vec<Message> = Vec::new();
    let mut i: usize = 0;
    let sys = owned("system");
    while i < request.messages.len()
        invariant
            ms == request.messages@,
            sys@ == "system"@,
            0 <= i <= ms.len(),
            system@ == system_messages(ms.take(i as int)),
            messages@ == conversation_messages(ms.take(i as int)),
        decreases ms.len() - i,
    {
        let m = &request.messages[i];
        proof {
            reveal_with_fuel(Seq::<_>::filter, 1);
            assert(ms.take(i + 1).drop_last() =~= ms.take(i as int));
            assert(ms.take(i + 1).last() == ms[i as int]);
        }
        if m.role == sys {
            system.push(m.clone());
        } else {
            messages.push(m.clone());
        }
        i = i + 1;
    }
    assert(ms.take(ms.len() as int) =~= ms);
    let max_tokens = match request.max_tokens {
        Some(t) => t,
        None => 1024,
    };
    let stream = match request.stream {
        Some(true) => true,
        _ => false,
    };
    let system = if system.len() == 0 { None } else { Some(system) };
    AnthropicRequestBody { model: owned(model), max_tokens, system, messages, temperature: request.temperature, stream }
}

/// `c` is the OpenAI chunk for the Anthropic event `event_type` with data `d`
/// received at `now` (seconds since the Unix epoch).
pub open spec fn is_openai_chunk_for(event_type: Seq<char>, d: AnthropicEventData, now: u64, c: crate::types::ChunkView) -> bool {
    &&& c.object@ == "chat.completion.chunk"@
    &&& c.created == now
    &&& if event_type == "message_start"@ {
        &&& c.id == d.message_id
        &&& c.model == d.message_model
        &&& c.choices.len() == 1
        &&& c.choices[0].index == 0
        &&& c.choices[0].delta.role matches Some(role) && role@ == "assistant"@
        &&& c.choices[0].delta.content is None
        &&& c.choices[0].finish_reason is None
        &&& c.usage is None
        &&& !c.done
    } else if event_type == "content_block_delta"@ {
        &&& c.id is None
        &&& c.model is None
        &&& c.choices.len() == 1
        &&& c.choices[0].index == (match d.index {
            Some(x) => x,
            None => 0u64,
        }) as u32
        &&& c.choices[0].delta.role is None
        &&& c.choices[0].delta.content matches Some(t) && t@ == view_or(d.delta_text, Seq::empty())
        &&& c.choices[0].finish_reason is None
        &&& c.usage is None
        &&& !c.done
    } else if event_type == "message_delta"@ {
        &&& c.id is None
        &&& c.model is None
        &&& c.choices.len() == 1
        &&& c.choices[0].index == 0
        &&& c.choices[0].delta.role is None
        &&& c.choices[0].delta.content is None
        &&& c.choices[0].finish_reason == d.stop_reason
        &&& c.usage == match d.usage {
            Some(u) => Some(
                Usage {
                    prompt_tokens: (match u.input_tokens {
                        Some(x) => x,
                        None => 0u64,
                    }) as u32,
                    completion_tokens: (match u.output_tokens {
                        Some(x) => x,
                        None => 0u64,
                    }) as u32,
                    total_tokens: 0,
                },
            ),
            None => None,
        }
        &&& !c.done
    } else {
        &&& c.id is None
        &&& c.model is None
        &&& c.choices.len() == 0
        &&& c.usage is None
        &&& c.done == (event_type == "message_stop"@)
    }
}

fn chunk(id: Option<String>, model: Option<String>, choices: Vec<ChunkChoice>, usage: Option<Usage>, done: bool, now: u64) -> (c: OpenAiChunk)
    ensures
        c.id == id,
        c.model == model,
        c.choices == choices,
        c.usage == usage,
        c.done == done,
        c.created == now,
        c.object@ == "chat.completion.chunk"@,
{
    OpenAiChunk { id, object: owned("chat.completion.chunk"), created: now, model, choices, usage, done }
}

/// Converts one Anthropic streaming event, received at `now` (seconds since
/// the Unix epoch), into an OpenAI streaming chunk.
pub fn anthropic_chunk_to_openai(event_type: &str, data: &AnthropicEventData, now: u64) -> (c: OpenAiChunk)
    ensures
        is_openai_chunk_for(event_type@, *data, now, c@),
{
    if str_eq(event_type, "message_start") {
        let mut choices = Vec::new();
        choices.push(ChunkChoice { index: 0, delta: Delta { role: Some(owned("assistant")), content: None }, finish_reason: None });
        chunk(crate::text::clone_opt(&data.message_id), crate::text::clone_opt(&data.message_model), choices, None, false, now)
    } else if str_eq(event_type, "content_block_delta") {
        proof {
            reveal_strlit("");
            assert(""@ =~= Seq::<char>::empty());
        }
        let text = unwrap_or_str(&data.delta_text, "");
        let index = match data.index {
            Some(x) => x,
            None => 0,
        };
        let mut choices = Vec::new();
        choices.push(ChunkChoice { index: index as u32, delta: Delta { role: None, content: Some(text) }, finish_reason: None });
        chunk(None, None, choices, None, false, now)
    } else if str_eq(event_type, "message_delta") {
        let usage = match data.usage {
            Some(u) => {
                let p = match u.input_tokens {
                    Some(x) => x,
                    None => 0,
                };
                let q = match u.output_tokens {
                    Some(x) => x,
                    None => 0,
                };
                Some(Usage { prompt_tokens: p as u32, completion_tokens: q as u32, total_tokens: 0 })
            },
            None => None,
        };
        let mut choices = Vec::new();
        choices.push(ChunkChoice {
            index: 0,
            delta: Delta { role: None, content: None },
            finish_reason: crate::text::clone_opt(&data.stop_reason),
        });
        chunk(None, None, choices, usage, false, now)
    } else {
        let done = str_eq(event_type, "message_stop");
        chunk(None, None, Vec::new(), None, done, now)
    }
}

/// The token counts of a body, each read as `u32`.
pub open spec fn token_counts(body: AnthropicResponseBody) -> (u32, u32) {
    (
        (match body.input_tokens {
            Some(x) => x,
            None => 0u64,
        }) as u32,
        (match body.output_tokens {
            Some(x) => x,
            None => 0u64,
        }) as u32,
    )
}

/// The two token counts of a body add up within `u32`.
pub open spec fn tokens_fit(body: AnthropicResponseBody) -> bool {
    token_counts(body).0 + token_counts(body).1 <= u32::MAX
}

/// `r` is the chat answer for an upstream answer with HTTP `status` and
/// body fields `body`, received at `now` (seconds since the Unix epoch): an
/// upstream error carrying the status and the body's `error.message` (or
/// `"unknown error"`) unless the status is a success, else the completion
/// built from the body's fields.
pub open spec fn is_chat_response(
    status: u16,
    body: AnthropicResponseBody,
    now: u64,
    r: Result<ModelResponse, ProviderError>,
) -> bool {
    &&& !super::is_success(status) ==> (r matches Err(ProviderError::UpstreamError { status: s, message: m }) && s
        == status && m@ == view_or(body.error_message, "unknown error"@))
    &&& super::is_success(status) ==> (r matches Ok(resp) && {
        let p = token_counts(body).0;
        let q = token_counts(body).1;
        &&& resp.id@ == view_or(body.id, Seq::empty())
        &&& resp.object@ == "chat.completion"@
        &&& resp.created == now
        &&& resp.model@ == view_or(body.model, Seq::empty())
        &&& resp.choices@.len() == 1
        &&& resp.choices@[0].index == 0
        &&& resp.choices@[0].message.role@ == "assistant"@
        &&& resp.choices@[0].message.content@ == view_or(body.first_text, Seq::empty())
        &&& resp.choices@[0].finish_reason@ == view_or(body.stop_reason, "stop"@)
        &&& resp.usage == Usage { prompt_tokens: p, completion_tokens: q, total_tokens: (p + q) as u32 }
    })
}

/// The fields a Messages API response body holds, or `None` when the body
/// is not JSON.
pub uninterp spec fn anthropic_body_of(body: Seq<u8>) -> Option<AnthropicResponseBody>;

/// Reads a Messages API response body (`serde_json::from_slice` into a
/// `serde_json::Value`, then indexing each field; a field that is absent
/// or of another JSON type reads as `None`): a body that is not JSON is
/// refused with the decoder's message (its text is not stated here); the
/// fields depend on the body alone.
#[verifier::external_body]
fn read_anthropic_body(body: &[u8]) -> (r: Result<AnthropicResponseBody, String>)
    ensures
        match anthropic_body_of(body@) {
            None => r is Err,
            Some(b) => r == Ok::<AnthropicResponseBody, String>(b),
        },
{
    let v: serde_json::Value = serde_json::from_slice(body).map_err(|e| e.to_string())?;
    Ok(AnthropicResponseBody {
        error_message: v["error"]["message"].as_str().map(String::from),
        id: v["id"].as_str().map(String::from),
        model: v["model"].as_str().map(String::from),
        first_text: v["content"][0]["text"].as_str().map(String::from),
        stop_reason: v["stop_reason"].as_str().map(String::from),
        input_tokens: v["usage"]["input_tokens"].as_u64(),
        output_tokens: v["usage"]["output_tokens"].as_u64(),
    })
}

/// The fields an event payload holds, or `None` when it is not JSON.
pub uninterp spec fn anthropic_event_of(payload: Seq<u8>) -> Option<AnthropicEventData>;

/// Reads a streaming event's payload (`serde_json::from_slice` into a
/// `serde_json::Value`, then indexing each field; a field that is absent
/// or of another JSON type reads as `None`, and `usage` is read when it is
/// an object): `None` when the payload is not JSON; the fields depend on the
/// payload alone.
#[verifier::external_body]
pub(crate) fn read_event_data(payload: &[u8]) -> (r: Option<AnthropicEventData>)
    ensures
        r == anthropic_event_of(payload@),
{
    let v: serde_json::Value = serde_json::from_slice(payload).ok()?;
    let u = &v["usage"];
    Some(AnthropicEventData {
        message_id: v["message"]["id"].as_str().map(String::from),
        message_model: v["message"]["model"].as_str().map(String::from),
        index: v["index"].as_u64(),
        delta_text: v["delta"]["text"].as_str().map(String::from),
        stop_reason: v["delta"]["stop_reason"].as_str().map(String::from),
        usage: match u {
            serde_json::Value::Object(_) => Some(EventUsage { input_tokens: u["input_tokens"].as_u64(), output_tokens: u["output_tokens"].as_u64() }),
            _ => None,
        },
    })
}

impl AnthropicConfig {
    /// The conversion mode.
    pub closed spec fn mode(&self) -> AnthropicMode {
        self.mode
    }

    /// The API origin requests go to.
    pub closed spec fn base_url_view(&self) -> Seq<char> {
        self.base_url@
    }

    /// The upstream model name requests are sent with.
    pub closed spec fn model_view(&self) -> Seq<char> {
        self.litellm_model@
    }

    /// `r` is the outcome of preparing the upstream request for the chat
    /// request `request` authenticated by `api_key`: refused when the key
    /// cannot be a header value, else a POST to `/v1/messages` with the
    /// key, API version and JSON content type headers, carrying the Messages
    /// body built from `request` in chat mode and the request itself when
    /// passing through.
    pub open spec fn request_outcome(
        &self,
        request: crate::types::RequestView,
        api_key: Seq<char>,
        r: Result<ProviderRequest, ProviderError>,
    ) -> bool {
        &&& !is_header_text(api_key) ==> (r matches Err(ProviderError::SerializationError(m)) && m@
            == "invalid api key"@)
        &&& is_header_text(api_key) ==> (r matches Ok(p) && {
            &&& p.method == HttpMethod::Post
            &&& p.path@ == "/v1/messages"@
            &&& p.headers@.len() == 3
            &&& p.headers@[0].0@ == "x-api-key"@ && p.headers@[0].1@ == api_key
            &&& p.headers@[1].0@ == "anthropic-version"@ && p.headers@[1].1@ == "2023-06-01"@
            &&& p.headers@[2].0@ == "Content-Type"@ && p.headers@[2].1@ == "application/json"@
            &&& match self.mode() {
                AnthropicMode::Chat => p.body matches RequestBody::Anthropic(b) && is_anthropic_body(
                    request,
                    self.model_view(),
                    b,
                ),
                AnthropicMode::Messages => p.body is Unchanged,
            }
        })
    }

    /// A deployment sending `litellm_model` to `base_url`, or to the public
    /// Anthropic API when no origin is given.
    pub fn new(base_url: Option<String>, litellm_model: String, mode: AnthropicMode) -> (c: Self)
        ensures
            c.mode() == mode,
            c.model_view() == litellm_model@,
            c.base_url_view() == view_or(base_url, default_anthropic_url()),
    {
        let base_url = match base_url {
            Some(u) => u,
            None => owned("https://api.anthropic.com"),
        };
        AnthropicConfig { mode, base_url, litellm_model }
    }

    /// The API origin requests go to.
    pub fn base_url(&self) -> (r: &str)
        ensures
            r@ == self.base_url_view(),
    {
        self.base_url.as_str()
    }

    /// Whether Messages requests are passed through unchanged.
    pub fn is_passthrough(&self) -> (r: bool)
        ensures
            r == (self.mode() == AnthropicMode::Messages),
    {
        match self.mode {
            AnthropicMode::Messages => true,
            AnthropicMode::Chat => false,
        }
    }

    /// The conversion applied to streamed events: Messages events to OpenAI
    /// chunks in chat mode, none when passing through.
    pub fn chunk_transformer(&self) -> (r: Option<ChunkTransformer>)
        ensures
            r == match self.mode() {
                AnthropicMode::Chat => Some(ChunkTransformer::AnthropicToOpenAi),
                AnthropicMode::Messages => None::<ChunkTransformer>,
            },
    {
        match self.mode {
            AnthropicMode::Chat => Some(ChunkTransformer::AnthropicToOpenAi),
            AnthropicMode::Messages => None,
        }
    }

    /// The upstream request for a chat request authenticated by `api_key`:
    /// a POST to `/v1/messages` with the key, API version and JSON content
    /// type headers. Fails when the key cannot be a header value.
    pub fn transform_request(&self, request: &ChatRequest, api_key: &str) -> (r: Result<ProviderRequest, ProviderError>)
        ensures
            self.request_outcome(request@, api_key@, r),
    {
        if !is_valid_header_value(api_key) {
            return Err(ProviderError::SerializationError(owned("invalid api key")));
        }
        let mut headers = Vec::new();
        headers.push((owned("x-api-key"), owned(api_key)));
        headers.push((owned("anthropic-version"), owned("2023-06-01")));
        headers.push((owned("Content-Type"), owned("application/json")));
        let body = match self.mode {
            AnthropicMode::Chat => RequestBody::Anthropic(convert_chat_to_anthropic(request, self.litellm_model.as_str())),
            AnthropicMode::Messages => RequestBody::Unchanged,
        };
        Ok(ProviderRequest { method: HttpMethod::Post, path: owned("/v1/messages"), headers, body })
    }

    /// The chat response for an upstream answer with HTTP `status` and body
    /// fields `body`, received at `now` (seconds since the Unix epoch).
    pub fn transform_response(&self, status: u16, body: &AnthropicResponseBody, now: u64) -> (r: Result<ModelResponse, ProviderError>)
        requires
            super::is_success(status) ==> tokens_fit(*body),
        ensures
            is_chat_response(status, *body, now, r),
    {
        if !(200 <= status && status <= 299) {
            return Err(super::upstream_error(status, &body.error_message, "unknown error"));
        }
        proof {
            reveal_strlit("");
            assert(""@ =~= Seq::<char>::empty());
        }
        let p = match body.input_tokens {
            Some(x) => x,
            None => 0,
        } as u32;
        let q = match body.output_tokens {
            Some(x) => x,
            None => 0,
        } as u32;
        let mut choices = Vec::new();
        choices.push(Choice {
            index: 0,
            message: Message { role: owned("assistant"), content: unwrap_or_str(&body.first_text, "") },
            finish_reason: unwrap_or_str(&body.stop_reason, "stop"),
        });
        Ok(ModelResponse {
            id: unwrap_or_str(&body.id, ""),
            object: owned("chat.completion"),
            created: now,
            model: unwrap_or_str(&body.model, ""),
            choices,
            usage: Usage { prompt_tokens: p, completion_tokens: q, total_tokens: p + q },
        })
    }

    /// The chat answer for an upstream answer with HTTP `status` and raw
    /// `body`, received at `now` (seconds since the Unix epoch): a body that
    /// is not JSON is a decoding error; otherwise the answer is that of
    /// [`Self::transform_response`] on the body's fields. `None` only when
    /// the status is a success and the body's two token counts do not add
    /// up within `u32`.
    pub fn transform_raw_response(&self, status: u16, body: &[u8], now: u64) -> (r: Option<Result<ModelResponse, ProviderError>>)
        ensures
            match anthropic_body_of(body@) {
                None => r matches Some(Err(e)) && e is SerializationError,
                Some(b) => if super::is_success(status) && !tokens_fit(b) {
                    r is None
                } else {
                    r matches Some(a) && is_chat_response(status, b, now, a)
                },
            },
    {
        let fields = match read_anthropic_body(body) {
            Ok(b) => b,
            Err(e) => {
                return Some(Err(ProviderError::SerializationError(e)));
            },
        };
        if 200 <= status && status <= 299 {
            let p = match fields.input_tokens {
                Some(x) => x,
                None => 0,
            } as u32;
            let q = match fields.output_tokens {
                Some(x) => x,
                None => 0,
            } as u32;
            if p > u32::MAX - q {
                return None;
            }
        }
        Some(self.transform_response(status, &fields, now))
    }
}

} // verus!
