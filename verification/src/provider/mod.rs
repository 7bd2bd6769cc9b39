//! Provider adapters: conversion between the OpenAI format and each
//! upstream provider's own format.

use vstd::prelude::*;

verus! {

/// What can go wrong when a provider is called.
pub enum ProviderError {
    /// The provider answered with a non-success status.
    UpstreamError { status: u16, message: String },
    /// The HTTP exchange itself failed; holds the transport's message.
    HttpError(String),
    /// A body could not be encoded or decoded; holds the codec's message.
    SerializationError(String),
    /// The call timed out.
    Timeout,
}

/// The text of a provider error.
pub open spec fn error_text(e: ProviderError) -> Seq<char> {
    match e {
        ProviderError::UpstreamError { status, message } => "upstream error: status="@ + crate::text::decimal(
            status as nat,
        ) + ", message="@ + message@,
        ProviderError::HttpError(m) => "HTTP error: "@ + m@,
        ProviderError::SerializationError(m) => "serialization error: "@ + m@,
        ProviderError::Timeout => "timeout"@,
    }
}

impl ProviderError {
    /// The error's text.
    pub fn to_string(&self) -> (r: String)
        ensures
            r@ == error_text(*self),
    {
        match self {
            ProviderError::UpstreamError { status, message } => {
                let mut r = crate::text::owned("upstream error: status=");
                let s = crate::text::u64_to_decimal(*status as u64);
                crate::text::append_str(&mut r, s.as_str());
                crate::text::append_str(&mut r, ", message=");
                crate::text::append_str(&mut r, message.as_str());
                r
            },
            ProviderError::HttpError(m) => crate::text::concat("HTTP error: ", m.as_str()),
            ProviderError::SerializationError(m) => crate::text::concat("serialization error: ", m.as_str()),
            ProviderError::Timeout => crate::text::owned("timeout"),
        }
    }
}

/// The conversion applied to each event of a provider's stream.
#[derive(PartialEq, Eq, Structural, Clone, Copy, Debug)]
pub enum ChunkTransformer {
    /// Anthropic Messages events to OpenAI chunks.
    AnthropicToOpenAi,
}

} // verus!

pub mod anthropic;

verus! {

/// The HTTP method of an upstream request.
#[derive(PartialEq, Eq, Structural, Clone, Copy, Debug)]
pub enum HttpMethod {
    Post,
}

/// The body of an upstream request.
pub enum RequestBody {
    /// A Messages API body built from the chat request.
    Anthropic(anthropic::AnthropicRequestBody),
    /// The chat request itself, serialized unchanged.
    Unchanged,
}

/// An upstream request: method, path below the provider's origin, headers
/// to set in order, and body.
pub struct ProviderRequest {
    pub method: HttpMethod,
    pub path: String,
    pub headers: Vec<(String, String)>,
    pub body: RequestBody,
}

/// The `error.message` field of a body: `None` when the body is not JSON,
/// else the field's text when it is a string.
pub uninterp spec fn json_error_field(body: Seq<u8>) -> Option<Option<Seq<char>>>;

/// Reads `error.message` from a body (`serde_json::from_slice` into a
/// `serde_json::Value`, then indexing): a body that is not JSON is refused
/// with the decoder's message (its text is not stated here); the result
/// depends on the body alone.
#[verifier::external_body]
pub(crate) fn read_error_field(body: &[u8]) -> (r: Result<Option<String>, String>)
    ensures
        match json_error_field(body@) {
            None => r is Err,
            Some(m) => r matches Ok(f) && crate::text::opt_view(f) == m,
        },
{
    let v: serde_json::Value = serde_json::from_slice(body).map_err(|e| e.to_string())?;
    Ok(v["error"]["message"].as_str().map(String::from))
}

/// A 2xx HTTP status.
pub open spec fn is_success(status: u16) -> bool {
    200 <= status <= 299
}

/// The error for an upstream answer with a non-success status: the body's
/// error message, or `default` when it has none.
pub fn upstream_error(status: u16, message: &Option<String>, default: &str) -> (e: ProviderError)
    ensures
        e matches ProviderError::UpstreamError { status: s, message: m } && s == status && m@
            == crate::text::view_or(*message, default@),
{
    ProviderError::UpstreamError { status, message: crate::text::unwrap_or_str(message, default) }
}

} // verus!

pub mod openai;

verus! {

/// A configured upstream provider.
pub enum ProviderConfig {
    OpenAi(openai::OpenAiConfig),
    Anthropic(anthropic::AnthropicConfig),
}

impl ProviderConfig {
    /// The provider's API origin.
    pub open spec fn base_url_view(&self) -> Seq<char> {
        match self {
            ProviderConfig::OpenAi(c) => c.base_url_view(),
            ProviderConfig::Anthropic(c) => c.base_url_view(),
        }
    }

    /// The provider's API origin.
    pub fn base_url(&self) -> (r: &str)
        ensures
            r@ == self.base_url_view(),
    {
        match self {
            ProviderConfig::OpenAi(c) => c.base_url(),
            ProviderConfig::Anthropic(c) => c.base_url(),
        }
    }

    /// Whether responses are passed to the client unchanged.
    pub fn is_passthrough(&self) -> (r: bool)
        ensures
            r == (self matches ProviderConfig::Anthropic(c) && c.mode() == anthropic::AnthropicMode::Messages),
    {
        match self {
            ProviderConfig::OpenAi(_) => false,
            ProviderConfig::Anthropic(c) => c.is_passthrough(),
        }
    }

    /// The conversion applied to the provider's streamed events, if any:
    /// Anthropic chat deployments convert their events to OpenAI chunks.
    pub open spec fn chunk_transformer_view(&self) -> Option<ChunkTransformer> {
        match self {
            ProviderConfig::Anthropic(c) => match c.mode() {
                anthropic::AnthropicMode::Chat => Some(ChunkTransformer::AnthropicToOpenAi),
                anthropic::AnthropicMode::Messages => None,
            },
            ProviderConfig::OpenAi(_) => None,
        }
    }

    /// The conversion applied to the provider's streamed events, if any.
    pub fn chunk_transformer(&self) -> (r: Option<ChunkTransformer>)
        ensures
            r == self.chunk_transformer_view(),
    {
        match self {
            ProviderConfig::OpenAi(_) => None,
            ProviderConfig::Anthropic(c) => c.chunk_transformer(),
        }
    }

    /// `r` is the outcome of preparing the upstream request for `request`
    /// authenticated by `api_key`, as the provider's own conversion states it.
    pub open spec fn request_outcome(
        &self,
        request: crate::types::RequestView,
        api_key: Seq<char>,
        r: Result<ProviderRequest, ProviderError>,
    ) -> bool {
        match self {
            ProviderConfig::OpenAi(_) => r matches Ok(p) && openai::is_openai_request(api_key, p),
            ProviderConfig::Anthropic(c) => c.request_outcome(request, api_key, r),
        }
    }

    /// The upstream request for `request` authenticated by `api_key`.
    pub fn transform_request(&self, request: &crate::types::ChatRequest, api_key: &str) -> (r: Result<ProviderRequest, ProviderError>)
        requires
            self is OpenAi ==> crate::text::is_header_text("Bearer "@ + api_key@),
        ensures
            self.request_outcome(request@, api_key@, r),
    {
        match self {
            ProviderConfig::OpenAi(c) => Ok(c.transform_request(api_key)),
            ProviderConfig::Anthropic(c) => c.transform_request(request, api_key),
        }
    }
}

} // verus!
