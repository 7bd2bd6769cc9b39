//! The OpenAI adapter: requests and responses are already in OpenAI format.

use vstd::prelude::*;

use super::{HttpMethod, ProviderError, ProviderRequest, RequestBody};
use crate::text::{concat, is_header_text, owned, view_or};
use crate::types::ModelResponse;

verus! {

/// Configuration of one OpenAI-compatible deployment.
pub struct OpenAiConfig {
    base_url: String,
}

/// The OpenAI API origin used when a deployment names none.
pub open spec fn default_openai_url() -> Seq<char> {
    "https://api.openai.com"@
}

/// A decoded OpenAI response body: the error message of a failed call, or
/// the completion of a successful one.
pub enum OpenAiResponseBody {
    ErrorMessage(Option<String>),
    Completion(ModelResponse),
}

/// `p` is the upstream request for a chat request authenticated by
/// `api_key`: the request itself, POSTed to `/v1/chat/completions` with a
/// bearer token and a JSON content type.
pub open spec fn is_openai_request(api_key: Seq<char>, p: ProviderRequest) -> bool {
    &&& p.method == HttpMethod::Post
    &&& p.path@ == "/v1/chat/completions"@
    &&& p.headers@.len() == 2
    &&& p.headers@[0].0@ == "Authorization"@ && p.headers@[0].1@ == "Bearer "@ + api_key
    &&& p.headers@[1].0@ == "Content-Type"@ && p.headers@[1].1@ == "application/json"@
    &&& p.body is Unchanged
}

impl OpenAiConfig {
    /// The API origin requests go to.
    pub closed spec fn base_url_view(&self) -> Seq<char> {
        self.base_url@
    }

    /// A deployment at `base_url`, or at the public OpenAI API when no origin
    /// is given.
    pub fn new(base_url: Option<String>) -> (c: Self)
        ensures
            c.base_url_view() == view_or(base_url, default_openai_url()),
    {
        let base_url = match base_url {
            Some(u) => u,
            None => owned("https://api.openai.com"),
        };
        OpenAiConfig { base_url }
    }

    /// The API origin requests go to.
    pub fn base_url(&self) -> (r: &str)
        ensures
            r@ == self.base_url_view(),
    {
        self.base_url.as_str()
    }

    /// The upstream request for a chat request authenticated by `api_key`:
    /// the request itself, POSTed to `/v1/chat/completions` with a bearer
    /// token and a JSON content type.
    pub fn transform_request(&self, api_key: &str) -> (p: ProviderRequest)
        requires
            is_header_text("Bearer "@ + api_key@),
        ensures
            is_openai_request(api_key@, p),
    {
        let mut headers = Vec::new();
        headers.push((owned("Authorization"), concat("Bearer ", api_key)));
        headers.push((owned("Content-Type"), owned("application/json")));
        ProviderRequest { method: HttpMethod::Post, path: owned("/v1/chat/completions"), headers, body: RequestBody::Unchanged }
    }

    /// The error for an upstream answer with a non-success `status` and raw
    /// `body`: a body that is not JSON is a decoding error; otherwise the
    /// error carries the status and the body's `error.message`, or
    /// `"unknown error"`.
    pub fn error_response(&self, status: u16, body: &[u8]) -> (e: ProviderError)
        ensures
            match super::json_error_field(body@) {
                None => e is SerializationError,
                Some(m) => e matches ProviderError::UpstreamError { status: s, message } && s == status && message@
                    == match m {
                    Some(t) => t,
                    None => "unknown error"@,
                },
            },
    {
        match super::read_error_field(body) {
            Ok(m) => super::upstream_error(status, &m, "unknown error"),
            Err(e) => ProviderError::SerializationError(e),
        }
    }

    /// The chat response for an upstream answer with HTTP `status`: the
    /// decoded completion on success, else an upstream error carrying the
    /// body's message or `"unknown error"`.
    pub fn transform_response(&self, status: u16, body: OpenAiResponseBody) -> (r: Result<ModelResponse, ProviderError>)
        requires
            super::is_success(status) <==> body is Completion,
        ensures
            match body {
                OpenAiResponseBody::Completion(resp) => r == Ok::<ModelResponse, ProviderError>(resp),
                OpenAiResponseBody::ErrorMessage(m) => r matches Err(ProviderError::UpstreamError { status: s, message: msg })
                    && s == status && msg@ == view_or(m, "unknown error"@),
            },
    {
        match body {
            OpenAiResponseBody::Completion(resp) => Ok(resp),
            OpenAiResponseBody::ErrorMessage(m) => Err(super::upstream_error(status, &m, "unknown error")),
        }
    }
}

} // verus!
