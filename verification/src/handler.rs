//! The provider call around the HTTP exchange: what is sent, where, and
//! how a raw answer is judged.
//!
//! The exchange itself (sending the request, reading the body or the
//! event stream) is done by the caller with its HTTP client.

use vstd::prelude::*;

use crate::provider::{is_success, json_error_field, read_error_field, upstream_error, ChunkTransformer, ProviderConfig, ProviderError, ProviderRequest};
use crate::types::{ChatRequest, RequestView};

verus! {

/// The upstream request of a prepared call, or its error.
pub open spec fn request_part(r: Result<(ProviderRequest, String), ProviderError>) -> Result<ProviderRequest, ProviderError> {
    match r {
        Ok((p, _)) => Ok(p),
        Err(e) => Err(e),
    }
}

/// The upstream request of a prepared streamed call, or its error.
pub open spec fn stream_request_part(r: Result<(ChatRequest, ProviderRequest, String), ProviderError>) -> Result<
    ProviderRequest,
    ProviderError,
> {
    match r {
        Ok((_, p, _)) => Ok(p),
        Err(e) => Err(e),
    }
}

/// Calls providers.
pub struct HttpHandler;

impl HttpHandler {
    /// A handler.
    pub fn new() -> Self {
        HttpHandler
    }

    /// The upstream request for `request` and the URL it goes to: the
    /// provider's origin followed by the request's path.
    pub fn prepare(&self, request: &ChatRequest, provider: &ProviderConfig, api_key: &str) -> (r: Result<
        (ProviderRequest, String),
        ProviderError,
    >)
        requires
            provider is OpenAi ==> crate::text::is_header_text("Bearer "@ + api_key@),
        ensures
            r matches Ok((p, url)) ==> url@ == provider.base_url_view() + p.path@,
            provider.request_outcome(request@, api_key@, request_part(r)),
    {
        let p = provider.transform_request(request, api_key)?;
        let url = crate::gateway::endpoint_url(provider, p.path.as_str());
        Ok((p, url))
    }

    /// Judges a raw answer: a 2xx body is passed on unchanged; otherwise the
    /// error carries the status and the body's `error.message` (`unknown`
    /// when it has none).
    pub fn finish_raw(&self, status: u16, body: Vec<u8>) -> (r: Result<Vec<u8>, ProviderError>)
        ensures
            is_success(status) ==> r == Ok::<Vec<u8>, ProviderError>(body),
            !is_success(status) ==> (r matches Err(ProviderError::UpstreamError { status: s, message }) && s == status
                && message@ == match json_error_field(body@) {
                Some(Some(m)) => m,
                _ => "unknown"@,
            }),
    {
        if 200 <= status && status <= 299 {
            return Ok(body);
        }
        let m = match read_error_field(body.as_slice()) {
            Ok(m) => m,
            Err(_) => None,
        };
        Err(upstream_error(status, &m, "unknown"))
    }

    /// The request sent for a streamed answer: a copy of `request` asking
    /// for a stream, with its upstream form and URL.
    pub fn prepare_stream(&self, request: &ChatRequest, provider: &ProviderConfig, api_key: &str) -> (r: Result<
        (ChatRequest, ProviderRequest, String),
        ProviderError,
    >)
        requires
            provider is OpenAi ==> crate::text::is_header_text("Bearer "@ + api_key@),
        ensures
            r matches Ok((s, p, url)) ==> s@ == (RequestView { stream: Some(true), ..request@ }) && url@
                == provider.base_url_view() + p.path@,
            provider.request_outcome(RequestView { stream: Some(true), ..request@ }, api_key@, stream_request_part(r)),
    {
        let stream_request = request.streaming_copy();
        let (p, url) = self.prepare(&stream_request, provider, api_key)?;
        Ok((stream_request, p, url))
    }

    /// The conversion applied to the provider's stream; a provider whose
    /// stream is not converted is refused (as a timeout).
    pub fn stream_transformer(&self, provider: &ProviderConfig) -> (r: Result<ChunkTransformer, ProviderError>)
        ensures
            match provider.chunk_transformer_view() {
                Some(t) => r == Ok::<ChunkTransformer, ProviderError>(t),
                None => r matches Err(ProviderError::Timeout),
            },
    {
        match provider.chunk_transformer() {
            Some(t) => Ok(t),
            None => Err(ProviderError::Timeout),
        }
    }
}

} // verus!
