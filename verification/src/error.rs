//! Errors answered to clients, and how each is rendered.

use vstd::prelude::*;

use crate::hooks::{hook_message, HookError};
use crate::provider::ProviderError;
use crate::text::{append_str, concat, owned};

verus! {

/// Why a client request failed.
pub enum AppError {
    /// The provider call failed.
    Provider(ProviderError),
    /// No deployment serves the requested model.
    ModelNotFound { model: String },
    /// The deployment's provider is not configured.
    ProviderNotFound { provider: String },
    /// Streaming was requested where it is not offered.
    StreamNotSupported,
}

/// The HTTP status used for an upstream status: itself when it is a valid
/// status code (100 to 999), else 500.
pub open spec fn http_status(s: u16) -> u16 {
    if 100 <= s && s <= 999 {
        s
    } else {
        500
    }
}

/// The status and message a client receives for `e`.
pub open spec fn client_answer(e: AppError) -> (u16, Seq<char>) {
    match e {
        AppError::Provider(ProviderError::UpstreamError { status, message }) => (http_status(status), message@),
        AppError::Provider(ProviderError::Timeout) => (504, "upstream timeout"@),
        AppError::Provider(_) => (502, "upstream error"@),
        AppError::ModelNotFound { model } => (400, "model '"@ + model@ + "' not found"@),
        AppError::ProviderNotFound { provider } => (500, "provider '"@ + provider@ + "' not configured"@),
        AppError::StreamNotSupported => (400, "streaming is not supported in this version"@),
    }
}

impl AppError {
    /// The failure of a hook, answered as an upstream 429.
    pub fn from_hook(e: HookError) -> (r: AppError)
        ensures
            r matches AppError::Provider(ProviderError::UpstreamError { status, message }) && status == 429
                && message@ == hook_message(e),
    {
        AppError::Provider(e.into_provider_error())
    }

    /// The HTTP status and error message answered to the client; the body
    /// is `{"error": {"message": ...}}`.
    pub fn status_and_message(&self) -> (r: (u16, String))
        ensures
            (r.0, r.1@) == client_answer(*self),
    {
        match self {
            AppError::Provider(ProviderError::UpstreamError { status, message }) => {
                let s: u16 = if 100 <= *status && *status <= 999 { *status } else { 500 };
                (s, owned(message.as_str()))
            },
            AppError::Provider(ProviderError::Timeout) => (504, owned("upstream timeout")),
            AppError::Provider(_) => (502, owned("upstream error")),
            AppError::ModelNotFound { model } => {
                let mut m = concat("model '", model.as_str());
                append_str(&mut m, "' not found");
                (400, m)
            },
            AppError::ProviderNotFound { provider } => {
                let mut m = concat("provider '", provider.as_str());
                append_str(&mut m, "' not configured");
                (500, m)
            },
            AppError::StreamNotSupported => (400, owned("streaming is not supported in this version")),
        }
    }
}

/// Every error is answered with a valid HTTP status code.
pub proof fn lemma_status_valid(e: AppError)
    ensures
        100 <= client_answer(e).0 <= 999,
{
}

} // verus!
