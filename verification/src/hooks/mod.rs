//! Hooks run around each provider call: rate limiting before, spend
//! accounting after.

use vstd::prelude::*;

use crate::provider::ProviderError;
use crate::text::{concat, owned};

pub mod cost_tracker;
pub mod parallel_request_limiter;

verus! {

/// Who is calling: the API key's identity and limits.
pub struct AuthContext {
    pub key_id: String,
    pub key_name: Option<String>,
    /// Tokens per minute allowed, if limited.
    pub tpm_limit: Option<u32>,
    /// Requests per minute allowed, if limited.
    pub rpm_limit: Option<u32>,
}

/// Why a hook refused a request.
pub enum HookError {
    /// A per-minute limit was exceeded; holds the detail.
    RateLimitExceeded(String),
    /// The hook itself failed; holds the cause.
    Internal(String),
}

/// The text of a hook error.
pub open spec fn hook_message(e: HookError) -> Seq<char> {
    match e {
        HookError::RateLimitExceeded(s) => "rate limit exceeded ("@ + s@ + ")"@,
        HookError::Internal(s) => s@,
    }
}

impl HookError {
    /// The error's text: `rate limit exceeded ({detail})`, or the cause.
    pub fn to_string(&self) -> (r: String)
        ensures
            r@ == hook_message(*self),
    {
        match self {
            HookError::RateLimitExceeded(s) => {
                let mut r = concat("rate limit exceeded (", s.as_str());
                crate::text::append_str(&mut r, ")");
                r
            },
            HookError::Internal(s) => owned(s.as_str()),
        }
    }

    /// A refused request is answered as an upstream 429 carrying the
    /// error's text.
    pub fn into_provider_error(self) -> (e: ProviderError)
        ensures
            e matches ProviderError::UpstreamError { status, message } && status == 429 && message@ == hook_message(
                self,
            ),
    {
        let message = self.to_string();
        ProviderError::UpstreamError { status: 429, message }
    }
}

} // verus!
