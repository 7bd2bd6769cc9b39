//! Retries with exponential backoff, and the cooldown bookkeeping that
//! follows a call.

pub mod retry;
