//! Which failures are retried, how long to wait before each retry, and the
//! decisions of the retry loop.
//!
//! The loop itself (calling the provider, sleeping) runs outside the
//! library: it hands each failure to [`RetryState::on_failure`] and does
//! what the returned [`RetryAction`] says.

use vstd::prelude::*;

use crate::config::RouterSettings;
use crate::provider::ProviderError;
use crate::router::cooldown::{cooldown_end, CooldownManager};

verus! {

/// A failure is worth retrying: rate limiting (429), a server error (5xx),
/// or a timeout.
pub open spec fn retryable(e: ProviderError) -> bool {
    match e {
        ProviderError::UpstreamError { status, .. } => status == 429 || (500 <= status && status <= 599),
        ProviderError::Timeout => true,
        _ => false,
    }
}

/// Whether a failed call may succeed when tried again.
pub fn is_retryable(e: &ProviderError) -> (r: bool)
    ensures
        r == retryable(*e),
{
    match e {
        ProviderError::UpstreamError { status, .. } => *status == 429 || (500 <= *status && *status <= 599),
        ProviderError::Timeout => true,
        _ => false,
    }
}

/// `base` doubled `k` times.
pub open spec fn doubled(base: nat, k: nat) -> nat
    decreases k,
{
    if k == 0 {
        base
    } else {
        2 * doubled(base, (k - 1) as nat)
    }
}

/// `n`, or `u64::MAX` when it does not fit.
pub open spec fn cap_u64(n: int) -> u64 {
    if n > u64::MAX {
        u64::MAX
    } else {
        n as u64
    }
}

/// The exponential backoff before retry number `attempt + 1`, in
/// milliseconds: `base_ms * 2^attempt`, saturating at `u64::MAX`.
pub open spec fn backoff_ms(attempt: nat, base_ms: nat) -> u64 {
    cap_u64(doubled(base_ms, attempt) as int)
}

/// The wait before retry number `attempt + 1`: the backoff plus a jitter
/// of `jitter % 100` milliseconds, saturating at `u64::MAX`.
pub open spec fn delay_ms(attempt: nat, base_ms: nat, jitter: u64) -> u64 {
    cap_u64(backoff_ms(attempt, base_ms) + jitter % 100)
}

proof fn lemma_doubled_mono(base: nat, k: nat, j: nat)
    requires
        k <= j,
    ensures
        doubled(base, k) <= doubled(base, j),
        base == 0 ==> doubled(base, j) == 0,
    decreases j,
{
    if j > 0 {
        if k < j {
            lemma_doubled_mono(base, k, (j - 1) as nat);
        } else {
            lemma_doubled_mono(base, (j - 1) as nat, (j - 1) as nat);
        }
    }
}

/// `base_ms * 2^attempt`, saturating at `u64::MAX`.
pub fn backoff(attempt: u32, base_ms: u64) -> (r: u64)
    ensures
        r == backoff_ms(attempt as nat, base_ms as nat),
{
    let mut d: u64 = base_ms;
    let mut k: u32 = 0;
    while k < attempt && d != 0 && d != u64::MAX
        invariant
            k <= attempt,
            d == backoff_ms(k as nat, base_ms as nat),
        decreases attempt - k,
    {
        if d > u64::MAX / 2 {
            d = u64::MAX;
        } else {
            d = d * 2;
        }
        k = k + 1;
    }
    proof {
        lemma_doubled_mono(base_ms as nat, k as nat, attempt as nat);
        if k < attempt && d == 0 {
            assert(doubled(base_ms as nat, k as nat) == 0);
            if base_ms != 0 {
                lemma_doubled_positive(base_ms as nat, k as nat);
            }
        }
    }
    d
}

proof fn lemma_doubled_positive(base: nat, k: nat)
    requires
        base > 0,
    ensures
        doubled(base, k) > 0,
    decreases k,
{
    if k > 0 {
        lemma_doubled_positive(base, (k - 1) as nat);
    }
}

/// The wait before retry number `attempt + 1` with the given jitter.
pub fn retry_delay_with(attempt: u32, base_ms: u64, jitter: u64) -> (r: u64)
    ensures
        r == delay_ms(attempt as nat, base_ms as nat, jitter),
{
    backoff(attempt, base_ms).saturating_add(jitter % 100)
}

/// The wait before retry number `attempt + 1`, with a random jitter below
/// 100 milliseconds.
pub fn retry_delay(attempt: u32, base_ms: u64) -> (r: u64)
    ensures
        exists|j: u64| j < 100 && r == #[trigger] delay_ms(attempt as nat, base_ms as nat, j),
{
    let jitter = crate::clock::random_u64();
    let r = retry_delay_with(attempt, base_ms, jitter);
    assert(jitter % 100 < 100 && delay_ms(attempt as nat, base_ms as nat, jitter % 100) == r);
    r
}

/// How often and how patiently a call is retried.
pub struct RetryConfig {
    pub num_retries: u32,
    /// The base delay, in milliseconds.
    pub retry_after_ms: u64,
}

impl Default for RetryConfig {
    /// Three retries, starting at half a second.
    fn default() -> (c: Self)
        ensures
            c.num_retries == 3,
            c.retry_after_ms == 500,
    {
        RetryConfig { num_retries: 3, retry_after_ms: 500 }
    }
}

impl From<RouterSettings> for RetryConfig {
    /// The retry part of the router settings.
    fn from(s: RouterSettings) -> (c: Self) {
        RetryConfig { num_retries: s.num_retries, retry_after_ms: s.retry_after_ms }
    }
}

impl vstd::std_specs::convert::FromSpecImpl<RouterSettings> for RetryConfig {
    open spec fn obeys_from_spec() -> bool {
        true
    }

    open spec fn from_spec(s: RouterSettings) -> RetryConfig {
        RetryConfig { num_retries: s.num_retries, retry_after_ms: s.retry_after_ms }
    }
}

/// What the retry loop does after a failed call.
pub enum RetryAction {
    /// Wait this many milliseconds, then call again.
    Wait(u64),
    /// Stop and report this error.
    GiveUp(ProviderError),
}

/// The progress of one retried call.
pub struct RetryState {
    attempt: u32,
    max_retries: u32,
    base_ms: u64,
}

impl RetryState {
    /// The number of retries already granted.
    pub closed spec fn attempts(&self) -> nat {
        self.attempt as nat
    }

    /// The most retries that will be granted.
    pub closed spec fn max_retries(&self) -> nat {
        self.max_retries as nat
    }

    /// The base delay, in milliseconds.
    pub closed spec fn base_ms(&self) -> nat {
        self.base_ms as nat
    }

    /// No more retries are granted than configured.
    pub closed spec fn wf(&self) -> bool {
        self.attempt <= self.max_retries
    }

    /// The state before the first call.
    pub fn new(config: &RetryConfig) -> (s: Self)
        ensures
            s.wf(),
            s.attempts() == 0,
            s.max_retries() == config.num_retries,
            s.base_ms() == config.retry_after_ms,
    {
        RetryState { attempt: 0, max_retries: config.num_retries, base_ms: config.retry_after_ms }
    }

    /// After a failed call with the given jitter: wait and retry when the
    /// failure is retryable and retries remain, else give up with it.
    pub fn on_failure_with(&mut self, e: ProviderError, jitter: u64) -> (a: RetryAction)
        requires
            old(self).wf(),
        ensures
            final(self).wf(),
            final(self).max_retries() == old(self).max_retries(),
            final(self).base_ms() == old(self).base_ms(),
            retryable(e) && old(self).attempts() < old(self).max_retries() ==> a == RetryAction::Wait(
                delay_ms(old(self).attempts(), old(self).base_ms(), jitter),
            ) && final(self).attempts() == old(self).attempts() + 1,
            !(retryable(e) && old(self).attempts() < old(self).max_retries()) ==> a == RetryAction::GiveUp(e)
                && final(self).attempts() == old(self).attempts(),
    {
        if is_retryable(&e) && self.attempt < self.max_retries {
            let d = retry_delay_with(self.attempt, self.base_ms, jitter);
            self.attempt = self.attempt + 1;
            RetryAction::Wait(d)
        } else {
            RetryAction::GiveUp(e)
        }
    }

    /// After a failed call: wait (with a random jitter below 100 ms) and
    /// retry when the failure is retryable and retries remain, else give up
    /// with it.
    pub fn on_failure(&mut self, e: ProviderError) -> (a: RetryAction)
        requires
            old(self).wf(),
        ensures
            final(self).wf(),
            final(self).max_retries() == old(self).max_retries(),
            final(self).base_ms() == old(self).base_ms(),
            retryable(e) && old(self).attempts() < old(self).max_retries() ==> (exists|j: u64|
                j < 100 && a == RetryAction::Wait(#[trigger] delay_ms(old(self).attempts(), old(self).base_ms(), j)))
                && final(self).attempts() == old(self).attempts() + 1,
            !(retryable(e) && old(self).attempts() < old(self).max_retries()) ==> a == RetryAction::GiveUp(e)
                && final(self).attempts() == old(self).attempts(),
    {
        let jitter = crate::clock::random_u64();
        let a = self.on_failure_with(e, jitter);
        assert(delay_ms(old(self).attempts(), old(self).base_ms(), jitter % 100) == delay_ms(
            old(self).attempts(),
            old(self).base_ms(),
            jitter,
        ));
        a
    }
}

/// Books a call that failed after its retries: counts the failure and,
/// once `allowed_fails` consecutive failures are reached, puts the
/// deployment in cooldown for `cooldown_secs` (which clears its count).
/// Returns the consecutive failures counted.
pub fn settle_failure(cooldown: &mut CooldownManager, id: &str, allowed_fails: u32, cooldown_secs: u64) -> (n: u32)
    requires
        old(cooldown).wf(),
    ensures
        final(cooldown).wf(),
        n == (if old(cooldown).failures_of(id@) == u32::MAX { u32::MAX as int } else { old(cooldown).failures_of(id@)
            + 1 }),
        n < allowed_fails ==> final(cooldown).failure_counts() == old(cooldown).failure_counts().insert(id@, n)
            && final(cooldown).ends() == old(cooldown).ends(),
        n >= allowed_fails ==> final(cooldown).failure_counts() == old(cooldown).failure_counts().remove(id@)
            && exists|now: u64| final(cooldown).ends() == old(cooldown).ends().insert(id@, #[trigger] cooldown_end(now, cooldown_secs)),
        n < allowed_fails ==> final(cooldown).readings() == old(cooldown).readings(),
        n >= allowed_fails ==> final(cooldown).readings().len() == old(cooldown).readings().len() + 1
            && final(cooldown).readings().drop_last() == old(cooldown).readings() && final(cooldown).ends()
            == old(cooldown).ends().insert(id@, cooldown_end(final(cooldown).readings().last(), cooldown_secs)),
{
    let n = cooldown.record_failure(id);
    if n >= allowed_fails {
        let ghost mid = cooldown.failure_counts();
        let _ = cooldown.mark(id, cooldown_secs);
        assert(mid.remove(id@) =~= old(cooldown).failure_counts().remove(id@));
    }
    n
}

/// The backoff doubles from one retry to the next until it reaches
/// `u64::MAX`, and never shrinks.
pub proof fn lemma_backoff_doubles(attempt: nat, base_ms: nat)
    ensures
        backoff_ms(attempt + 1, base_ms) >= backoff_ms(attempt, base_ms),
        2 * doubled(base_ms, attempt) <= u64::MAX ==> backoff_ms(attempt + 1, base_ms) == 2 * backoff_ms(
            attempt,
            base_ms,
        ),
        backoff_ms(0, base_ms) == cap_u64(base_ms as int),
{
    assert(doubled(base_ms, attempt + 1) == 2 * doubled(base_ms, attempt));
}

/// The wait before a retry is its backoff plus less than 100 ms of jitter
/// (short of saturation).
pub proof fn lemma_delay_bounds(attempt: nat, base_ms: nat, jitter: u64)
    ensures
        delay_ms(attempt, base_ms, jitter) >= backoff_ms(attempt, base_ms),
        delay_ms(attempt, base_ms, jitter) <= backoff_ms(attempt, base_ms) + 99,
        backoff_ms(attempt, base_ms) + 99 <= u64::MAX ==> delay_ms(attempt, base_ms, jitter) == backoff_ms(
            attempt,
            base_ms,
        ) + jitter % 100,
{
}

/// A retried call is attempted at most `num_retries + 1` times: the retry
/// state never grants more retries than configured.
pub proof fn lemma_retry_budget(s: RetryState)
    requires
        s.wf(),
    ensures
        s.attempts() <= s.max_retries(),
{
}

} // verus!
