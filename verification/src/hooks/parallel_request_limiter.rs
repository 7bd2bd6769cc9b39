//! Per-key requests-per-minute and tokens-per-minute limits.
//!
//! Each call counts one unit against both of the key's counters for the
//! current minute, then compares them with the key's limits.

use vstd::prelude::*;

use super::{AuthContext, HookError};
use crate::cache::{next_count, DualCache};
use crate::text::{append_str, decimal, owned, u64_to_decimal};

verus! {

/// The start of the minute holding `now_secs`, in seconds.
pub open spec fn minute_window(now_secs: u64) -> u64 {
    (now_secs / 60 * 60) as u64
}

/// The counter key for `kind` (`tpm` or `rpm`) of key `id` in `window`.
pub open spec fn limit_key(id: Seq<char>, kind: Seq<char>, window: u64) -> Seq<char> {
    "key:"@ + id + ":"@ + kind + ":"@ + decimal(window as nat)
}

/// The detail of an exceeded limit.
pub open spec fn over_limit(kind: Seq<char>, limit: u32, current: u32) -> Seq<char> {
    kind + " limit "@ + decimal(limit as nat) + " exceeded (current: "@ + decimal(current as nat) + ")"@
}

/// `current` is above the optional `limit`.
pub open spec fn exceeds(limit: Option<u32>, current: u32) -> bool {
    limit matches Some(l) && current > l
}

/// The start of the minute holding `now_secs`.
pub fn minute_window_of(now_secs: u64) -> (r: u64)
    ensures
        r == minute_window(now_secs),
{
    now_secs / 60 * 60
}

/// The start of the current minute, in seconds since the Unix epoch.
pub fn current_minute_window() -> (r: u64)
    ensures
        exists|now: u64| r == #[trigger] minute_window(now),
{
    minute_window_of(crate::clock::now_secs())
}

fn key_for(id: &str, kind: &str, window: u64) -> (r: String)
    ensures
        r@ == limit_key(id@, kind@, window),
{
    let mut r = owned("key:");
    append_str(&mut r, id);
    append_str(&mut r, ":");
    append_str(&mut r, kind);
    append_str(&mut r, ":");
    let w = u64_to_decimal(window);
    append_str(&mut r, w.as_str());
    r
}

fn over_limit_text(kind: &str, limit: u32, current: u32) -> (r: String)
    ensures
        r@ == over_limit(kind@, limit, current),
{
    let mut r = owned(kind);
    append_str(&mut r, " limit ");
    let l = u64_to_decimal(limit as u64);
    append_str(&mut r, l.as_str());
    append_str(&mut r, " exceeded (current: ");
    let c = u64_to_decimal(current as u64);
    append_str(&mut r, c.as_str());
    append_str(&mut r, ")");
    r
}

/// One request of `auth`'s key was counted in minute `window`, taking the
/// counters from `before` to `after`, with the verdict `r`: the token
/// counter is counted and checked first (a refusal there leaves the request
/// counter untouched), then the request counter.
pub open spec fn is_limit_check(
    auth: AuthContext,
    window: u64,
    before: Map<Seq<char>, u32>,
    after: Map<Seq<char>, u32>,
    r: Result<(), HookError>,
) -> bool {
    let tk = limit_key(auth.key_id@, "tpm"@, window);
    let rk = limit_key(auth.key_id@, "rpm"@, window);
    let t = next_count(before, tk);
    let c1 = before.insert(tk, t);
    let q = next_count(c1, rk);
    if exceeds(auth.tpm_limit, t) {
        &&& after == c1
        &&& r matches Err(HookError::RateLimitExceeded(s)) && s@ == over_limit("tpm"@, auth.tpm_limit->0, t)
    } else {
        &&& after == c1.insert(rk, q)
        &&& exceeds(auth.rpm_limit, q) ==> (r matches Err(HookError::RateLimitExceeded(s)) && s@ == over_limit(
            "rpm"@,
            auth.rpm_limit->0,
            q,
        ))
        &&& !exceeds(auth.rpm_limit, q) ==> r is Ok
    }
}

/// Which of a key's two counters a limit check is at.
#[derive(PartialEq, Eq, Structural, Clone, Copy, Debug)]
pub enum LimitStage {
    /// The tokens-per-minute counter.
    Tokens,
    /// The requests-per-minute counter.
    Requests,
}

/// What a limit check asks for next.
pub enum LimitStep {
    /// Add one to the counter under `key`, ask for it to expire after
    /// `ttl_secs` seconds, and report its new value for `stage`.
    Count { key: String, ttl_secs: u64, stage: LimitStage },
    /// The check is over: the request passes, or is refused.
    Verdict(Result<(), HookError>),
}

/// Seconds a per-minute counter outlives its window.
pub open spec fn counter_ttl() -> u64 {
    90
}

/// `s` asks for the counter of `kind` (`tpm` or `rpm`) of `auth`'s key in
/// `window`, for `stage`.
pub open spec fn is_count_of(s: LimitStep, auth: AuthContext, kind: Seq<char>, window: u64, stage: LimitStage) -> bool {
    s matches LimitStep::Count { key, ttl_secs, stage: st } && key@ == limit_key(auth.key_id@, kind, window)
        && ttl_secs == counter_ttl() && st == stage
}

/// `s` refuses the request because the counter of `kind` reached `current`
/// above `limit`.
pub open spec fn is_refusal(s: LimitStep, kind: Seq<char>, limit: u32, current: u32) -> bool {
    s matches LimitStep::Verdict(Err(HookError::RateLimitExceeded(m))) && m@ == over_limit(kind, limit, current)
}

/// The step that follows a counter of `stage` reaching `current`: the
/// token counter is checked first, then the request counter.
pub open spec fn is_step_after(auth: AuthContext, window: u64, stage: LimitStage, current: u32, s: LimitStep) -> bool {
    match stage {
        LimitStage::Tokens => if exceeds(auth.tpm_limit, current) {
            is_refusal(s, "tpm"@, auth.tpm_limit->0, current)
        } else {
            is_count_of(s, auth, "rpm"@, window, LimitStage::Requests)
        },
        LimitStage::Requests => if exceeds(auth.rpm_limit, current) {
            is_refusal(s, "rpm"@, auth.rpm_limit->0, current)
        } else {
            s matches LimitStep::Verdict(Ok(()))
        },
    }
}

/// Refuses requests of keys above their per-minute limits.
pub struct ParallelRequestLimiter;

impl ParallelRequestLimiter {
    /// A limiter; its counters live in the cache handed to each call.
    pub fn new() -> Self {
        ParallelRequestLimiter
    }

    /// The first step of a check in minute `window`: count the request
    /// against the key's token counter.
    pub fn first_step(&self, auth: &AuthContext, window: u64) -> (s: LimitStep)
        ensures
            is_count_of(s, *auth, "tpm"@, window, LimitStage::Tokens),
    {
        LimitStep::Count { key: key_for(auth.key_id.as_str(), "tpm", window), ttl_secs: 90, stage: LimitStage::Tokens }
    }

    /// The step after the counter of `stage` reached `current` in minute
    /// `window`.
    pub fn next_step(&self, auth: &AuthContext, window: u64, stage: LimitStage, current: u32) -> (s: LimitStep)
        ensures
            is_step_after(*auth, window, stage, current, s),
    {
        match stage {
            LimitStage::Tokens => {
                if let Some(limit) = auth.tpm_limit {
                    if current > limit {
                        return LimitStep::Verdict(Err(HookError::RateLimitExceeded(over_limit_text("tpm", limit, current))));
                    }
                }
                LimitStep::Count {
                    key: key_for(auth.key_id.as_str(), "rpm", window),
                    ttl_secs: 90,
                    stage: LimitStage::Requests,
                }
            },
            LimitStage::Requests => {
                if let Some(limit) = auth.rpm_limit {
                    if current > limit {
                        return LimitStep::Verdict(Err(HookError::RateLimitExceeded(over_limit_text("rpm", limit, current))));
                    }
                }
                LimitStep::Verdict(Ok(()))
            },
        }
    }

    /// Counts the request in minute `window` and checks the key's limits:
    /// the token counter first (a refusal there leaves the request counter
    /// untouched), then the request counter.
    pub fn pre_call_in(&self, auth: &AuthContext, cache: &mut DualCache, window: u64) -> (r: Result<(), HookError>)
        requires
            old(cache).wf(),
        ensures
            final(cache).wf(),
            final(cache).values() == old(cache).values(),
            final(cache).lists() == old(cache).lists(),
            is_limit_check(*auth, window, old(cache).counters(), final(cache).counters(), r),
            final(cache).wall_readings() == old(cache).wall_readings(),
    {
        let mut step = self.first_step(auth, window);
        let ghost c0 = old(cache).counters();
        let mut counted: u32 = 0;
        while counted < 2
            invariant
                0 <= counted <= 2,
                c0 == old(cache).counters(),
                cache.wf(),
                cache.wall_readings() == old(cache).wall_readings(),
                cache.values() == old(cache).values(),
                cache.lists() == old(cache).lists(),
                ({
                    let tk = limit_key(auth.key_id@, "tpm"@, window);
                    let rk = limit_key(auth.key_id@, "rpm"@, window);
                    let t = next_count(c0, tk);
                    let c1 = c0.insert(tk, t);
                    let q = next_count(c1, rk);
                    &&& counted == 0 ==> cache.counters() == c0 && is_count_of(step, *auth, "tpm"@, window, LimitStage::Tokens)
                    &&& counted == 1 ==> cache.counters() == c1 && is_step_after(*auth, window, LimitStage::Tokens, t, step)
                    &&& counted == 2 ==> cache.counters() == c1.insert(rk, q) && !exceeds(auth.tpm_limit, t)
                        && is_step_after(*auth, window, LimitStage::Requests, q, step)
                }),
            decreases 2 - counted,
        {
            match step {
                LimitStep::Count { key, ttl_secs, stage } => {
                    let current = match cache.incr(key.as_str()) {
                        Ok(n) => n,
                        Err(e) => {
                            return Err(HookError::Internal(e));
                        },
                    };
                    cache.expire(key.as_str(), ttl_secs);
                    step = self.next_step(auth, window, stage, current);
                    counted = counted + 1;
                },
                LimitStep::Verdict(v) => {
                    return v;
                },
            }
        }
        match step {
            LimitStep::Verdict(v) => v,
            LimitStep::Count { .. } => {
                proof {
                    assert(false);
                }
                Ok(())
            },
        }
    }

    /// Counts the request in the current minute and checks the key's
    /// limits, as [`Self::pre_call_in`] does for that minute.
    pub fn pre_call(&self, auth: &AuthContext, cache: &mut DualCache) -> (r: Result<(), HookError>)
        requires
            old(cache).wf(),
        ensures
            final(cache).wf(),
            final(cache).values() == old(cache).values(),
            final(cache).lists() == old(cache).lists(),
            exists|now: u64| is_limit_check(*auth, #[trigger] minute_window(now), old(cache).counters(), final(cache).counters(), r),
            final(cache).wall_readings().len() == old(cache).wall_readings().len() + 1,
            final(cache).wall_readings().drop_last() == old(cache).wall_readings(),
            is_limit_check(
                *auth,
                minute_window(final(cache).wall_readings().last()),
                old(cache).counters(),
                final(cache).counters(),
                r,
            ),
    {
        let now = cache.read_wall_clock();
        let window = minute_window_of(now);
        self.pre_call_in(auth, cache, window)
    }
}

/// The window a request is counted in is the minute holding the clock
/// reading: it starts on a whole minute, at or before the reading, less than
/// a minute before it; so readings in different minutes fall in different
/// windows.
pub proof fn lemma_minute_window_holds_reading(t: u64, u: u64)
    ensures
        minute_window(t) % 60 == 0,
        minute_window(t) <= t < minute_window(t) + 60,
        t / 60 != u / 60 ==> minute_window(t) != minute_window(u),
{
    assert((t / 60 * 60) % 60 == 0 && t / 60 * 60 <= t < t / 60 * 60 + 60) by (nonlinear_arith);
    assert(t / 60 != u / 60 ==> t / 60 * 60 != u / 60 * 60) by (nonlinear_arith);
}

/// Counters of different minute windows are kept under different keys, so
/// each minute starts counting afresh.
pub proof fn lemma_windows_separate(id: Seq<char>, kind: Seq<char>, w1: u64, w2: u64)
    requires
        w1 != w2,
    ensures
        limit_key(id, kind, w1) != limit_key(id, kind, w2),
{
    let prefix = "key:"@ + id + ":"@ + kind + ":"@;
    if limit_key(id, kind, w1) == limit_key(id, kind, w2) {
        assert(limit_key(id, kind, w1).skip(prefix.len() as int) =~= decimal(w1 as nat));
        assert(limit_key(id, kind, w2).skip(prefix.len() as int) =~= decimal(w2 as nat));
        crate::text::lemma_decimal_injective(w1 as nat, w2 as nat);
    }
}

} // verus!
