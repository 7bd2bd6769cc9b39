//! Per-deployment cooldowns and consecutive-failure counts.

use vstd::prelude::*;

use crate::strmap::StrMap;

verus! {

/// `now` plus `ttl_secs` seconds, in milliseconds, saturating at `u64::MAX`.
pub open spec fn cooldown_end(now_ms: u64, ttl_secs: u64) -> u64 {
    if now_ms + ttl_secs * 1000 > u64::MAX {
        u64::MAX
    } else {
        (now_ms + ttl_secs * 1000) as u64
    }
}

/// One event recorded for a deployment.
pub enum CooldownEvent {
    /// `mark_at(id, ttl_secs, at_ms)`.
    Marked { id: Seq<char>, ttl_secs: u64, at_ms: u64 },
    /// `record_success(id)`.
    Succeeded { id: Seq<char> },
    /// `record_failure(id)`.
    Failed { id: Seq<char> },
}

/// The cooldown ends after the event `e`, from `ends`: only a mark
/// changes them.
pub open spec fn ends_after_event(ends: Map<Seq<char>, u64>, e: CooldownEvent) -> Map<Seq<char>, u64> {
    match e {
        CooldownEvent::Marked { id, ttl_secs, at_ms } => ends.insert(id, cooldown_end(at_ms, ttl_secs)),
        _ => ends,
    }
}

/// The cooldown ends after the events `es`, in order, from `ends`.
pub open spec fn ends_after(ends: Map<Seq<char>, u64>, es: Seq<CooldownEvent>) -> Map<Seq<char>, u64>
    decreases es.len(),
{
    if es.len() == 0 {
        ends
    } else {
        ends_after_event(ends_after(ends, es.drop_last()), es.last())
    }
}

/// The length and start of the last mark of `id` among `es`, if any.
pub open spec fn last_mark(es: Seq<CooldownEvent>, id: Seq<char>) -> Option<(u64, u64)>
    decreases es.len(),
{
    if es.len() == 0 {
        None
    } else {
        match es.last() {
            CooldownEvent::Marked { id: m, ttl_secs, at_ms } if m == id => Some((ttl_secs, at_ms)),
            _ => last_mark(es.drop_last(), id),
        }
    }
}

/// The cooldown state of every deployment: the time each cooldown ends, and
/// the consecutive failures recorded since the last success or cooldown.
/// Times are milliseconds on the monotonic clock since the manager was
/// made.
pub struct CooldownManager {
    until: StrMap<u64>,
    failures: StrMap<u32>,
    origin: std::time::Instant,
    readings: Ghost<Seq<u64>>,
}

impl CooldownManager {
    /// When each marked deployment's cooldown ends.
    pub closed spec fn ends(&self) -> Map<Seq<char>, u64> {
        self.until.view()
    }

    /// The consecutive failures recorded for each deployment.
    pub closed spec fn failure_counts(&self) -> Map<Seq<char>, u32> {
        self.failures.view()
    }

    /// The clock readings taken by [`Self::mark`], oldest first.
    pub closed spec fn readings(&self) -> Seq<u64> {
        self.readings@
    }

    /// The internal maps are well formed.
    pub closed spec fn wf(&self) -> bool {
        self.until.wf() && self.failures.wf()
    }

    /// Whether deployment `id` is cooling down at time `now_ms`.
    pub open spec fn cooling_at(&self, id: Seq<char>, now_ms: u64) -> bool {
        self.ends().dom().contains(id) && self.ends()[id] > now_ms
    }

    /// The consecutive failures recorded for `id` (zero when none).
    pub open spec fn failures_of(&self, id: Seq<char>) -> u32 {
        if self.failure_counts().dom().contains(id) {
            self.failure_counts()[id]
        } else {
            0
        }
    }

    /// A manager with no cooldown and no failure.
    pub fn new_in_memory() -> (m: Self)
        ensures
            m.wf(),
            m.ends() == Map::<Seq<char>, u64>::empty(),
            m.failure_counts() == Map::<Seq<char>, u32>::empty(),
    {
        CooldownManager {
            until: StrMap::new(),
            failures: StrMap::new(),
            origin: crate::clock::monotonic_now(),
            readings: Ghost(Seq::empty()),
        }
    }

    /// The manager's clock: milliseconds on the monotonic clock since the
    /// manager was made. Nothing is promised of the reading.
    pub fn clock_ms(&self) -> u64 {
        crate::clock::millis_since(&self.origin)
    }

    /// Reads the manager's clock and notes the reading.
    fn read_clock(&mut self) -> (r: u64)
        ensures
            final(self).readings() == old(self).readings().push(r),
            final(self).ends() == old(self).ends(),
            final(self).failure_counts() == old(self).failure_counts(),
            old(self).wf() ==> final(self).wf(),
    {
        let r = self.clock_ms();
        self.readings = Ghost(self.readings@.push(r));
        r
    }

    /// Puts `id` in cooldown for `ttl_secs` seconds from `now_ms` and clears
    /// its failure count.
    pub fn mark_at(&mut self, id: &str, ttl_secs: u64, now_ms: u64)
        requires
            old(self).wf(),
        ensures
            final(self).wf(),
            final(self).ends() == old(self).ends().insert(id@, cooldown_end(now_ms, ttl_secs)),
            final(self).failure_counts() == old(self).failure_counts().remove(id@),
            final(self).ends() == ends_after_event(
                old(self).ends(),
                CooldownEvent::Marked { id: id@, ttl_secs, at_ms: now_ms },
            ),
            final(self).readings() == old(self).readings(),
    {
        let end: u64 = if ttl_secs > (u64::MAX - now_ms) / 1000 {
            u64::MAX
        } else {
            now_ms + ttl_secs * 1000
        };
        assert(end == cooldown_end(now_ms, ttl_secs)) by (nonlinear_arith)
            requires
                ttl_secs > (u64::MAX - now_ms) / 1000 ==> end == u64::MAX,
                ttl_secs <= (u64::MAX - now_ms) / 1000 ==> end == now_ms + ttl_secs * 1000,
        ;
        self.until.insert(id, end);
        self.failures.remove(id);
    }

    /// Puts `id` in cooldown for `ttl_secs` seconds from now on the
    /// manager's clock. Never fails.
    pub fn mark(&mut self, id: &str, ttl_secs: u64) -> (r: Result<(), String>)
        requires
            old(self).wf(),
        ensures
            final(self).wf(),
            r is Ok,
            exists|now: u64| final(self).ends() == old(self).ends().insert(id@, #[trigger] cooldown_end(now, ttl_secs)),
            final(self).failure_counts() == old(self).failure_counts().remove(id@),
            final(self).readings().len() == old(self).readings().len() + 1,
            final(self).readings().drop_last() == old(self).readings(),
            final(self).ends() == old(self).ends().insert(id@, cooldown_end(final(self).readings().last(), ttl_secs)),
    {
        let now = self.read_clock();
        self.mark_at(id, ttl_secs, now);
        assert(self.readings@.drop_last() =~= old(self).readings@);
        assert(final(self).ends() == old(self).ends().insert(id@, cooldown_end(now, ttl_secs)));
        Ok(())
    }

    /// Whether `id` is cooling down at time `now_ms`.
    pub fn is_cooling_down_at(&self, id: &str, now_ms: u64) -> (r: bool)
        requires
            self.wf(),
        ensures
            r == self.cooling_at(id@, now_ms),
    {
        match self.until.get(id) {
            Some(end) => *end > now_ms,
            None => false,
        }
    }

    /// Whether `id` is cooling down now, on the manager's clock.
    pub fn is_cooling_down(&self, id: &str) -> (r: bool)
        requires
            self.wf(),
        ensures
            exists|now: u64| r == #[trigger] self.cooling_at(id@, now),
    {
        let now = self.clock_ms();
        self.is_cooling_down_at(id, now)
    }

    /// Records a failed call of `id` and returns its consecutive failures.
    pub fn record_failure(&mut self, id: &str) -> (n: u32)
        requires
            old(self).wf(),
        ensures
            final(self).wf(),
            n == (if old(self).failures_of(id@) == u32::MAX { u32::MAX as int } else { old(self).failures_of(id@) + 1 }),
            final(self).failure_counts() == old(self).failure_counts().insert(id@, n),
            final(self).ends() == old(self).ends(),
            final(self).ends() == ends_after_event(old(self).ends(), CooldownEvent::Failed { id: id@ }),
            final(self).readings() == old(self).readings(),
    {
        let prev = match self.failures.get(id) {
            Some(c) => *c,
            None => 0,
        };
        let n = prev.saturating_add(1);
        self.failures.insert(id, n);
        n
    }

    /// Records a successful call of `id`, clearing its failure count.
    pub fn record_success(&mut self, id: &str)
        requires
            old(self).wf(),
        ensures
            final(self).wf(),
            final(self).failure_counts() == old(self).failure_counts().remove(id@),
            final(self).ends() == old(self).ends(),
            final(self).ends() == ends_after_event(old(self).ends(), CooldownEvent::Succeeded { id: id@ }),
            final(self).readings() == old(self).readings(),
    {
        self.failures.remove(id);
    }
}

/// A deployment put in cooldown at `now_ms` for `ttl_secs` seconds is
/// cooling down at exactly the instants before the cooldown's end: for the
/// whole `ttl_secs` seconds (up to the last representable instant), and
/// no longer.
pub proof fn lemma_cooldown_window(
    before: CooldownManager,
    after: CooldownManager,
    id: Seq<char>,
    ttl_secs: u64,
    now_ms: u64,
    t: u64,
)
    requires
        after.ends() == before.ends().insert(id, cooldown_end(now_ms, ttl_secs)),
    ensures
        after.cooling_at(id, t) <==> t < cooldown_end(now_ms, ttl_secs),
        now_ms <= t && t < now_ms + ttl_secs * 1000 && t < u64::MAX ==> after.cooling_at(id, t),
        now_ms + ttl_secs * 1000 <= t ==> !after.cooling_at(id, t),
{
}

/// Marking one deployment leaves every other deployment's cooldown as it
/// was.
pub proof fn lemma_cooldown_isolated(
    before: CooldownManager,
    after: CooldownManager,
    id: Seq<char>,
    other: Seq<char>,
    ttl_secs: u64,
    now_ms: u64,
    t: u64,
)
    requires
        after.ends() == before.ends().insert(id, cooldown_end(now_ms, ttl_secs)),
        other != id,
    ensures
        after.cooling_at(other, t) == before.cooling_at(other, t),
{
}

/// A deployment just put in cooldown for a positive time is cooling down at
/// the clock reading the mark took (unless that reading is the clock's
/// last representable instant), and stays so until the reading plus the
/// cooldown time.
pub proof fn lemma_marked_cools_from_reading(
    before: CooldownManager,
    after: CooldownManager,
    id: Seq<char>,
    ttl_secs: u64,
    t: u64,
)
    requires
        after.readings().len() > 0,
        after.ends() == before.ends().insert(id, cooldown_end(after.readings().last(), ttl_secs)),
        ttl_secs > 0,
        after.readings().last() < u64::MAX,
    ensures
        after.cooling_at(id, after.readings().last()),
        after.readings().last() <= t < after.readings().last() + ttl_secs * 1000 && t < u64::MAX ==> after.cooling_at(id, t),
{
}

/// A success, and likewise a cooldown, clears the deployment's count of
/// consecutive failures.
pub proof fn lemma_failures_cleared(before: CooldownManager, after: CooldownManager, id: Seq<char>)
    requires
        after.failure_counts() == before.failure_counts().remove(id),
    ensures
        after.failures_of(id) == 0,
{
}

/// Each failure adds one to the deployment's count of consecutive
/// failures (the count stops at `u32::MAX`).
pub proof fn lemma_failure_counted(before: CooldownManager, after: CooldownManager, id: Seq<char>, n: u32)
    requires
        n == (if before.failures_of(id) == u32::MAX { u32::MAX as int } else { before.failures_of(id) + 1 }),
        after.failure_counts() == before.failure_counts().insert(id, n),
    ensures
        before.failures_of(id) < u32::MAX ==> after.failures_of(id) == before.failures_of(id) + 1,
{
}

/// Over any history of marks, successes and failures from a fresh
/// manager, a deployment is cooling down at `now_ms` exactly when it was
/// marked and `now_ms` is before the end of its last cooldown; one never
/// marked, or last marked for zero seconds at or before `now_ms`, is not
/// cooling down, and events of other deployments do not matter.
pub proof fn lemma_cooldown_history(es: Seq<CooldownEvent>, id: Seq<char>, now_ms: u64)
    ensures
        ({
            let ends = ends_after(Map::empty(), es);
            (ends.dom().contains(id) && ends[id] > now_ms) == match last_mark(es, id) {
                Some((ttl_secs, at_ms)) => now_ms < cooldown_end(at_ms, ttl_secs),
                None => false,
            }
        }),
    decreases es.len(),
{
    if es.len() > 0 {
        lemma_cooldown_history(es.drop_last(), id, now_ms);
    }
}

} // verus!
