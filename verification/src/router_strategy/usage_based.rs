//! Least-used deployment first, by the share of its per-minute token and
//! request limits already used.
//!
//! Usage counters live in the shared cache under
//! `strategy:usage:{model}:{provider}:tpm` and `...:rpm`. A deployment's
//! load is the larger of its two shares; shares are compared exactly, as
//! fractions.

use vstd::prelude::*;

use super::{lemma_fraction_order, stat_key, stat_key_of, DeploymentInfo};
use crate::cache::{lookup, next_count, DualCache};
use crate::provider::ProviderError;
use crate::text::{count_of_opt, parse_count};
use crate::types::ModelResponse;

verus! {

/// The token counter key of a deployment.
pub open spec fn tpm_key(d: DeploymentInfo) -> Seq<char> {
    stat_key("strategy:usage:"@, d, ":tpm"@)
}

/// The request counter key of a deployment.
pub open spec fn rpm_key(d: DeploymentInfo) -> Seq<char> {
    stat_key("strategy:usage:"@, d, ":rpm"@)
}

/// A configured limit, `u32::MAX` when there is none.
pub open spec fn limit_or_max(l: Option<u32>) -> int {
    match l {
        Some(x) => x as int,
        None => u32::MAX as int,
    }
}

/// The share `current / limit` as a fraction; zero when the limit is zero.
pub open spec fn share(current: int, limit: int) -> (int, int) {
    if limit > 0 {
        (current, limit)
    } else {
        (0, 1)
    }
}

/// The fraction `a` is below the fraction `b`.
pub open spec fn frac_below(a: (int, int), b: (int, int)) -> bool {
    a.0 * b.1 < b.0 * a.1
}

/// The larger of two fractions.
pub open spec fn frac_max(a: (int, int), b: (int, int)) -> (int, int) {
    if frac_below(a, b) {
        b
    } else {
        a
    }
}

/// The load of `d` given the cache's stored values and counters: the larger
/// of its token share and its request share.
pub open spec fn load(values: Map<Seq<char>, Seq<char>>, counters: Map<Seq<char>, u32>, d: DeploymentInfo) -> (int, int) {
    frac_max(
        share(count_of_opt(lookup(values, counters, tpm_key(d))) as int, limit_or_max(d.tpm_limit)),
        share(count_of_opt(lookup(values, counters, rpm_key(d))) as int, limit_or_max(d.rpm_limit)),
    )
}

/// The share of its per-minute token limit that `d` has used.
pub open spec fn tpm_share(values: Map<Seq<char>, Seq<char>>, counters: Map<Seq<char>, u32>, d: DeploymentInfo) -> (
    int,
    int,
) {
    share(count_of_opt(lookup(values, counters, tpm_key(d))) as int, limit_or_max(d.tpm_limit))
}

/// The share of its per-minute request limit that `d` has used.
pub open spec fn rpm_share(values: Map<Seq<char>, Seq<char>>, counters: Map<Seq<char>, u32>, d: DeploymentInfo) -> (
    int,
    int,
) {
    share(count_of_opt(lookup(values, counters, rpm_key(d))) as int, limit_or_max(d.rpm_limit))
}

/// A deployment's load is the larger of its two shares: it is one of the
/// token and request shares, and neither share is above it.
pub proof fn lemma_load_is_larger_share(values: Map<Seq<char>, Seq<char>>, counters: Map<Seq<char>, u32>, d: DeploymentInfo)
    ensures
        load(values, counters, d) == tpm_share(values, counters, d) || load(values, counters, d) == rpm_share(
            values,
            counters,
            d,
        ),
        !frac_below(load(values, counters, d), tpm_share(values, counters, d)),
        !frac_below(load(values, counters, d), rpm_share(values, counters, d)),
{
}

/// `d` carries less load than `e`.
pub open spec fn less_loaded(
    values: Map<Seq<char>, Seq<char>>,
    counters: Map<Seq<char>, u32>,
    d: DeploymentInfo,
    e: DeploymentInfo,
) -> bool {
    frac_below(load(values, counters, d), load(values, counters, e))
}

/// Picks the deployment with the smallest share of its limits in use.
pub struct UsageBasedStrategy;

impl UsageBasedStrategy {
    /// A usage-based strategy; its counters live in the cache handed to
    /// each call.
    pub fn new() -> Self {
        UsageBasedStrategy
    }

    /// The strategy's configuration name.
    pub fn name(&self) -> (r: &'static str)
        ensures
            r@ == "usage_based"@,
    {
        "usage_based"
    }

    /// The current load of `d`, as a fraction.
    fn load_of(&self, d: &DeploymentInfo, cache: &mut DualCache) -> (r: (u64, u32))
        requires
            old(cache).wf(),
        ensures
            final(cache).wf(),
            final(cache).values() == old(cache).values(),
            final(cache).counters() == old(cache).counters(),
            final(cache).lists() == old(cache).lists(),
            r.1 > 0,
            (r.0 as int, r.1 as int) == load(old(cache).values(), old(cache).counters(), *d),
            (r.0 as int, r.1 as int) == tpm_share(old(cache).values(), old(cache).counters(), *d) || (
            r.0 as int,
            r.1 as int,
            ) == rpm_share(old(cache).values(), old(cache).counters(), *d),
            !frac_below((r.0 as int, r.1 as int), tpm_share(old(cache).values(), old(cache).counters(), *d)),
            !frac_below((r.0 as int, r.1 as int), rpm_share(old(cache).values(), old(cache).counters(), *d)),
    {
        let tk = stat_key_of("strategy:usage:", d, ":tpm");
        let rk = stat_key_of("strategy:usage:", d, ":rpm");
        let tpm = match cache.get(tk.as_str()) {
            Some(v) => parse_count(v.as_str()),
            None => 0,
        };
        let rpm = match cache.get(rk.as_str()) {
            Some(v) => parse_count(v.as_str()),
            None => 0,
        };
        let tl: u32 = match d.tpm_limit {
            Some(x) => x,
            None => u32::MAX,
        };
        let rl: u32 = match d.rpm_limit {
            Some(x) => x,
            None => u32::MAX,
        };
        let a: (u64, u32) = if tl > 0 { (tpm, tl) } else { (0, 1) };
        let b: (u64, u32) = if rl > 0 { (rpm, rl) } else { (0, 1) };
        if mul_wide(a.0, b.1) < mul_wide(b.0, a.1) {
            b
        } else {
            a
        }
    }

    /// The first deployment with the smallest load; `None` for an empty
    /// list. The cache's contents are left as they were.
    pub fn select_deployment<'a>(&self, deployments: &'a Vec<DeploymentInfo>, cache: &mut DualCache) -> (r: Option<
        &'a DeploymentInfo,
    >)
        requires
            old(cache).wf(),
        ensures
            final(cache).wf(),
            final(cache).values() == old(cache).values(),
            final(cache).counters() == old(cache).counters(),
            final(cache).lists() == old(cache).lists(),
            r is None <==> deployments@.len() == 0,
            r matches Some(d) ==> exists|i: int|
                0 <= i < deployments@.len() && *d == deployments@[i] && (forall|j: int|
                    0 <= j < deployments@.len() ==> !less_loaded(
                        old(cache).values(),
                        old(cache).counters(),
                        deployments@[j],
                        deployments@[i],
                    )) && (forall|j: int|
                    0 <= j < i ==> less_loaded(old(cache).values(), old(cache).counters(), deployments@[i], deployments@[j])),
    {
        if deployments.len() == 0 {
            return None;
        }
        let ghost values = cache.values();
        let ghost counters = cache.counters();
        let mut best: usize = 0;
        let mut best_load = self.load_of(&deployments[0], cache);
        let mut i: usize = 1;
        while i < deployments.len()
            invariant
                cache.wf(),
                cache.values() == values,
                cache.counters() == counters,
                cache.lists() == old(cache).lists(),
                values == old(cache).values(),
                counters == old(cache).counters(),
                0 <= best < i <= deployments@.len(),
                best_load.1 > 0,
                (best_load.0 as int, best_load.1 as int) == load(values, counters, deployments@[best as int]),
                forall|j: int| 0 <= j < i ==> !less_loaded(values, counters, deployments@[j], deployments@[best as int]),
                forall|j: int| 0 <= j < best ==> less_loaded(values, counters, deployments@[best as int], deployments@[j]),
            decreases deployments@.len() - i,
        {
            let l = self.load_of(&deployments[i], cache);
            if mul_wide(l.0, best_load.1) < mul_wide(best_load.0, l.1) {
                proof {
                    let li = load(values, counters, deployments@[i as int]);
                    let lb = load(values, counters, deployments@[best as int]);
                    assert forall|j: int| 0 <= j < i + 1 implies !less_loaded(
                        values,
                        counters,
                        deployments@[j],
                        deployments@[i as int],
                    ) && (j < i ==> less_loaded(values, counters, deployments@[i as int], deployments@[j])) by {
                        if j < i {
                            let lj = load(values, counters, deployments@[j]);
                            lemma_load_den(values, counters, deployments@[j]);
                            lemma_fraction_order(li.0, li.1, lb.0, lb.1, lj.0, lj.1);
                        }
                    }
                }
                best = i;
                best_load = l;
            }
            i = i + 1;
        }
        Some(&deployments[best])
    }

    /// Counts one more request and one more token unit for `deployment`.
    pub fn track_success(
        &self,
        deployment: &DeploymentInfo,
        _response: &ModelResponse,
        _duration_ms: Option<u64>,
        cache: &mut DualCache,
    )
        requires
            old(cache).wf(),
        ensures
            final(cache).wf(),
            final(cache).values() == old(cache).values(),
            final(cache).lists() == old(cache).lists(),
            ({
                let c1 = old(cache).counters().insert(tpm_key(*deployment), next_count(old(cache).counters(), tpm_key(*deployment)));
                final(cache).counters() == c1.insert(rpm_key(*deployment), next_count(c1, rpm_key(*deployment)))
            }),
    {
        let tk = stat_key_of("strategy:usage:", deployment, ":tpm");
        let rk = stat_key_of("strategy:usage:", deployment, ":rpm");
        let _ = cache.incr(tk.as_str());
        let _ = cache.incr(rk.as_str());
        cache.expire(tk.as_str(), 60);
        cache.expire(rk.as_str(), 60);
    }

    /// Failures are not counted.
    pub fn track_failure(&self, _deployment: &DeploymentInfo, _error: &ProviderError) {
    }
}

/// The product of a count and a limit, exactly.
fn mul_wide(x: u64, y: u32) -> (r: u128)
    ensures
        r == x * y,
{
    assert(x * y < 0x1_0000_0000_0000_0000_0000_0000) by (nonlinear_arith)
        requires
            x < 0x1_0000_0000_0000_0000,
            y < 0x1_0000_0000,
    ;
    (x as u128) * (y as u128)
}

proof fn lemma_load_den(values: Map<Seq<char>, Seq<char>>, counters: Map<Seq<char>, u32>, d: DeploymentInfo)
    ensures
        load(values, counters, d).1 > 0,
{
}

} // verus!
