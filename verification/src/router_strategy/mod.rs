//! Routing strategies: each picks one deployment among candidates.

use vstd::prelude::*;

use crate::cache::{next_count, DualCache};
use crate::config::RouterSettings;
use crate::provider::ProviderError;
use crate::types::{ChatRequest, ModelResponse};

pub mod lowest_cost;
pub mod lowest_latency;

pub mod simple_shuffle;
pub mod tag_based;
pub mod usage_based;


verus! {

/// A deployment as seen by the routing strategies.
///
/// `prompt_price` and `completion_price` hold, for each configured price,
/// an integer that orders as the prices do (prices are decimal numbers in
/// the configuration).
pub struct DeploymentInfo {
    pub model_name: String,
    pub provider: String,
    pub prompt_price: Option<u64>,
    pub completion_price: Option<u64>,
    pub tpm_limit: Option<u32>,
    pub rpm_limit: Option<u32>,
    pub tags: Vec<String>,
}

/// Outcome tracking for strategies that keep no statistics.
pub struct NoopTracking;

impl NoopTracking {
    /// Records nothing.
    pub fn track_success(&self, _d: &DeploymentInfo, _r: &ModelResponse, _dur: Option<u64>) {
    }

    /// Records nothing.
    pub fn track_failure(&self, _d: &DeploymentInfo, _e: &ProviderError) {
    }
}

/// Comparing fractions with positive denominators is transitive: if
/// `n1/d1 < n2/d2` and `n2/d2 <= n3/d3`, then `n1/d1 < n3/d3`.
pub(crate) proof fn lemma_fraction_order(n1: int, d1: int, n2: int, d2: int, n3: int, d3: int)
    requires
        d1 > 0,
        d2 > 0,
        d3 > 0,
        n1 * d2 < n2 * d1,
        !(n3 * d2 < n2 * d3),
    ensures
        n1 * d3 < n3 * d1,
        !(n3 * d1 < n1 * d3),
{
    assert(n1 * d2 * d3 < n2 * d1 * d3) by (nonlinear_arith)
        requires
            n1 * d2 < n2 * d1,
            d3 > 0,
    ;
    assert(n2 * d3 * d1 <= n3 * d2 * d1) by (nonlinear_arith)
        requires
            n2 * d3 <= n3 * d2,
            d1 > 0,
    ;
    assert(n1 * d3 * d2 < n3 * d1 * d2) by (nonlinear_arith)
        requires
            n1 * d2 * d3 < n2 * d1 * d3,
            n2 * d3 * d1 <= n3 * d2 * d1,
    ;
    assert(n1 * d3 < n3 * d1) by (nonlinear_arith)
        requires
            n1 * d3 * d2 < n3 * d1 * d2,
            d2 > 0,
    ;
}

/// The key under which per-deployment statistics are kept:
/// `"{prefix}{model_name}:{provider}{suffix}"`.
pub open spec fn stat_key(prefix: Seq<char>, d: DeploymentInfo, suffix: Seq<char>) -> Seq<char> {
    prefix + d.model_name@ + ":"@ + d.provider@ + suffix
}

/// The statistics key of a deployment.
pub fn stat_key_of(prefix: &str, d: &DeploymentInfo, suffix: &str) -> (r: String)
    ensures
        r@ == stat_key(prefix@, *d, suffix@),
{
    let mut r = crate::text::owned(prefix);
    crate::text::append_str(&mut r, d.model_name.as_str());
    crate::text::append_str(&mut r, ":");
    crate::text::append_str(&mut r, d.provider.as_str());
    crate::text::append_str(&mut r, suffix);
    r
}

} // verus!

verus! {

/// The routing strategy in use.
pub enum RoutingStrategy {
    SimpleShuffle(simple_shuffle::SimpleShuffleStrategy),
    LowestCost(lowest_cost::LowestCostStrategy),
    LowestLatency(lowest_latency::LowestLatencyStrategy),
    UsageBased(usage_based::UsageBasedStrategy),
    TagBased(tag_based::TagBasedStrategy),
}

/// The strategy configured by `settings.routing_strategy`: `lowest_cost`,
/// `lowest_latency` (keeping windows of `latency_window_size` values),
/// `usage_based` or `tag_based`; any other
/// name selects `simple_shuffle`.
pub fn build_strategy(settings: &RouterSettings) -> (r: RoutingStrategy)
    ensures
        r.wf(),
        if settings.routing_strategy@ == "lowest_cost"@ {
            r is LowestCost
        } else if settings.routing_strategy@ == "lowest_latency"@ {
            r matches RoutingStrategy::LowestLatency(s) && s.windows() == Map::<Seq<char>, Vec<u64>>::empty()
                && s.window_size() == settings.latency_window_size
        } else if settings.routing_strategy@ == "usage_based"@ {
            r is UsageBased
        } else if settings.routing_strategy@ == "tag_based"@ {
            r is TagBased
        } else {
            r is SimpleShuffle
        },
{
    let name = settings.routing_strategy.as_str();
    if crate::text::str_eq(name, "lowest_cost") {
        RoutingStrategy::LowestCost(lowest_cost::LowestCostStrategy)
    } else if crate::text::str_eq(name, "lowest_latency") {
        RoutingStrategy::LowestLatency(lowest_latency::LowestLatencyStrategy::new(settings.latency_window_size))
    } else if crate::text::str_eq(name, "usage_based") {
        RoutingStrategy::UsageBased(usage_based::UsageBasedStrategy::new())
    } else if crate::text::str_eq(name, "tag_based") {
        RoutingStrategy::TagBased(tag_based::TagBasedStrategy)
    } else {
        RoutingStrategy::SimpleShuffle(simple_shuffle::SimpleShuffleStrategy)
    }
}

/// `r` is the choice of the first deployment `i` that `best(i, j)` ranks
/// no worse than every other and strictly better than every earlier one;
/// `None` exactly for an empty list.
pub open spec fn first_best(
    ds: Seq<DeploymentInfo>,
    r: Option<DeploymentInfo>,
    better: spec_fn(DeploymentInfo, DeploymentInfo) -> bool,
) -> bool {
    &&& r is None <==> ds.len() == 0
    &&& r matches Some(d) ==> exists|i: int|
        0 <= i < ds.len() && d == ds[i] && (forall|j: int| 0 <= j < ds.len() ==> !better(ds[j], ds[i])) && (forall|
            j: int,
        |
            0 <= j < i ==> better(ds[i], ds[j]))
}

/// The deployment referenced by an optional reference.
pub open spec fn deref_opt(r: Option<&DeploymentInfo>) -> Option<DeploymentInfo> {
    match r {
        Some(d) => Some(*d),
        None => None,
    }
}

impl RoutingStrategy {
    /// The strategy's state is well formed.
    pub open spec fn wf(&self) -> bool {
        match self {
            RoutingStrategy::LowestLatency(s) => s.wf(),
            _ => true,
        }
    }

    /// The strategy's configuration name.
    pub fn name(&self) -> (r: &'static str)
        ensures
            r@ == match self {
                RoutingStrategy::SimpleShuffle(_) => "simple_shuffle"@,
                RoutingStrategy::LowestCost(_) => "lowest_cost"@,
                RoutingStrategy::LowestLatency(_) => "lowest_latency"@,
                RoutingStrategy::UsageBased(_) => "usage_based"@,
                RoutingStrategy::TagBased(_) => "tag_based"@,
            },
    {
        match self {
            RoutingStrategy::SimpleShuffle(s) => s.name(),
            RoutingStrategy::LowestCost(s) => s.name(),
            RoutingStrategy::LowestLatency(s) => s.name(),
            RoutingStrategy::UsageBased(s) => s.name(),
            RoutingStrategy::TagBased(s) => s.name(),
        }
    }

    /// The deployment chosen for `request`, as the strategy in use chooses
    /// it. A random choice needs at least one deployment.
    pub fn select_deployment<'a>(&self, deployments: &'a Vec<DeploymentInfo>, request: &ChatRequest, cache: &mut DualCache) -> (r:
        Option<&'a DeploymentInfo>)
        requires
            self.wf(),
            old(cache).wf(),
            self is SimpleShuffle ==> deployments@.len() > 0,
        ensures
            final(cache).wf(),
            final(cache).values() == old(cache).values(),
            final(cache).counters() == old(cache).counters(),
            final(cache).lists() == old(cache).lists(),
            match self {
                RoutingStrategy::SimpleShuffle(_) => r matches Some(d) && exists|i: int|
                    0 <= i < deployments@.len() && *d == deployments@[i],
                RoutingStrategy::LowestCost(_) => (r is None <==> deployments@.len() == 0) && (r matches Some(d)
                    ==> exists|i: int| lowest_cost::is_first_cheapest(deployments@, i) && *d == deployments@[i]),
                RoutingStrategy::LowestLatency(s) => first_best(
                    deployments@,
                    deref_opt(r),
                    |a: DeploymentInfo, b: DeploymentInfo| s.faster(a, b),
                ),
                RoutingStrategy::UsageBased(_) => first_best(
                    deployments@,
                    deref_opt(r),
                    |a: DeploymentInfo, b: DeploymentInfo|
                        usage_based::less_loaded(old(cache).values(), old(cache).counters(), a, b),
                ),
                RoutingStrategy::TagBased(_) => {
                    let tags = tag_based::requested_tags_of(request.extra@);
                    &&& tags.len() == 0 ==> (if deployments@.len() == 0 {
                        r is None
                    } else {
                        r matches Some(d) && *d == deployments@[0]
                    })
                    &&& tags.len() > 0 ==> match r {
                        Some(d) => exists|i: int|
                            0 <= i < deployments@.len() && *d == deployments@[i] && tag_based::has_all_tags(
                                deployments@[i],
                                tags,
                            ) && forall|j: int| 0 <= j < i ==> !tag_based::has_all_tags(deployments@[j], tags),
                        None => forall|j: int|
                            0 <= j < deployments@.len() ==> !tag_based::has_all_tags(deployments@[j], tags),
                    }
                },
            },
    {
        match self {
            RoutingStrategy::SimpleShuffle(s) => s.select_deployment(deployments),
            RoutingStrategy::LowestCost(s) => s.select_deployment(deployments),
            RoutingStrategy::LowestLatency(s) => s.select_deployment(deployments),
            RoutingStrategy::UsageBased(s) => s.select_deployment(deployments, cache),
            RoutingStrategy::TagBased(s) => {
                let tags = tag_based::requested_tags(request);
                s.select_deployment(deployments, &tags)
            },
        }
    }

    /// Records a successful call: the latency strategy records its
    /// latency, the usage strategy counts it; the others record nothing.
    pub fn track_success(
        &mut self,
        deployment: &DeploymentInfo,
        response: &ModelResponse,
        duration_ms: Option<u64>,
        cache: &mut DualCache,
    )
        requires
            old(self).wf(),
            old(cache).wf(),
        ensures
            final(self).wf(),
            final(cache).wf(),
            final(cache).values() == old(cache).values(),
            final(cache).lists() == old(cache).lists(),
            match *old(self) {
                RoutingStrategy::LowestLatency(s0) => *final(self) matches RoutingStrategy::LowestLatency(s1)
                    && s1.window_size() == s0.window_size() && s1.windows().dom() == s0.windows().dom().insert(
                    lowest_latency::latency_key(*deployment),
                ) && s1.windows()[lowest_latency::latency_key(*deployment)]@ == lowest_latency::slide(
                    lowest_latency::window_at(s0.windows(), lowest_latency::latency_key(*deployment)),
                    match duration_ms {
                        Some(x) => x,
                        None => 0u64,
                    },
                    s0.window_size(),
                ) && (forall|k: Seq<char>|
                    k != lowest_latency::latency_key(*deployment) && #[trigger] s0.windows().dom().contains(k)
                        ==> s1.windows()[k] == s0.windows()[k]) && final(cache).counters() == old(cache).counters(),
                RoutingStrategy::UsageBased(_) => *final(self) == *old(self) && {
                    let tk = usage_based::tpm_key(*deployment);
                    let rk = usage_based::rpm_key(*deployment);
                    let c1 = old(cache).counters().insert(tk, next_count(old(cache).counters(), tk));
                    final(cache).counters() == c1.insert(rk, next_count(c1, rk))
                },
                _ => *final(self) == *old(self) && final(cache).counters() == old(cache).counters(),
            },
    {
        match self {
            RoutingStrategy::LowestLatency(s) => s.track_success(deployment, response, duration_ms),
            RoutingStrategy::UsageBased(s) => s.track_success(deployment, response, duration_ms, cache),
            _ => {},
        }
    }

    /// Records a failed call: the latency strategy records it as the
    /// largest latency; the others record nothing.
    pub fn track_failure(&mut self, deployment: &DeploymentInfo, error: &ProviderError)
        requires
            old(self).wf(),
        ensures
            final(self).wf(),
            match *old(self) {
                RoutingStrategy::LowestLatency(s0) => *final(self) matches RoutingStrategy::LowestLatency(s1)
                    && s1.window_size() == s0.window_size() && s1.windows().dom() == s0.windows().dom().insert(
                    lowest_latency::latency_key(*deployment),
                ) && s1.windows()[lowest_latency::latency_key(*deployment)]@ == lowest_latency::slide(
                    lowest_latency::window_at(s0.windows(), lowest_latency::latency_key(*deployment)),
                    lowest_latency::FAILURE_LATENCY_MS,
                    s0.window_size(),
                ) && (forall|k: Seq<char>|
                    k != lowest_latency::latency_key(*deployment) && #[trigger] s0.windows().dom().contains(k)
                        ==> s1.windows()[k] == s0.windows()[k]),
                _ => *final(self) == *old(self),
            },
    {
        match self {
            RoutingStrategy::LowestLatency(s) => s.track_failure(deployment, error),
            _ => {},
        }
    }
}

} // verus!
