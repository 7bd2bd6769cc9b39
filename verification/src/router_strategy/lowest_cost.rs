//! Cheapest deployment first.

use vstd::prelude::*;

use super::{DeploymentInfo, NoopTracking};
use crate::provider::ProviderError;
use crate::types::ModelResponse;

verus! {

/// The order key of the largest finite price, used for deployments with no
/// price.
pub const MAX_PRICE_KEY: u64 = 0xFFEF_FFFF_FFFF_FFFFu64;

/// The price order key of a deployment.
pub open spec fn price_key(d: DeploymentInfo) -> u64 {
    match d.prompt_price {
        Some(k) => k,
        None => MAX_PRICE_KEY,
    }
}

/// `i` is the first position of a cheapest deployment of `ds`.
pub open spec fn is_first_cheapest(ds: Seq<DeploymentInfo>, i: int) -> bool {
    &&& 0 <= i < ds.len()
    &&& forall|j: int| 0 <= j < ds.len() ==> price_key(ds[j]) >= price_key(ds[i])
    &&& forall|j: int| 0 <= j < i ==> price_key(ds[j]) > price_key(ds[i])
}

/// Picks the deployment with the lowest prompt price.
pub struct LowestCostStrategy;

impl LowestCostStrategy {
    /// The strategy's configuration name.
    pub fn name(&self) -> (r: &'static str)
        ensures
            r@ == "lowest_cost"@,
    {
        "lowest_cost"
    }

    /// The first deployment with the lowest prompt price; `None` for an
    /// empty list.
    pub fn select_deployment<'a>(&self, deployments: &'a Vec<DeploymentInfo>) -> (r: Option<&'a DeploymentInfo>)
        ensures
            r is None <==> deployments@.len() == 0,
            r matches Some(d) ==> exists|i: int| is_first_cheapest(deployments@, i) && *d == deployments@[i],
    {
        if deployments.len() == 0 {
            return None;
        }
        let mut best: usize = 0;
        let mut i: usize = 1;
        while i < deployments.len()
            invariant
                0 <= best < i <= deployments@.len(),
                forall|j: int| 0 <= j < i ==> price_key(deployments@[j]) >= price_key(deployments@[best as int]),
                forall|j: int| 0 <= j < best ==> price_key(deployments@[j]) > price_key(deployments@[best as int]),
            decreases deployments@.len() - i,
        {
            let kb = match deployments[best].prompt_price {
                Some(k) => k,
                None => MAX_PRICE_KEY,
            };
            let ki = match deployments[i].prompt_price {
                Some(k) => k,
                None => MAX_PRICE_KEY,
            };
            if kb > ki {
                best = i;
            }
            i = i + 1;
        }
        Some(&deployments[best])
    }

    /// Records nothing.
    pub fn track_success(&self, d: &DeploymentInfo, r: &ModelResponse, dur: Option<u64>) {
        NoopTracking.track_success(d, r, dur);
    }

    /// Records nothing.
    pub fn track_failure(&self, d: &DeploymentInfo, e: &ProviderError) {
        NoopTracking.track_failure(d, e);
    }
}

} // verus!
