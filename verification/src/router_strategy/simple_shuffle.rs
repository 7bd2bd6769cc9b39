//! Uniformly random choice.

use vstd::prelude::*;

use super::{DeploymentInfo, NoopTracking};
use crate::provider::ProviderError;
use crate::types::ModelResponse;

verus! {

/// Picks a deployment at random.
pub struct SimpleShuffleStrategy;

impl SimpleShuffleStrategy {
    /// The strategy's configuration name.
    pub fn name(&self) -> (r: &'static str)
        ensures
            r@ == "simple_shuffle"@,
    {
        "simple_shuffle"
    }

    /// The deployment at a random position of the (non-empty) list.
    pub fn select_deployment<'a>(&self, deployments: &'a Vec<DeploymentInfo>) -> (r: Option<&'a DeploymentInfo>)
        requires
            deployments@.len() > 0,
        ensures
            r matches Some(d) && exists|i: int| 0 <= i < deployments@.len() && *d == deployments@[i],
    {
        let idx = crate::clock::random_usize() % deployments.len();
        Some(&deployments[idx])
    }

    /// Records nothing.
    pub fn track_success(&self, d: &DeploymentInfo, r: &ModelResponse, dur: Option<u64>) {
        NoopTracking.track_success(d, r, dur);
    }

    /// Records nothing.
    pub fn track_failure(&self, d: &DeploymentInfo, e: &ProviderError) {
        NoopTracking.track_failure(d, e);
    }
}

} // verus!
