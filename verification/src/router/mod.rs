//! Deployment selection: cooldown filtering, random choice and fallbacks.

use vstd::prelude::*;

use crate::config::ModelEntry;
use crate::strmap::StrMap;
use crate::text::append_str;

pub mod cooldown;

verus! {

/// Why no deployment could be selected.
#[derive(PartialEq, Eq, Structural, Clone, Copy, Debug)]
pub enum RouterError {
    NoAvailableDeployment,
}

/// The cooldown key of a deployment: `"{provider}:{model_name}"`.
pub open spec fn deployment_id(d: ModelEntry) -> Seq<char> {
    d.provider@ + ":"@ + d.model_name@
}

/// The cooldown key of a deployment.
pub fn deployment_key(d: &ModelEntry) -> (r: String)
    ensures
        r@ == deployment_id(*d),
{
    let mut r = d.provider.clone();
    append_str(&mut r, ":");
    append_str(&mut r, d.model_name.as_str());
    r
}

/// The first index of `ds` whose deployment serves `name`.
pub open spec fn first_named(ds: Seq<ModelEntry>, name: Seq<char>) -> Option<int>
    decreases ds.len(),
{
    if ds.len() == 0 {
        None
    } else {
        match first_named(ds.drop_last(), name) {
            Some(i) => Some(i),
            None => if ds.last().model_name@ == name {
                Some(ds.len() - 1)
            } else {
                None
            },
        }
    }
}

/// The deployment a selection yielded, if any.
pub open spec fn chosen(r: Result<&ModelEntry, RouterError>) -> Option<ModelEntry> {
    match r {
        Ok(d) => Some(*d),
        Err(_) => None,
    }
}

/// Selects deployments among configured ones, skipping those in cooldown.
pub struct Router {
    cooldown: cooldown::CooldownManager,
}

impl Router {
    /// The router's cooldown state is well formed.
    pub closed spec fn wf(&self) -> bool {
        self.cooldown.wf()
    }

    /// The cooldown state consulted by the router.
    pub closed spec fn cooldown_view(&self) -> cooldown::CooldownManager {
        self.cooldown
    }

    /// Deployment `d` is not cooling down at `now_ms`.
    pub open spec fn available_at(&self, d: ModelEntry, now_ms: u64) -> bool {
        !self.cooldown_view().cooling_at(deployment_id(d), now_ms)
    }

    /// The deployment the fallback chain `alts` leads to: for each
    /// alternative model in order, the first deployment serving it, kept
    /// when it is not cooling down.
    pub open spec fn fallback_choice(&self, ds: Seq<ModelEntry>, alts: Seq<String>, now_ms: u64) -> Option<int>
        decreases alts.len(),
    {
        if alts.len() == 0 {
            None
        } else {
            match first_named(ds, alts[0]@) {
                Some(j) if self.available_at(ds[j], now_ms) => Some(j),
                _ => self.fallback_choice(ds, alts.drop_first(), now_ms),
            }
        }
    }

    /// `chosen` is a possible outcome of a selection among `ds` at `now`: a
    /// deployment of `ds` not cooling down then, or none when every
    /// deployment is cooling down then.
    pub open spec fn outcome_at(&self, ds: Seq<ModelEntry>, chosen: Option<ModelEntry>, now: u64) -> bool {
        match chosen {
            Some(d) => exists|i: int| 0 <= i < ds.len() && d == ds[i] && #[trigger] self.available_at(ds[i], now),
            None => forall|i: int| 0 <= i < ds.len() ==> !#[trigger] self.available_at(ds[i], now),
        }
    }

    /// A router over the given cooldown state.
    pub fn new(cooldown: cooldown::CooldownManager) -> (r: Self)
        requires
            cooldown.wf(),
        ensures
            r.wf(),
            r.cooldown_view() == cooldown,
    {
        Router { cooldown }
    }

    /// The router's cooldown state.
    pub fn cooldown(&self) -> (r: &cooldown::CooldownManager)
        ensures
            *r == self.cooldown_view(),
    {
        &self.cooldown
    }

    /// The router's cooldown state, for recording outcomes.
    pub fn cooldown_mut(&mut self) -> (r: &mut cooldown::CooldownManager)
        ensures
            *r == old(self).cooldown_view(),
            final(self).cooldown_view() == *final(r),
    {
        &mut self.cooldown
    }

    fn first_named_index(deployments: &Vec<ModelEntry>, name: &str) -> (r: Option<usize>)
        ensures
            r matches Some(i) ==> i < deployments@.len() && first_named(deployments@, name@) == Some(i as int),
            r is None ==> first_named(deployments@, name@) is None,
    {
        let mut i: usize = 0;
        while i < deployments.len()
            invariant
                0 <= i <= deployments@.len(),
                first_named(deployments@.take(i as int), name@) is None,
            decreases deployments@.len() - i,
        {
            assert(deployments@.take(i + 1).drop_last() =~= deployments@.take(i as int));
            if crate::text::str_eq(deployments[i].model_name.as_str(), name) {
                assert(first_named(deployments@.take(i + 1), name@) == Some(i as int));
                proof {
                    lemma_first_named_prefix(deployments@, i as int + 1, name@);
                }
                return Some(i);
            }
            i = i + 1;
        }
        assert(deployments@.take(i as int) =~= deployments@);
        None
    }

    /// The deployment chosen at `now_ms`: one drawn from those serving the
    /// request that are not cooling down; when all are, the result of the
    /// fallback chain configured for `model_name`.
    pub fn select_deployment_at<'a>(
        &self,
        model_name: &str,
        deployments: &'a Vec<ModelEntry>,
        fallbacks: &StrMap<Vec<String>>,
        now_ms: u64,
    ) -> (r: Result<&'a ModelEntry, RouterError>)
        requires
            self.wf(),
            fallbacks.wf(),
        ensures
            (exists|i: int| 0 <= i < deployments@.len() && self.available_at(deployments@[i], now_ms)) ==> (r matches Ok(
                d,
            ) && exists|i: int|
                0 <= i < deployments@.len() && self.available_at(deployments@[i], now_ms) && *d == deployments@[i]),
            (forall|i: int| 0 <= i < deployments@.len() ==> !self.available_at(deployments@[i], now_ms)) ==> ({
                let alts = if fallbacks.view().dom().contains(model_name@) {
                    fallbacks.view()[model_name@]@
                } else {
                    Seq::<String>::empty()
                };
                match self.fallback_choice(deployments@, alts, now_ms) {
                    Some(j) => r matches Ok(d) && *d == deployments@[j],
                    None => r == Err::<&ModelEntry, RouterError>(RouterError::NoAvailableDeployment),
                }
            }),
    {
        let mut available: Vec<usize> = Vec::new();
        let mut i: usize = 0;
        while i < deployments.len()
            invariant
                self.wf(),
                0 <= i <= deployments@.len(),
                forall|k: int| 0 <= k < available@.len() ==> #[trigger] available@[k] < deployments@.len()
                    && self.available_at(deployments@[available@[k] as int], now_ms),
                forall|j: int| 0 <= j < i && self.available_at(deployments@[j], now_ms) ==> available@.contains(
                    j as usize,
                ),
            decreases deployments@.len() - i,
        {
            let id = deployment_key(&deployments[i]);
            let ghost before = available@;
            if !self.cooldown.is_cooling_down_at(id.as_str(), now_ms) {
                available.push(i);
                assert(available@.last() == i);
            }
            assert forall|j: int| 0 <= j < i + 1 && self.available_at(deployments@[j], now_ms) implies available@.contains(
                j as usize,
            ) by {
                if j < i {
                    let k = choose|k: int| 0 <= k < before.len() && before[k] == j as usize;
                    assert(available@[k] == j as usize);
                } else {
                    assert(available@[available@.len() - 1] == i);
                }
            }
            i = i + 1;
        }
        if available.len() > 0 {
            let k = crate::clock::choose_one(&available);
            let ghost idx = choose|m: int| 0 <= m < available@.len() && available@[m] == k;
            assert(self.available_at(deployments@[k as int], now_ms));
            return Ok(&deployments[k]);
        }
        assert forall|j: int| 0 <= j < deployments@.len() implies !self.available_at(deployments@[j], now_ms) by {
            if self.available_at(deployments@[j], now_ms) {
                assert(available@.contains(j as usize));
            }
        }
        match fallbacks.get(model_name) {
            Some(alts) => {
                assert(alts@.skip(0) =~= alts@);
                self.follow_fallbacks(deployments, alts, 0, now_ms)
            },
            None => {
                assert(self.fallback_choice(deployments@, Seq::<String>::empty(), now_ms) is None);
                Err(RouterError::NoAvailableDeployment)
            },
        }
    }

    fn follow_fallbacks<'a>(&self, deployments: &'a Vec<ModelEntry>, alts: &Vec<String>, from: usize, now_ms: u64) -> (r: Result<
        &'a ModelEntry,
        RouterError,
    >)
        requires
            self.wf(),
            from <= alts@.len(),
        ensures
            match self.fallback_choice(deployments@, alts@.skip(from as int), now_ms) {
                Some(j) => r matches Ok(d) && *d == deployments@[j],
                None => r == Err::<&ModelEntry, RouterError>(RouterError::NoAvailableDeployment),
            },
        decreases alts@.len() - from,
    {
        if from >= alts.len() {
            assert(alts@.skip(from as int).len() == 0);
            return Err(RouterError::NoAvailableDeployment);
        }
        let ghost rest = alts@.skip(from as int);
        assert(rest[0] == alts@[from as int]);
        assert(rest.drop_first() =~= alts@.skip(from + 1));
        match Self::first_named_index(deployments, alts[from].as_str()) {
            Some(j) => {
                proof {
                    lemma_first_named_bound(deployments@, alts@[from as int]@);
                }
                let id = deployment_key(&deployments[j]);
                assert(first_named(deployments@, rest[0]@) == Some(j as int));
                assert(id@ == deployment_id(deployments@[j as int]));
                if !self.cooldown.is_cooling_down_at(id.as_str(), now_ms) {
                    assert(self.fallback_choice(deployments@, rest, now_ms) == Some(j as int));
                    Ok(&deployments[j])
                } else {
                    assert(self.fallback_choice(deployments@, rest, now_ms) == self.fallback_choice(
                        deployments@,
                        rest.drop_first(),
                        now_ms,
                    ));
                    self.follow_fallbacks(deployments, alts, from + 1, now_ms)
                }
            },
            None => {
                assert(self.fallback_choice(deployments@, rest, now_ms) == self.fallback_choice(
                    deployments@,
                    rest.drop_first(),
                    now_ms,
                ));
                self.follow_fallbacks(deployments, alts, from + 1, now_ms)
            },
        }
    }

    /// The deployment chosen now; see `select_deployment_at`: one that is
    /// not cooling down at the instant of the choice, or an error when every
    /// deployment is cooling down then.
    pub fn select_deployment<'a>(&self, model_name: &str, deployments: &'a Vec<ModelEntry>, fallbacks: &StrMap<Vec<String>>) -> (r:
        Result<&'a ModelEntry, RouterError>)
        requires
            self.wf(),
            fallbacks.wf(),
        ensures
            exists|now: u64|
                #[trigger] self.outcome_at(deployments@, chosen(r), now),
    {
        let now = self.cooldown.clock_ms();
        let r = self.select_deployment_at(model_name, deployments, fallbacks, now);
        proof {
            let alts = if fallbacks.view().dom().contains(model_name@) {
                fallbacks.view()[model_name@]@
            } else {
                Seq::<String>::empty()
            };
            lemma_fallback_needs_available(self, deployments@, alts, now);
            assert(self.outcome_at(deployments@, chosen(r), now));
        }
        r
    }
}

proof fn lemma_first_named_prefix(ds: Seq<ModelEntry>, k: int, name: Seq<char>)
    requires
        0 <= k <= ds.len(),
        first_named(ds.take(k), name) is Some,
    ensures
        first_named(ds, name) == first_named(ds.take(k), name),
    decreases ds.len() - k,
{
    if k < ds.len() {
        assert(ds.take(k + 1).drop_last() =~= ds.take(k));
        lemma_first_named_prefix(ds, k + 1, name);
    } else {
        assert(ds.take(k) =~= ds);
    }
}

proof fn lemma_first_named_bound(ds: Seq<ModelEntry>, name: Seq<char>)
    ensures
        first_named(ds, name) matches Some(i) ==> 0 <= i < ds.len() && ds[i].model_name@ == name,
    decreases ds.len(),
{
    if ds.len() > 0 {
        lemma_first_named_bound(ds.drop_last(), name);
    }
}

proof fn lemma_fallback_choice_bound(r: &Router, ds: Seq<ModelEntry>, alts: Seq<String>, now: u64)
    ensures
        r.fallback_choice(ds, alts, now) matches Some(j) ==> 0 <= j < ds.len(),
    decreases alts.len(),
{
    if alts.len() > 0 {
        lemma_first_named_bound(ds, alts[0]@);
        lemma_fallback_choice_bound(r, ds, alts.drop_first(), now);
    }
}

/// A fallback leads only to a deployment that is not cooling down: when
/// every deployment is cooling down, no fallback can succeed.
pub proof fn lemma_fallback_needs_available(r: &Router, ds: Seq<ModelEntry>, alts: Seq<String>, now_ms: u64)
    ensures
        r.fallback_choice(ds, alts, now_ms) matches Some(j) ==> 0 <= j < ds.len() && r.available_at(ds[j], now_ms),
    decreases alts.len(),
{
    if alts.len() > 0 {
        lemma_first_named_bound(ds, alts[0]@);
        lemma_fallback_needs_available(r, ds, alts.drop_first(), now_ms);
    }
}

/// When every deployment is cooling down, the fallback chain yields none,
/// so selection fails.
pub proof fn lemma_selection_needs_available(r: &Router, ds: Seq<ModelEntry>, alts: Seq<String>, now_ms: u64)
    requires
        forall|i: int| 0 <= i < ds.len() ==> !r.available_at(ds[i], now_ms),
    ensures
        r.fallback_choice(ds, alts, now_ms) is None,
{
    lemma_fallback_needs_available(r, ds, alts, now_ms);
}

} // verus!
