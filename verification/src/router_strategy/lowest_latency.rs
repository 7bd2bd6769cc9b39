//! Fastest deployment first, by mean latency over a sliding window.
//!
//! Latencies are whole milliseconds; a failed call is recorded as the
//! largest value. Means are ordered as their computation in double
//! precision orders them, where a failure weighs the largest double: two
//! failures in a window make its mean infinite, one failure makes it that
//! largest double over the window's length, whatever the other latencies;
//! means of windows without failures are compared exactly, as fractions.

use vstd::prelude::*;

use super::{lemma_fraction_order, stat_key, stat_key_of, DeploymentInfo};
use crate::provider::ProviderError;
use crate::strmap::StrMap;
use crate::types::ModelResponse;

verus! {

/// The latency recorded for a failed call.
pub const FAILURE_LATENCY_MS: u64 = u64::MAX;

/// The sum of a latency window.
pub open spec fn window_sum(w: Seq<u64>) -> int
    decreases w.len(),
{
    if w.len() == 0 {
        0
    } else {
        window_sum(w.drop_last()) + w.last()
    }
}

/// The number of failed calls recorded in a window.
pub open spec fn failures(w: Seq<u64>) -> nat
    decreases w.len(),
{
    if w.len() == 0 {
        0
    } else {
        failures(w.drop_last()) + if w.last() == FAILURE_LATENCY_MS {
            1nat
        } else {
            0nat
        }
    }
}

/// A window with `fa` failures and mean `na / da` has a lower mean than one
/// with `fb` failures and mean `nb / db`: two failures make a mean
/// infinite; one failure makes it the largest double over the window's
/// length, above any mean without failures; means without failures compare
/// as fractions.
pub open spec fn below_by(fa: nat, na: int, da: int, fb: nat, nb: int, db: int) -> bool {
    if fa >= 2 {
        false
    } else if fb >= 2 {
        true
    } else if fa == 1 {
        fb == 1 && da > db
    } else if fb == 1 {
        true
    } else {
        na * db < nb * da
    }
}

/// The mean of window `a` is below the mean of window `b` (an empty window
/// has mean zero).
pub open spec fn mean_below(a: Seq<u64>, b: Seq<u64>) -> bool {
    below_by(failures(a), mean_num(a), mean_den(a), failures(b), mean_num(b), mean_den(b))
}

proof fn lemma_below_order(fa: nat, na: int, da: int, fb: nat, nb: int, db: int, fc: nat, nc: int, dc: int)
    requires
        da > 0,
        db > 0,
        dc > 0,
        below_by(fa, na, da, fb, nb, db),
        !below_by(fc, nc, dc, fb, nb, db),
    ensures
        below_by(fa, na, da, fc, nc, dc),
        !below_by(fc, nc, dc, fa, na, da),
{
    if fa == 0 && fb == 0 && fc == 0 {
        lemma_fraction_order(na, da, nb, db, nc, dc);
    }
}

/// The numerator of a window's mean.
pub open spec fn mean_num(w: Seq<u64>) -> int {
    if w.len() == 0 { 0 } else { window_sum(w) }
}

/// The denominator of a window's mean.
pub open spec fn mean_den(w: Seq<u64>) -> int {
    if w.len() == 0 { 1 } else { w.len() as int }
}

/// The latency key of a deployment.
pub open spec fn latency_key(d: DeploymentInfo) -> Seq<char> {
    stat_key("strategy:latency:"@, d, Seq::empty())
}

/// The window recorded under `k`, empty when there is none.
pub open spec fn window_at(m: Map<Seq<char>, Vec<u64>>, k: Seq<char>) -> Seq<u64> {
    if m.dom().contains(k) {
        m[k]@
    } else {
        Seq::empty()
    }
}

/// `w` after recording `v` in a window of at most `n` values.
pub open spec fn slide(w: Seq<u64>, v: u64, n: nat) -> Seq<u64> {
    if w.push(v).len() > n {
        w.push(v).drop_first()
    } else {
        w.push(v)
    }
}

proof fn lemma_sum_bound(w: Seq<u64>)
    ensures
        0 <= window_sum(w) <= w.len() * (u64::MAX as int),
    decreases w.len(),
{
    if w.len() > 0 {
        lemma_sum_bound(w.drop_last());
    }
}

proof fn lemma_div_compare(an: int, ad: int, bn: int, bd: int)
    requires
        0 <= an,
        0 < ad,
        0 <= bn,
        0 < bd,
    ensures
        an / ad < bn / bd ==> an * bd < bn * ad,
        an / ad > bn / bd ==> !(an * bd < bn * ad),
        an / ad == bn / bd ==> (an * bd < bn * ad <==> (an % ad) * bd < (bn % bd) * ad),
{
    let qa = an / ad;
    let ra = an % ad;
    let qb = bn / bd;
    let rb = bn % bd;
    assert(an == qa * ad + ra && 0 <= ra < ad) by (nonlinear_arith)
        requires
            0 <= an,
            0 < ad,
            qa == an / ad,
            ra == an % ad,
    ;
    assert(bn == qb * bd + rb && 0 <= rb < bd) by (nonlinear_arith)
        requires
            0 <= bn,
            0 < bd,
            qb == bn / bd,
            rb == bn % bd,
    ;
    assert(an * bd == qa * ad * bd + ra * bd) by (nonlinear_arith)
        requires
            an == qa * ad + ra,
    ;
    assert(bn * ad == qb * bd * ad + rb * ad) by (nonlinear_arith)
        requires
            bn == qb * bd + rb,
    ;
    assert(0 <= ra * bd < ad * bd) by (nonlinear_arith)
        requires
            0 <= ra < ad,
            0 < bd,
    ;
    assert(0 <= rb * ad < bd * ad) by (nonlinear_arith)
        requires
            0 <= rb < bd,
            0 < ad,
    ;
    if qa < qb {
        assert(qa * ad * bd + ad * bd <= qb * bd * ad) by (nonlinear_arith)
            requires
                qa < qb,
                0 < ad,
                0 < bd,
        ;
    } else if qa > qb {
        assert(qb * bd * ad + bd * ad <= qa * ad * bd) by (nonlinear_arith)
            requires
                qa > qb,
                0 < ad,
                0 < bd,
        ;
    } else {
        assert(qa * ad * bd == qb * bd * ad) by (nonlinear_arith)
            requires
                qa == qb,
        ;
    }
}

/// Whether `an / ad < bn / bd`, computed exactly without overflow.
fn frac_less(an: u128, ad: u128, bn: u128, bd: u128) -> (r: bool)
    requires
        0 < ad < 0x1_0000_0000_0000_0000,
        0 < bd < 0x1_0000_0000_0000_0000,
    ensures
        r == (an * bd < bn * ad),
{
    proof {
        lemma_div_compare(an as int, ad as int, bn as int, bd as int);
    }
    let qa = an / ad;
    let qb = bn / bd;
    if qa != qb {
        return qa < qb;
    }
    let ra = an % ad;
    let rb = bn % bd;
    assert(ra * bd < 0x1_0000_0000_0000_0000_0000_0000_0000_0000) by (nonlinear_arith)
        requires
            ra < ad,
            ad < 0x1_0000_0000_0000_0000,
            bd < 0x1_0000_0000_0000_0000,
    ;
    assert(rb * ad < 0x1_0000_0000_0000_0000_0000_0000_0000_0000) by (nonlinear_arith)
        requires
            rb < bd,
            ad < 0x1_0000_0000_0000_0000,
            bd < 0x1_0000_0000_0000_0000,
    ;
    ra * bd < rb * ad
}

/// Whether a window with `fa` failures and mean `na / da` has a lower mean
/// than one with `fb` failures and mean `nb / db`.
fn mean_less(fa: usize, na: u128, da: u128, fb: usize, nb: u128, db: u128) -> (r: bool)
    requires
        0 < da < 0x1_0000_0000_0000_0000,
        0 < db < 0x1_0000_0000_0000_0000,
    ensures
        r == below_by(fa as nat, na as int, da as int, fb as nat, nb as int, db as int),
{
    if fa >= 2 {
        false
    } else if fb >= 2 {
        true
    } else if fa == 1 {
        fb == 1 && da > db
    } else if fb == 1 {
        true
    } else {
        frac_less(na, da, nb, db)
    }
}

/// Picks the deployment with the lowest mean latency.
pub struct LowestLatencyStrategy {
    window_size: usize,
    windows: StrMap<Vec<u64>>,
}

impl LowestLatencyStrategy {
    /// The recorded latency windows, by key.
    pub closed spec fn windows(&self) -> Map<Seq<char>, Vec<u64>> {
        self.windows.view()
    }

    /// The most values a window keeps.
    pub closed spec fn window_size(&self) -> nat {
        self.window_size as nat
    }

    /// Windows are no longer than the window size.
    pub closed spec fn wf(&self) -> bool {
        &&& self.windows.wf()
        &&& forall|k: Seq<char>| #[trigger] self.windows.view().dom().contains(k) ==> self.windows.view()[k]@.len() <= self.window_size
    }

    /// The mean latency of `d` is below that of `e`.
    pub open spec fn faster(&self, d: DeploymentInfo, e: DeploymentInfo) -> bool {
        mean_below(window_at(self.windows(), latency_key(d)), window_at(self.windows(), latency_key(e)))
    }

    /// A strategy with no recorded latency keeping windows of `window_size` values.
    pub fn new(window_size: usize) -> (s: Self)
        ensures
            s.wf(),
            s.window_size() == window_size,
            s.windows() == Map::<Seq<char>, Vec<u64>>::empty(),
    {
        LowestLatencyStrategy { window_size, windows: StrMap::new() }
    }

    /// The strategy's configuration name.
    pub fn name(&self) -> (r: &'static str)
        ensures
            r@ == "lowest_latency"@,
    {
        "lowest_latency"
    }

    /// The failures, sum and length of the window recorded for `key` (zero
    /// over one for an empty window).
    fn window_for(&self, key: &str) -> (r: (usize, u128, u128))
        requires
            self.wf(),
        ensures
            ({
                let w = window_at(self.windows(), key@);
                &&& r.0 == failures(w)
                &&& r.1 == mean_num(w)
                &&& r.2 == mean_den(w)
                &&& 0 < r.2 < 0x1_0000_0000_0000_0000
            }),
    {
        match self.windows.get(key) {
            None => (0, 0, 1),
            Some(w) => {
                let n = w.len();
                if n == 0 {
                    return (0, 0, 1);
                }
                let mut sum: u128 = 0;
                let mut fails: usize = 0;
                let mut i: usize = 0;
                while i < n
                    invariant
                        n == w@.len(),
                        0 <= i <= n,
                        sum == window_sum(w@.take(i as int)),
                        fails == failures(w@.take(i as int)),
                        fails <= i,
                    decreases n - i,
                {
                    proof {
                        assert(w@.take(i + 1).drop_last() =~= w@.take(i as int));
                        lemma_sum_bound(w@.take(i as int));
                        assert(window_sum(w@.take(i as int)) + (u64::MAX as int) < 0x1_0000_0000_0000_0000_0000_0000_0000_0000)
                            by (nonlinear_arith)
                            requires
                                window_sum(w@.take(i as int)) <= i * (u64::MAX as int),
                                i < n,
                                n <= usize::MAX,
                                usize::MAX < 0x1_0000_0000_0000_0000,
                        ;
                    }
                    if w[i] == FAILURE_LATENCY_MS {
                        fails = fails + 1;
                    }
                    sum = sum + w[i] as u128;
                    i = i + 1;
                }
                assert(w@.take(n as int) =~= w@);
                (fails, sum, n as u128)
            },
        }
    }

    /// The first deployment with the lowest mean latency (deployments with
    /// no recorded latency count as zero); `None` for an empty list.
    pub fn select_deployment<'a>(&self, deployments: &'a Vec<DeploymentInfo>) -> (r: Option<&'a DeploymentInfo>)
        requires
            self.wf(),
        ensures
            r is None <==> deployments@.len() == 0,
            r matches Some(d) ==> exists|i: int|
                0 <= i < deployments@.len() && *d == deployments@[i] && (forall|j: int|
                    0 <= j < deployments@.len() ==> !self.faster(deployments@[j], deployments@[i])) && (forall|j: int|
                    0 <= j < i ==> self.faster(deployments@[i], deployments@[j])),
    {
        if deployments.len() == 0 {
            return None;
        }
        let k0 = stat_key_of("strategy:latency:", &deployments[0], "");
        let mut best: usize = 0;
        let mut best_mean = self.window_for(k0.as_str());
        proof {
            reveal_strlit("");
            assert(""@ =~= Seq::<char>::empty());
        }
        let mut i: usize = 1;
        while i < deployments.len()
            invariant
                self.wf(),
                0 <= best < i <= deployments@.len(),
                ({
                    let w = window_at(self.windows(), latency_key(deployments@[best as int]));
                    &&& best_mean.0 == failures(w)
                    &&& best_mean.1 == mean_num(w)
                    &&& best_mean.2 == mean_den(w)
                }),
                0 < best_mean.2 < 0x1_0000_0000_0000_0000,
                forall|j: int| 0 <= j < i ==> !self.faster(deployments@[j], deployments@[best as int]),
                forall|j: int| 0 <= j < best ==> self.faster(deployments@[best as int], deployments@[j]),
            decreases deployments@.len() - i,
        {
            let k = stat_key_of("strategy:latency:", &deployments[i], "");
            proof {
                reveal_strlit("");
                assert(""@ =~= Seq::<char>::empty());
            }
            let m = self.window_for(k.as_str());
            let ghost wi = window_at(self.windows(), latency_key(deployments@[i as int]));
            let ghost wb = window_at(self.windows(), latency_key(deployments@[best as int]));
            assert(m.0 == failures(wi) && m.1 == mean_num(wi) && m.2 == mean_den(wi));
            assert(best_mean.0 == failures(wb) && best_mean.1 == mean_num(wb) && best_mean.2 == mean_den(wb));
            if mean_less(m.0, m.1, m.2, best_mean.0, best_mean.1, best_mean.2) {
                proof {
                    assert forall|j: int| 0 <= j < i + 1 implies !self.faster(deployments@[j], deployments@[i as int]) && (j < i
                        ==> self.faster(deployments@[i as int], deployments@[j])) by {
                        if j < i {
                            let wj = window_at(self.windows(), latency_key(deployments@[j]));
                            lemma_below_order(
                                failures(wi),
                                mean_num(wi),
                                mean_den(wi),
                                failures(wb),
                                mean_num(wb),
                                mean_den(wb),
                                failures(wj),
                                mean_num(wj),
                                mean_den(wj),
                            );
                        }
                    }
                }
                best = i;
                best_mean = m;
            }
            i = i + 1;
        }
        Some(&deployments[best])
    }

    fn record(&mut self, key: &str, v: u64)
        requires
            old(self).wf(),
        ensures
            final(self).wf(),
            final(self).window_size() == old(self).window_size(),
            final(self).windows().dom() == old(self).windows().dom().insert(key@),
            final(self).windows()[key@]@ == slide(window_at(old(self).windows(), key@), v, old(self).window_size()),
            forall|k: Seq<char>| k != key@ && #[trigger] old(self).windows().dom().contains(k) ==> final(self).windows()[k]
                == old(self).windows()[k],
    {
        let ghost prior = window_at(old(self).windows(), key@);
        let mut w = match self.windows.remove(key) {
            Some(w) => w,
            None => Vec::new(),
        };
        assert(w@ =~= prior);
        w.push(v);
        if w.len() > self.window_size {
            w.remove(0);
            assert(w@ =~= prior.push(v).drop_first());
        }
        self.windows.insert(key, w);
    }

    /// Records the latency of a successful call (zero when unknown).
    pub fn track_success(&mut self, deployment: &DeploymentInfo, _response: &ModelResponse, duration_ms: Option<u64>)
        requires
            old(self).wf(),
        ensures
            final(self).wf(),
            final(self).window_size() == old(self).window_size(),
            final(self).windows().dom() == old(self).windows().dom().insert(latency_key(*deployment)),
            final(self).windows()[latency_key(*deployment)]@ == slide(
                window_at(old(self).windows(), latency_key(*deployment)),
                match duration_ms {
                    Some(x) => x,
                    None => 0u64,
                },
                old(self).window_size(),
            ),
            forall|k: Seq<char>| k != latency_key(*deployment) && #[trigger] old(self).windows().dom().contains(k) ==> final(self).windows()[k]
                == old(self).windows()[k],
    {
        let k = stat_key_of("strategy:latency:", deployment, "");
        proof {
            reveal_strlit("");
            assert(""@ =~= Seq::<char>::empty());
        }
        let v = match duration_ms {
            Some(x) => x,
            None => 0,
        };
        self.record(k.as_str(), v);
    }

    /// Records a failed call as the largest latency.
    pub fn track_failure(&mut self, deployment: &DeploymentInfo, _error: &ProviderError)
        requires
            old(self).wf(),
        ensures
            final(self).wf(),
            final(self).window_size() == old(self).window_size(),
            final(self).windows().dom() == old(self).windows().dom().insert(latency_key(*deployment)),
            final(self).windows()[latency_key(*deployment)]@ == slide(
                window_at(old(self).windows(), latency_key(*deployment)),
                FAILURE_LATENCY_MS,
                old(self).window_size(),
            ),
            forall|k: Seq<char>| k != latency_key(*deployment) && #[trigger] old(self).windows().dom().contains(k) ==> final(self).windows()[k]
                == old(self).windows()[k],
    {
        let k = stat_key_of("strategy:latency:", deployment, "");
        proof {
            reveal_strlit("");
            assert(""@ =~= Seq::<char>::empty());
        }
        self.record(k.as_str(), FAILURE_LATENCY_MS);
    }
}

} // verus!
