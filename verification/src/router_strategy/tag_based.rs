//! Routing by capability tags.

use vstd::prelude::*;

use super::{DeploymentInfo, NoopTracking};
use crate::provider::ProviderError;
use crate::types::{ChatRequest, ModelResponse};

verus! {

/// The items of a JSON array text, each as its string when it is one;
/// `None` when the text is not a JSON array.
pub uninterp spec fn json_array_items(text: Seq<char>) -> Option<Seq<Option<Seq<char>>>>;

/// The characters of each item.
pub open spec fn items_view(items: Seq<Option<String>>) -> Seq<Option<Seq<char>>> {
    items.map_values(|o: Option<String>| crate::text::opt_view(o))
}

/// Reads a JSON array (`serde_json::from_str` into a `serde_json::Value`,
/// then `as_array` and `as_str` on each item); the result depends on the
/// text alone.
#[verifier::external_body]
fn array_items(text: &str) -> (r: Option<Vec<Option<String>>>)
    ensures
        match r {
            Some(v) => json_array_items(text@) == Some(items_view(v@)),
            None => json_array_items(text@) is None,
        },
{
    serde_json::from_str::<serde_json::Value>(text).ok().and_then(
        |v| v.as_array().map(|a| a.iter().map(|t| t.as_str().map(|s| s.to_string())).collect()),
    )
}

/// The strings among `items`, in order.
pub open spec fn strings_of(items: Seq<Option<Seq<char>>>) -> Seq<Seq<char>>
    decreases items.len(),
{
    if items.len() == 0 {
        Seq::empty()
    } else {
        match items.last() {
            Some(s) => strings_of(items.drop_last()).push(s),
            None => strings_of(items.drop_last()),
        }
    }
}

/// The JSON text of the first extra field named `name`.
pub open spec fn extra_field(extra: Seq<(String, String)>, name: Seq<char>) -> Option<Seq<char>>
    decreases extra.len(),
{
    if extra.len() == 0 {
        None
    } else if extra[0].0@ == name {
        Some(extra[0].1@)
    } else {
        extra_field(extra.drop_first(), name)
    }
}

/// The tags a request asks for: the strings of its `_tags` array.
pub open spec fn requested_tags_of(extra: Seq<(String, String)>) -> Seq<Seq<char>> {
    match extra_field(extra, "_tags"@) {
        Some(text) => match json_array_items(text) {
            Some(items) => strings_of(items),
            None => Seq::empty(),
        },
        None => Seq::empty(),
    }
}

/// The tags `request` asks for.
pub fn requested_tags(request: &ChatRequest) -> (r: Vec<String>)
    ensures
        r@.map_values(|s: String| s@) == requested_tags_of(request.extra@),
{
    let mut i: usize = 0;
    assert(request.extra@.skip(0) =~= request.extra@);
    while i < request.extra.len()
        invariant
            0 <= i <= request.extra@.len(),
            extra_field(request.extra@, "_tags"@) == extra_field(request.extra@.skip(i as int), "_tags"@),
        decreases request.extra@.len() - i,
    {
        assert(request.extra@.skip(i as int).drop_first() =~= request.extra@.skip(i + 1));
        if crate::text::str_eq(request.extra[i].0.as_str(), "_tags") {
            let items = match array_items(request.extra[i].1.as_str()) {
                Some(v) => v,
                None => {
                    let r: Vec<String> = Vec::new();
                    assert(r@.map_values(|s: String| s@) =~= Seq::<Seq<char>>::empty());
                    return r;
                },
            };
            let mut r: Vec<String> = Vec::new();
            let mut k: usize = 0;
            while k < items.len()
                invariant
                    0 <= k <= items@.len(),
                    r@.map_values(|s: String| s@) == strings_of(items_view(items@.take(k as int))),
                decreases items@.len() - k,
            {
                let ghost before = r@;
                assert(items_view(items@.take(k + 1)).drop_last() =~= items_view(items@.take(k as int)));
                match &items[k] {
                    Some(s) => {
                        r.push(s.clone());
                        assert(r@.map_values(|s: String| s@) =~= before.map_values(|s: String| s@).push(s@));
                    },
                    None => {},
                }
                k = k + 1;
            }
            assert(items@.take(items@.len() as int) =~= items@);
            return r;
        }
        i = i + 1;
    }
    let r: Vec<String> = Vec::new();
    assert(r@.map_values(|s: String| s@) =~= Seq::<Seq<char>>::empty());
    r
}

/// The deployment carries `tag`.
pub open spec fn carries_tag(d: DeploymentInfo, tag: Seq<char>) -> bool {
    exists|k: int| 0 <= k < d.tags@.len() && #[trigger] d.tags@[k]@ == tag
}

/// Every requested tag is among the deployment's tags.
pub open spec fn has_all_tags(d: DeploymentInfo, requested: Seq<Seq<char>>) -> bool {
    forall|t: int| 0 <= t < requested.len() ==> carries_tag(d, #[trigger] requested[t])
}

/// The characters of each tag.
pub open spec fn tag_views(tags: Seq<String>) -> Seq<Seq<char>> {
    tags.map_values(|s: String| s@)
}

/// Picks the first deployment carrying every requested tag.
pub struct TagBasedStrategy;

impl TagBasedStrategy {
    /// The strategy's configuration name.
    pub fn name(&self) -> (r: &'static str)
        ensures
            r@ == "tag_based"@,
    {
        "tag_based"
    }

    fn has_tag(d: &DeploymentInfo, tag: &String) -> (r: bool)
        ensures
            r == carries_tag(*d, tag@),
    {
        let mut k: usize = 0;
        while k < d.tags.len()
            invariant
                0 <= k <= d.tags@.len(),
                forall|m: int| 0 <= m < k ==> d.tags@[m]@ != tag@,
            decreases d.tags@.len() - k,
        {
            if d.tags[k] == *tag {
                return true;
            }
            k = k + 1;
        }
        false
    }

    fn carries_all(d: &DeploymentInfo, requested: &Vec<String>) -> (r: bool)
        ensures
            r == has_all_tags(*d, tag_views(requested@)),
    {
        let mut t: usize = 0;
        while t < requested.len()
            invariant
                0 <= t <= requested@.len(),
                forall|m: int| 0 <= m < t ==> carries_tag(*d, #[trigger] requested@[m]@),
            decreases requested@.len() - t,
        {
            if !Self::has_tag(d, &requested[t]) {
                assert(tag_views(requested@)[t as int] == requested@[t as int]@);
                return false;
            }
            t = t + 1;
        }
        assert forall|m: int| 0 <= m < tag_views(requested@).len() implies carries_tag(
            *d,
            #[trigger] tag_views(requested@)[m],
        ) by {
            assert(tag_views(requested@)[m] == requested@[m]@);
        }
        true
    }

    /// With no requested tag, the first deployment; otherwise the first
    /// deployment carrying every requested tag.
    pub fn select_deployment<'a>(&self, deployments: &'a Vec<DeploymentInfo>, requested_tags: &Vec<String>) -> (r: Option<
        &'a DeploymentInfo,
    >)
        ensures
            requested_tags@.len() == 0 ==> (if deployments@.len() == 0 {
                r is None
            } else {
                r matches Some(d) && *d == deployments@[0]
            }),
            requested_tags@.len() > 0 ==> match r {
                Some(d) => exists|i: int|
                    0 <= i < deployments@.len() && *d == deployments@[i] && has_all_tags(deployments@[i], tag_views(requested_tags@))
                        && forall|j: int| 0 <= j < i ==> !has_all_tags(deployments@[j], tag_views(requested_tags@)),
                None => forall|j: int| 0 <= j < deployments@.len() ==> !has_all_tags(deployments@[j], tag_views(requested_tags@)),
            },
    {
        if requested_tags.len() == 0 {
            if deployments.len() == 0 {
                return None;
            }
            return Some(&deployments[0]);
        }
        let mut i: usize = 0;
        while i < deployments.len()
            invariant
                0 <= i <= deployments@.len(),
                forall|j: int| 0 <= j < i ==> !has_all_tags(deployments@[j], tag_views(requested_tags@)),
            decreases deployments@.len() - i,
        {
            if Self::carries_all(&deployments[i], requested_tags) {
                return Some(&deployments[i]);
            }
            i = i + 1;
        }
        None
    }

    /// Records nothing.
    pub fn track_success(&self, d: &DeploymentInfo, r: &ModelResponse, dur: Option<u64>) {
        NoopTracking.track_success(d, r, dur);
    }

    /// Records nothing.
    pub fn track_failure(&self, d: &DeploymentInfo, e: &ProviderError) {
        NoopTracking.track_failure(d, e);
    }
}

} // verus!
