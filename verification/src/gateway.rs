//! Gateway-level decisions: which provider serves a model, which upstream
//! origins the health checker probes, and what the model listing and the
//! deployment admin endpoints answer.

use vstd::prelude::*;

use crate::cache::{next_count, DualCache};
use crate::config::{Config, LitellmParams, ModelEntry, ProviderEntry};
use crate::error::AppError;
use crate::hooks::parallel_request_limiter::{exceeds, limit_key, minute_window, over_limit, ParallelRequestLimiter};
use crate::hooks::AuthContext;
use crate::provider::anthropic::{default_anthropic_url, AnthropicConfig, AnthropicMode};
use crate::provider::openai::{default_openai_url, OpenAiConfig};
use crate::provider::{ProviderConfig, ProviderError};
use crate::router::Router;
use crate::strmap::StrMap;
use crate::text::{clone_opt, concat, owned, str_eq, view_or};
use crate::types::ChatRequest;

verus! {

/// The deployments of `ms` that serve `name`, in order.
pub open spec fn serving(ms: Seq<ModelEntry>, name: Seq<char>) -> Seq<ModelEntry>
    decreases ms.len(),
{
    if ms.len() == 0 {
        Seq::empty()
    } else if ms.last().model_name@ == name {
        serving(ms.drop_last(), name).push(ms.last())
    } else {
        serving(ms.drop_last(), name)
    }
}

/// The model name sent upstream for deployment `e`: its configured
/// parameter, else the requested name.
pub open spec fn upstream_model(e: ModelEntry, requested: Seq<char>) -> Seq<char> {
    match e.litellm_params {
        Some(p) => p.model@,
        None => requested,
    }
}

/// `r` is the outcome of resolving deployment `e` of `requested` against
/// the configured providers.
pub open spec fn resolves_to(
    providers: Map<Seq<char>, ProviderEntry>,
    e: ModelEntry,
    requested: Seq<char>,
    r: Result<(ProviderConfig, String), AppError>,
) -> bool {
    if !providers.dom().contains(e.provider@) {
        r matches Err(AppError::ProviderNotFound { provider }) && provider@ == e.provider@
    } else {
        let pe = providers[e.provider@];
        if e.provider@ == "openai"@ {
            r matches Ok((ProviderConfig::OpenAi(c), key)) && c.base_url_view() == view_or(pe.base_url, default_openai_url())
                && key@ == pe.api_key@
        } else if e.provider@ == "anthropic"@ {
            r matches Ok((ProviderConfig::Anthropic(c), key)) && c.mode() == AnthropicMode::Chat && c.model_view()
                == upstream_model(e, requested) && c.base_url_view() == view_or(pe.base_url, default_anthropic_url())
                && key@ == pe.api_key@
        } else {
            r matches Err(AppError::ProviderNotFound { provider }) && provider@ == e.provider@
        }
    }
}

/// The provider configuration and key for deployment `e` of `requested`.
fn provider_for(providers: &StrMap<ProviderEntry>, e: &ModelEntry, requested: &str) -> (r: Result<
    (ProviderConfig, String),
    AppError,
>)
    requires
        providers.wf(),
    ensures
        resolves_to(providers.view(), *e, requested@, r),
{
    let pe = match providers.get(e.provider.as_str()) {
        Some(p) => p,
        None => {
            return Err(AppError::ProviderNotFound { provider: e.provider.clone() });
        },
    };
    let base_url = clone_opt(&pe.base_url);
    let api_key = pe.api_key.clone();
    let model: String = match &e.litellm_params {
        Some(p) => p.model.clone(),
        None => owned(requested),
    };
    if str_eq(e.provider.as_str(), "openai") {
        Ok((ProviderConfig::OpenAi(OpenAiConfig::new(base_url)), api_key))
    } else if str_eq(e.provider.as_str(), "anthropic") {
        Ok((ProviderConfig::Anthropic(AnthropicConfig::new(base_url, model, AnthropicMode::Chat)), api_key))
    } else {
        Err(AppError::ProviderNotFound { provider: e.provider.clone() })
    }
}

/// The deployments serving `name`.
fn candidates(model_list: &Vec<ModelEntry>, name: &str) -> (r: Vec<ModelEntry>)
    ensures
        r@ == serving(model_list@, name@),
{
    let mut r: Vec<ModelEntry> = Vec::new();
    let mut i: usize = 0;
    while i < model_list.len()
        invariant
            0 <= i <= model_list@.len(),
            r@ == serving(model_list@.take(i as int), name@),
        decreases model_list@.len() - i,
    {
        assert(model_list@.take(i + 1).drop_last() =~= model_list@.take(i as int));
        if str_eq(model_list[i].model_name.as_str(), name) {
            r.push(model_list[i].clone());
        }
        i = i + 1;
    }
    assert(model_list@.take(model_list@.len() as int) =~= model_list@);
    r
}

/// `r` is a possible resolution of `requested` among several deployments
/// at instant `now`: the provider of a deployment not cooling down then,
/// or `ModelNotFound` when every deployment is cooling down then.
pub open spec fn resolution_at(
    config: &Config,
    router: &Router,
    requested: Seq<char>,
    r: Result<(ProviderConfig, String), AppError>,
    now: u64,
) -> bool {
    let cs = serving(config.model_list@, requested);
    ||| (r matches Err(AppError::ModelNotFound { model }) && model@ == requested && forall|i: int|
        0 <= i < cs.len() ==> !#[trigger] router.available_at(cs[i], now))
    ||| exists|i: int|
        0 <= i < cs.len() && #[trigger] router.available_at(cs[i], now) && resolves_to(
            config.providers.view(),
            cs[i],
            requested,
            r,
        )
}

/// Resolves the provider serving `model_name`: the deployments serving it
/// are looked up; with several, the router picks one (skipping those in
/// cooldown, following fallbacks); then the deployment's provider is
/// configured.
pub fn resolve_provider(config: &Config, router: &Router, model_name: &str) -> (r: Result<(ProviderConfig, String), AppError>)
    requires
        config.providers.wf(),
        config.router_settings.fallbacks.wf(),
        router.wf(),
    ensures
        ({
            let cs = serving(config.model_list@, model_name@);
            &&& cs.len() == 0 ==> (r matches Err(AppError::ModelNotFound { model }) && model@ == model_name@)
            &&& cs.len() == 1 ==> resolves_to(config.providers.view(), cs[0], model_name@, r)
            &&& cs.len() > 1 ==> exists|now: u64| #[trigger] resolution_at(config, router, model_name@, r, now)
        }),
{
    let cs = candidates(&config.model_list, model_name);
    if cs.len() == 0 {
        return Err(AppError::ModelNotFound { model: owned(model_name) });
    }
    if cs.len() > 1 {
        let selected = router.select_deployment(model_name, &cs, &config.router_settings.fallbacks);
        let ghost now = choose|now: u64| router.outcome_at(cs@, crate::router::chosen(selected), now);
        let r = match selected {
            Ok(entry) => provider_for(&config.providers, entry, model_name),
            Err(_) => Err(AppError::ModelNotFound { model: owned(model_name) }),
        };
        assert(resolution_at(config, router, model_name@, r, now));
        r
    } else {
        provider_for(&config.providers, &cs[0], model_name)
    }
}

/// The origin probed for a provider: its configured origin, else the
/// public OpenAI API.
pub open spec fn probe_url(pe: ProviderEntry) -> Seq<char> {
    view_or(pe.base_url, "https://api.openai.com"@) + "/v1/models"@
}

/// The health probes for deployments `ms`, in order: each deployment whose
/// provider is configured, with the URL probed for it.
pub open spec fn probes(providers: Map<Seq<char>, ProviderEntry>, ms: Seq<ModelEntry>) -> Seq<(Seq<char>, Seq<char>)>
    decreases ms.len(),
{
    if ms.len() == 0 {
        Seq::empty()
    } else if providers.dom().contains(ms.last().provider@) {
        probes(providers, ms.drop_last()).push((ms.last().model_name@, probe_url(providers[ms.last().provider@])))
    } else {
        probes(providers, ms.drop_last())
    }
}

/// One health probe: the deployment's model name and the URL fetched.
pub struct HealthProbe {
    pub model_name: String,
    pub url: String,
}

/// The probes one health-check round performs.
pub fn health_probes(config: &Config) -> (r: Vec<HealthProbe>)
    requires
        config.providers.wf(),
    ensures
        r@.map_values(|p: HealthProbe| (p.model_name@, p.url@)) == probes(config.providers.view(), config.model_list@),
{
    let mut r: Vec<HealthProbe> = Vec::new();
    let mut i: usize = 0;
    while i < config.model_list.len()
        invariant
            0 <= i <= config.model_list@.len(),
            config.providers.wf(),
            r@.map_values(|p: HealthProbe| (p.model_name@, p.url@)) == probes(
                config.providers.view(),
                config.model_list@.take(i as int),
            ),
        decreases config.model_list@.len() - i,
    {
        let entry = &config.model_list[i];
        assert(config.model_list@.take(i + 1).drop_last() =~= config.model_list@.take(i as int));
        let ghost before = r@;
        match config.providers.get(entry.provider.as_str()) {
            Some(pe) => {
                let base = crate::text::unwrap_or_str(&pe.base_url, "https://api.openai.com");
                let url = concat(base.as_str(), "/v1/models");
                r.push(HealthProbe { model_name: entry.model_name.clone(), url });
                assert(r@.map_values(|p: HealthProbe| (p.model_name@, p.url@)) =~= before.map_values(
                    |p: HealthProbe| (p.model_name@, p.url@),
                ).push((entry.model_name@, probe_url(config.providers.view()[entry.provider@]))));
            },
            None => {},
        }
        i = i + 1;
    }
    assert(config.model_list@.take(config.model_list@.len() as int) =~= config.model_list@);
    r
}

/// One entry of the model listing.
pub struct ModelCard {
    pub id: String,
    pub object: String,
    pub created: u64,
    pub owned_by: String,
}

/// The creation time every listed model reports.
pub const MODEL_CREATED: u64 = 1717000000;

/// The model listing: one card per deployment, in order.
pub fn list_models(config: &Config) -> (r: Vec<ModelCard>)
    ensures
        r@.len() == config.model_list@.len(),
        forall|i: int|
            0 <= i < r@.len() ==> (#[trigger] r@[i]).id@ == config.model_list@[i].model_name@ && r@[i].object@
                == "model"@ && r@[i].created == MODEL_CREATED && r@[i].owned_by@ == config.model_list@[i].provider@,
{
    let mut r: Vec<ModelCard> = Vec::new();
    let mut i: usize = 0;
    while i < config.model_list.len()
        invariant
            0 <= i <= config.model_list@.len(),
            r@.len() == i,
            forall|j: int|
                0 <= j < i ==> (#[trigger] r@[j]).id@ == config.model_list@[j].model_name@ && r@[j].object@
                    == "model"@ && r@[j].created == MODEL_CREATED && r@[j].owned_by@ == config.model_list@[j].provider@,
        decreases config.model_list@.len() - i,
    {
        let m = &config.model_list[i];
        r.push(
            ModelCard {
                id: m.model_name.clone(),
                object: owned("model"),
                created: MODEL_CREATED,
                owned_by: m.provider.clone(),
            },
        );
        i = i + 1;
    }
    r
}

/// A request to add a deployment.
pub struct CreateDeployment {
    pub model_name: String,
    pub provider: String,
    pub litellm_params: Option<LitellmParams>,
}

/// The deployment described by a creation request; refused with status 400
/// when its provider is not configured.
pub fn create_deployment(providers: &StrMap<ProviderEntry>, body: CreateDeployment) -> (r: Result<ModelEntry, u16>)
    requires
        providers.wf(),
    ensures
        !providers.view().dom().contains(body.provider@) ==> r == Err::<ModelEntry, u16>(400),
        providers.view().dom().contains(body.provider@) ==> r == Ok::<ModelEntry, u16>(
            ModelEntry { model_name: body.model_name, provider: body.provider, litellm_params: body.litellm_params },
        ),
{
    match providers.get(body.provider.as_str()) {
        None => Err(400),
        Some(_) => Ok(
            ModelEntry { model_name: body.model_name, provider: body.provider, litellm_params: body.litellm_params },
        ),
    }
}

/// Whether the client asked for a streamed answer (not asking means no).
pub fn wants_stream(request: &ChatRequest) -> (r: bool)
    ensures
        r == (request.stream == Some(true)),
{
    match request.stream {
        Some(b) => b,
        None => false,
    }
}

/// The cooldown key under which chat calls of `model` are booked:
/// `resolved:{model}`.
pub fn chat_deployment_id(model: &str) -> (r: String)
    ensures
        r@ == "resolved:"@ + model@,
{
    concat("resolved:", model)
}

/// The URL of `path` at the provider's origin.
pub fn endpoint_url(provider: &ProviderConfig, path: &str) -> (r: String)
    ensures
        r@ == provider.base_url_view() + path@,
{
    concat(provider.base_url(), path)
}

/// The answer `r` of the pre-call hooks for `auth`'s key in minute
/// `window`, the counters going from `before` to `after`: the limiter's
/// check, a refusal answered as an upstream 429 carrying `rate limit
/// exceeded ({detail})`.
pub open spec fn is_hooks_answer(
    auth: AuthContext,
    window: u64,
    before: Map<Seq<char>, u32>,
    after: Map<Seq<char>, u32>,
    r: Result<(), AppError>,
) -> bool {
    let tk = limit_key(auth.key_id@, "tpm"@, window);
    let rk = limit_key(auth.key_id@, "rpm"@, window);
    let t = next_count(before, tk);
    let c1 = before.insert(tk, t);
    let q = next_count(c1, rk);
    if exceeds(auth.tpm_limit, t) {
        &&& after == c1
        &&& r matches Err(AppError::Provider(ProviderError::UpstreamError { status, message })) && status == 429
            && message@ == "rate limit exceeded ("@ + over_limit("tpm"@, auth.tpm_limit->0, t) + ")"@
    } else {
        &&& after == c1.insert(rk, q)
        &&& exceeds(auth.rpm_limit, q) ==> (r matches Err(AppError::Provider(ProviderError::UpstreamError { status, message }))
            && status == 429 && message@ == "rate limit exceeded ("@ + over_limit("rpm"@, auth.rpm_limit->0, q) + ")"@)
        &&& !exceeds(auth.rpm_limit, q) ==> r is Ok
    }
}

/// Runs the hooks that precede a chat call: the per-key rate limiter
/// (spend accounting has nothing to check before the call). A refusal is
/// answered as an upstream 429.
pub fn pre_call_hooks(limiter: &ParallelRequestLimiter, auth: &AuthContext, cache: &mut DualCache) -> (r: Result<
    (),
    AppError,
>)
    requires
        old(cache).wf(),
    ensures
        final(cache).wf(),
        final(cache).values() == old(cache).values(),
        final(cache).lists() == old(cache).lists(),
        exists|now: u64| is_hooks_answer(*auth, #[trigger] minute_window(now), old(cache).counters(), final(cache).counters(), r),
        final(cache).wall_readings().len() == old(cache).wall_readings().len() + 1,
        final(cache).wall_readings().drop_last() == old(cache).wall_readings(),
        is_hooks_answer(
            *auth,
            minute_window(final(cache).wall_readings().last()),
            old(cache).counters(),
            final(cache).counters(),
            r,
        ),
{
    match limiter.pre_call(auth, cache) {
        Ok(()) => Ok(()),
        Err(e) => Err(AppError::from_hook(e)),
    }
}

} // verus!
