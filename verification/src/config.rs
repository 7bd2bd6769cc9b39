//! Gateway configuration.

use vstd::prelude::*;

use crate::strmap::StrMap;
use crate::text::{chars_of, find_exec, find_from, lemma_find_from_bounds, occurs_at, occurs_at_exec, replace_all, replace_exec, string_of_chars, tail};

verus! {

/// Where the gateway listens.
pub struct ServerConfig {
    pub host: String,
    pub port: u16,
}

/// Statically configured client keys.
pub struct AuthConfig {
    pub api_keys: Vec<String>,
}

/// Credentials and origin of one provider.
pub struct ProviderEntry {
    pub api_key: String,
    pub base_url: Option<String>,
}

/// Parameters passed to the provider for one deployment.
pub struct LitellmParams {
    pub model: String,
}

/// One deployment: a public model name served by a provider.
pub struct ModelEntry {
    pub model_name: String,
    pub provider: String,
    pub litellm_params: Option<LitellmParams>,
}

impl Clone for LitellmParams {
    fn clone(&self) -> (r: Self)
        ensures
            r == *self,
    {
        LitellmParams { model: self.model.clone() }
    }
}

impl Clone for ModelEntry {
    fn clone(&self) -> (r: Self)
        ensures
            r == *self,
    {
        let litellm_params = match &self.litellm_params {
            Some(p) => Some(p.clone()),
            None => None,
        };
        ModelEntry { model_name: self.model_name.clone(), provider: self.provider.clone(), litellm_params }
    }
}

/// Where the shared cache lives.
pub struct RedisConfig {
    pub url: Option<String>,
}

/// Administrative settings.
pub struct GeneralSettings {
    pub master_key: Option<String>,
}

/// Routing and resilience settings.
///
/// `retry_after_ms` is the base retry delay in milliseconds (the
/// configuration file gives it in seconds).
pub struct RouterSettings {
    pub num_retries: u32,
    pub retry_after_ms: u64,
    pub allowed_fails: u32,
    pub cooldown_time: u64,
    pub routing_strategy: String,
    pub latency_window_size: usize,
    pub fallbacks: StrMap<Vec<String>>,
}

/// The whole gateway configuration.
pub struct Config {
    pub server: ServerConfig,
    pub auth: AuthConfig,
    pub providers: StrMap<ProviderEntry>,
    pub model_list: Vec<ModelEntry>,
    pub router_settings: RouterSettings,
    pub redis: RedisConfig,
    pub general_settings: GeneralSettings,
    pub database_url: Option<String>,
}

/// Default number of retries.
pub fn default_num_retries() -> (r: u32)
    ensures
        r == 3,
{
    3
}

/// Default base retry delay, in milliseconds.
pub fn default_retry_after_ms() -> (r: u64)
    ensures
        r == 500,
{
    500
}

/// Default number of consecutive failures before a cooldown.
pub fn default_allowed_fails() -> (r: u32)
    ensures
        r == 3,
{
    3
}

/// Default cooldown length, in seconds.
pub fn default_cooldown_time() -> (r: u64)
    ensures
        r == 30,
{
    30
}

impl Default for RouterSettings {
    /// The settings used when the configuration names none.
    fn default() -> (s: Self)
        ensures
            s.num_retries == 3,
            s.retry_after_ms == 500,
            s.allowed_fails == 3,
            s.cooldown_time == 30,
            s.routing_strategy@ == "simple_shuffle"@,
            s.latency_window_size == 100,
            s.fallbacks.wf(),
            s.fallbacks.view() == Map::<Seq<char>, Vec<String>>::empty(),
    {
        RouterSettings {
            num_retries: default_num_retries(),
            retry_after_ms: default_retry_after_ms(),
            allowed_fails: default_allowed_fails(),
            cooldown_time: default_cooldown_time(),
            routing_strategy: crate::text::owned("simple_shuffle"),
            latency_window_size: 100,
            fallbacks: StrMap::new(),
        }
    }
}

/// The placeholder `${name}`.
pub open spec fn placeholder(name: Seq<char>) -> Seq<char> {
    "${"@ + name + "}"@
}

/// `result` after the placeholder that may start at position `i` of `raw`
/// is handled: when `${` starts there and a `}` follows, the name between
/// them is looked up in `env`, and every `${name}` of `result` is replaced
/// by its value when it is set.
pub open spec fn resolve_step(raw: Seq<char>, env: Map<Seq<char>, String>, result: Seq<char>, i: int) -> Seq<char> {
    if occurs_at(raw, "${"@, i) {
        match find_from(raw, "}"@, i) {
            Some(e) => {
                let name = raw.subrange(i + 2, e);
                if env.dom().contains(name) {
                    replace_all(result, placeholder(name), env[name]@)
                } else {
                    result
                }
            },
            None => result,
        }
    } else {
        result
    }
}

/// `result` after the placeholders starting at positions `i` and later of
/// `raw` are handled, in order.
pub open spec fn resolve_from(raw: Seq<char>, env: Map<Seq<char>, String>, result: Seq<char>, i: int) -> Seq<char>
    decreases raw.len() - i,
{
    if i < 0 || i >= raw.len() {
        result
    } else {
        resolve_from(raw, env, resolve_step(raw, env, result, i), i + 1)
    }
}

/// The configuration text `raw` with its `${NAME}` placeholders replaced
/// by the values of the variables set in `env`.
pub open spec fn resolved(raw: Seq<char>, env: Map<Seq<char>, String>) -> Seq<char> {
    resolve_from(raw, env, raw, 0)
}

/// Replaces the `${NAME}` placeholders of a configuration text by the
/// values of the variables set in `env`; unset variables are left as
/// written.
pub fn resolve_env_vars(raw: &str, env: &StrMap<String>) -> (r: String)
    requires
        env.wf(),
    ensures
        r@ == resolved(raw@, env.view()),
{
    let s = chars_of(raw);
    let open = chars_of("${");
    let close = chars_of("}");
    proof {
        reveal_strlit("${");
        reveal_strlit("}");
        assert(open@ =~= seq!['$', '{']);
        assert(close@ =~= seq!['}']);
    }
    let n = s.len();
    let mut result: Vec<char> = tail(&s, 0);
    assert(s@.skip(0) =~= s@);
    let mut i: usize = 0;
    while i < n
        invariant
            n == s@.len(),
            s@ == raw@,
            open@ == "${"@,
            close@ == "}"@,
            open@ == seq!['$', '{'],
            close@ == seq!['}'],
            env.wf(),
            0 <= i <= n,
            resolve_from(s@, env.view(), result@, i as int) == resolved(raw@, env.view()),
        decreases n - i,
    {
        let ghost before = result@;
        if 2 <= n - i && occurs_at_exec(&s, &open, i) {
            match find_exec(&s, &close, i) {
                Some(e) => {
                    proof {
                        lemma_find_from_bounds(s@, close@, i as int);
                        assert(s@.subrange(i as int, i + 2)[0] == '$');
                        assert(s@.subrange(i as int, i + 2)[1] == '{');
                        if e == i {
                            assert(s@.subrange(i as int, i + 1)[0] == '}');
                        }
                        if e == i + 1 {
                            assert(s@.subrange(i + 1, i + 2)[0] == '}');
                        }
                    }
                    let name = string_of_chars(&s, i + 2, e);
                    match env.get(name.as_str()) {
                        Some(v) => {
                            let mut ph = chars_of("${");
                            let name_chars = chars_of(name.as_str());
                            let mut k: usize = 0;
                            while k < name_chars.len()
                                invariant
                                    0 <= k <= name_chars@.len(),
                                    ph@ == "${"@ + name_chars@.take(k as int),
                                decreases name_chars@.len() - k,
                            {
                                ph.push(name_chars[k]);
                                assert(name_chars@.take(k + 1) =~= name_chars@.take(k as int).push(name_chars@[k as int]));
                                k = k + 1;
                            }
                            ph.push('}');
                            assert(name_chars@.take(name_chars@.len() as int) =~= name_chars@);
                            assert(ph@ =~= placeholder(name@));
                            let value = chars_of(v.as_str());
                            result = replace_exec(&result, &ph, &value);
                        },
                        None => {},
                    }
                },
                None => {},
            }
        }
        assert(result@ == resolve_step(s@, env.view(), before, i as int));
        i = i + 1;
    }
    string_of_chars(&result, 0, result.len())
}

proof fn lemma_resolve_from_plain(raw: Seq<char>, env: Map<Seq<char>, String>, result: Seq<char>, i: int)
    requires
        0 <= i,
        forall|j: int| 0 <= j ==> !occurs_at(raw, "${"@, j),
    ensures
        resolve_from(raw, env, result, i) == result,
    decreases raw.len() - i,
{
    if i < raw.len() {
        lemma_resolve_from_plain(raw, env, result, i + 1);
    }
}

/// A configuration text without any `${` is left as written.
pub proof fn lemma_plain_text_unchanged(raw: Seq<char>, env: Map<Seq<char>, String>)
    requires
        forall|j: int| 0 <= j ==> !occurs_at(raw, "${"@, j),
    ensures
        resolved(raw, env) == raw,
{
    lemma_resolve_from_plain(raw, env, raw, 0);
}

/// The name of the placeholder that may start at position `i` of `raw`:
/// the text between a `${` there and the first `}` after it.
pub open spec fn placeholder_name_at(raw: Seq<char>, i: int) -> Option<Seq<char>> {
    if occurs_at(raw, "${"@, i) {
        match find_from(raw, "}"@, i) {
            Some(e) => Some(raw.subrange(i + 2, e)),
            None => None,
        }
    } else {
        None
    }
}

proof fn lemma_resolve_from_unset(raw: Seq<char>, env: Map<Seq<char>, String>, result: Seq<char>, i: int)
    requires
        0 <= i,
        forall|j: int| #[trigger] placeholder_name_at(raw, j) matches Some(n) ==> !env.dom().contains(n),
    ensures
        resolve_from(raw, env, result, i) == result,
    decreases raw.len() - i,
{
    if i < raw.len() {
        assert(placeholder_name_at(raw, i) is Some ==> !env.dom().contains(placeholder_name_at(raw, i)->0));
        lemma_resolve_from_unset(raw, env, result, i + 1);
    }
}

/// Placeholders of unset variables are left as written: a text all of
/// whose placeholders name variables that `env` does not set reads as
/// written.
pub proof fn lemma_unset_variables_kept(raw: Seq<char>, env: Map<Seq<char>, String>)
    requires
        forall|j: int| #[trigger] placeholder_name_at(raw, j) matches Some(n) ==> !env.dom().contains(n),
    ensures
        resolved(raw, env) == raw,
{
    lemma_resolve_from_unset(raw, env, raw, 0);
}

proof fn lemma_resolve_from_plain_after(raw: Seq<char>, env: Map<Seq<char>, String>, result: Seq<char>, i: int)
    requires
        0 <= i,
        forall|j: int| i <= j ==> !occurs_at(raw, "${"@, j),
    ensures
        resolve_from(raw, env, result, i) == result,
    decreases raw.len() - i,
{
    if i < raw.len() {
        lemma_resolve_from_plain_after(raw, env, result, i + 1);
    }
}

proof fn lemma_resolve_from_single(raw: Seq<char>, env: Map<Seq<char>, String>, result: Seq<char>, i: int, k: int)
    requires
        0 <= i <= k,
        forall|j: int| j != k ==> !occurs_at(raw, "${"@, j),
    ensures
        resolve_from(raw, env, result, i) == resolve_step(raw, env, result, k),
    decreases k - i,
{
    if i < k {
        lemma_resolve_from_single(raw, env, result, i + 1, k);
    } else if k < raw.len() {
        lemma_resolve_from_plain_after(raw, env, resolve_step(raw, env, result, k), k + 1);
    } else {
        reveal_strlit("${");
        assert(!occurs_at(raw, "${"@, k));
    }
}

/// A text with a single placeholder, `${NAME}` for a variable that `env`
/// sets, reads with the placeholder replaced by the variable's value
/// (wherever the placeholder text appears).
pub proof fn lemma_set_variable_replaced(raw: Seq<char>, env: Map<Seq<char>, String>, k: int)
    requires
        forall|j: int| j != k ==> !occurs_at(raw, "${"@, j),
        placeholder_name_at(raw, k) matches Some(n) && env.dom().contains(n),
    ensures
        ({
            let n = placeholder_name_at(raw, k)->0;
            resolved(raw, env) == replace_all(raw, placeholder(n), env[n]@)
        }),
{
    lemma_resolve_from_single(raw, env, raw, 0, k);
}

} // verus!
