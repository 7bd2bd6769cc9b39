use tokencamp::config::{ModelEntry, RouterSettings};
use tokencamp::provider::ProviderError;
use tokencamp::resilience::retry::{
    backoff, is_retryable, retry_delay, retry_delay_with, settle_failure, RetryAction, RetryConfig, RetryState,
};
use tokencamp::router::cooldown::CooldownManager;
use tokencamp::router::{deployment_key, Router, RouterError};
use tokencamp::strmap::StrMap;

fn upstream(status: u16) -> ProviderError {
    ProviderError::UpstreamError { status, message: "x".into() }
}

#[test]
fn retryable_errors() {
    assert!(is_retryable(&upstream(429)));
    assert!(is_retryable(&upstream(500)));
    assert!(is_retryable(&upstream(503)));
    assert!(is_retryable(&upstream(599)));
    assert!(is_retryable(&ProviderError::Timeout));
    assert!(!is_retryable(&upstream(400)));
    assert!(!is_retryable(&upstream(401)));
    assert!(!is_retryable(&upstream(600)));
    assert!(!is_retryable(&ProviderError::HttpError("e".into())));
    assert!(!is_retryable(&ProviderError::SerializationError("e".into())));
}

#[test]
fn backoff_doubles() {
    assert_eq!(backoff(0, 500), 500);
    assert_eq!(backoff(1, 500), 1000);
    assert_eq!(backoff(3, 500), 4000);
    assert_eq!(backoff(70, 500), u64::MAX);
    assert_eq!(backoff(40, 0), 0);
    assert_eq!(retry_delay_with(2, 500, 1234), 2034);
    assert_eq!(retry_delay_with(0, u64::MAX, 99), u64::MAX);
    let d = retry_delay(1, 500);
    assert!(d >= 1000 && d < 1100);
}

#[test]
fn retry_state_grants_configured_retries() {
    let config = RetryConfig { num_retries: 2, retry_after_ms: 100 };
    let mut s = RetryState::new(&config);
    assert!(matches!(s.on_failure_with(upstream(503), 7), RetryAction::Wait(107)));
    assert!(matches!(s.on_failure_with(ProviderError::Timeout, 0), RetryAction::Wait(200)));
    match s.on_failure_with(upstream(429), 0) {
        RetryAction::GiveUp(ProviderError::UpstreamError { status: 429, .. }) => {},
        _ => panic!("expected to give up"),
    }
}

#[test]
fn non_retryable_error_gives_up_at_once() {
    let mut s = RetryState::new(&RetryConfig::default());
    match s.on_failure(upstream(401)) {
        RetryAction::GiveUp(ProviderError::UpstreamError { status: 401, .. }) => {},
        _ => panic!("expected to give up"),
    }
    match s.on_failure(upstream(500)) {
        RetryAction::Wait(d) => assert!(d >= 500 && d < 600),
        _ => panic!("expected a retry"),
    }
}

#[test]
fn retry_config_defaults_and_settings() {
    let c = RetryConfig::default();
    assert_eq!((c.num_retries, c.retry_after_ms), (3, 500));
    let mut s = RouterSettings::default();
    s.num_retries = 5;
    s.retry_after_ms = 250;
    let c = RetryConfig::from(s);
    assert_eq!((c.num_retries, c.retry_after_ms), (5, 250));
}

#[test]
fn cooldown_after_allowed_fails() {
    let mut m = CooldownManager::new_in_memory();
    assert_eq!(settle_failure(&mut m, "p:m", 3, 30), 1);
    assert_eq!(settle_failure(&mut m, "p:m", 3, 30), 2);
    assert!(!m.is_cooling_down("p:m"));
    assert_eq!(settle_failure(&mut m, "p:m", 3, 30), 3);
    assert!(m.is_cooling_down("p:m"));
    assert_eq!(settle_failure(&mut m, "other", 3, 30), 1);
    assert!(!m.is_cooling_down("other"));
}

#[test]
fn success_resets_failures() {
    let mut m = CooldownManager::new_in_memory();
    assert_eq!(m.record_failure("d"), 1);
    assert_eq!(m.record_failure("d"), 2);
    m.record_success("d");
    assert_eq!(m.record_failure("d"), 1);
}

#[test]
fn cooldown_window_boundaries() {
    let mut m = CooldownManager::new_in_memory();
    m.mark_at("d", 30, 1_000);
    assert!(m.is_cooling_down_at("d", 1_000));
    assert!(m.is_cooling_down_at("d", 30_999));
    assert!(!m.is_cooling_down_at("d", 31_000));
    assert!(!m.is_cooling_down_at("e", 1_000));
    m.mark_at("s", u64::MAX, 5);
    assert!(m.is_cooling_down_at("s", u64::MAX - 1));
    assert!(m.mark("now", 60).is_ok());
    assert!(m.is_cooling_down("now"));
}

fn entry(name: &str, provider: &str) -> ModelEntry {
    ModelEntry { model_name: name.into(), provider: provider.into(), litellm_params: None }
}

#[test]
fn router_skips_cooling_deployments() {
    let mut cooldown = CooldownManager::new_in_memory();
    cooldown.mark_at("a:m", 60, 0);
    let router = Router::new(cooldown);
    let deps = vec![entry("m", "a"), entry("m", "b")];
    let fallbacks = StrMap::new();
    for _ in 0..20 {
        let d = router.select_deployment_at("m", &deps, &fallbacks, 1_000).unwrap();
        assert_eq!(d.provider, "b");
    }
}

#[test]
fn router_fails_when_every_deployment_cools_down() {
    let mut cooldown = CooldownManager::new_in_memory();
    cooldown.mark_at("a:m", 60, 0);
    cooldown.mark_at("b:alt1", 60, 0);
    let router = Router::new(cooldown);
    let deps = vec![entry("m", "a"), entry("alt1", "b")];
    let mut fallbacks = StrMap::new();
    fallbacks.insert("m", vec!["alt1".to_string(), "m".to_string()]);
    assert!(matches!(router.select_deployment_at("m", &deps, &fallbacks, 1_000), Err(RouterError::NoAvailableDeployment)));
    let d = router.select_deployment_at("m", &deps, &fallbacks, 100_000);
    assert!(d.is_ok());
}

#[test]
fn router_picks_only_available_deployments() {
    let mut cooldown = CooldownManager::new_in_memory();
    cooldown.mark_at("a:m", 60, 0);
    cooldown.mark_at("b:alt1", 60, 0);
    let router = Router::new(cooldown);
    let deps = vec![entry("m", "a"), entry("alt1", "b"), entry("alt2", "c")];
    let fallbacks = StrMap::new();
    for _ in 0..10 {
        let d = router.select_deployment_at("m", &deps, &fallbacks, 1_000).unwrap();
        assert_eq!(d.provider, "c");
    }
    let empty: Vec<ModelEntry> = vec![];
    assert!(router.select_deployment("m", &empty, &fallbacks).is_err());
}

#[test]
fn deployment_keys() {
    assert_eq!(deployment_key(&entry("gpt", "openai")), "openai:gpt");
}
