use tokencamp::cache::DualCache;
use tokencamp::config::RouterSettings;
use tokencamp::provider::ProviderError;
use tokencamp::router_strategy::lowest_cost::LowestCostStrategy;
use tokencamp::router_strategy::lowest_latency::LowestLatencyStrategy;
use tokencamp::router_strategy::simple_shuffle::SimpleShuffleStrategy;
use tokencamp::router_strategy::tag_based::{requested_tags, TagBasedStrategy};
use tokencamp::router_strategy::usage_based::UsageBasedStrategy;
use tokencamp::router_strategy::{build_strategy, DeploymentInfo, RoutingStrategy};
use tokencamp::types::{ChatRequest, ModelResponse, Usage};

fn dep(provider: &str) -> DeploymentInfo {
    DeploymentInfo {
        model_name: "m".into(),
        provider: provider.into(),
        prompt_price: None,
        completion_price: None,
        tpm_limit: None,
        rpm_limit: None,
        tags: vec![],
    }
}

fn make_resp() -> ModelResponse {
    ModelResponse {
        id: "".into(),
        object: "".into(),
        created: 0,
        model: "m".into(),
        choices: vec![],
        usage: Usage { prompt_tokens: 0, completion_tokens: 0, total_tokens: 0 },
    }
}

fn make_request(extra: Vec<(String, String)>) -> ChatRequest {
    ChatRequest { model: "m".into(), messages: vec![], temperature: None, max_tokens: None, stream: None, extra }
}

#[test]
fn test_select_fastest() {
    let mut strategy = LowestLatencyStrategy::new(10);
    let dep1 = dep("slow");
    let dep2 = dep("fast");
    strategy.track_success(&dep1, &make_resp(), Some(1000));
    strategy.track_success(&dep2, &make_resp(), Some(100));
    let deps = vec![dep1, dep2];
    let selected = strategy.select_deployment(&deps).unwrap();
    assert_eq!(selected.provider, "fast");
}

#[test]
fn test_select_returns_one() {
    let strategy = SimpleShuffleStrategy;
    let deps = vec![dep("p1"), dep("p2")];
    let selected = strategy.select_deployment(&deps);
    assert!(selected.is_some());
}

#[test]
fn test_select_lowest_usage() {
    let mut cache = DualCache::new_in_memory(10);
    let strategy = UsageBasedStrategy::new();
    let mut dep1 = dep("busy");
    dep1.tpm_limit = Some(100);
    dep1.rpm_limit = Some(10);
    let mut dep2 = dep("idle");
    dep2.tpm_limit = Some(100);
    dep2.rpm_limit = Some(10);
    for _ in 0..5 {
        strategy.track_success(&dep1, &make_resp(), None, &mut cache);
    }
    let deps = vec![dep1, dep2];
    let selected = strategy.select_deployment(&deps, &mut cache).unwrap();
    assert_eq!(selected.provider, "idle");
}

#[test]
fn usage_counters_are_readable_in_the_cache() {
    let mut cache = DualCache::new_in_memory(10);
    let strategy = UsageBasedStrategy::new();
    let d = dep("p");
    strategy.track_success(&d, &make_resp(), None, &mut cache);
    strategy.track_success(&d, &make_resp(), None, &mut cache);
    assert_eq!(cache.get("strategy:usage:m:p:tpm").as_deref(), Some("2"));
    assert_eq!(cache.get("strategy:usage:m:p:rpm").as_deref(), Some("2"));
}

#[test]
fn usage_with_zero_limit_counts_as_unloaded() {
    let mut cache = DualCache::new_in_memory(10);
    let strategy = UsageBasedStrategy::new();
    let mut limited = dep("limited");
    limited.tpm_limit = Some(0);
    limited.rpm_limit = Some(0);
    for _ in 0..3 {
        strategy.track_success(&limited, &make_resp(), None, &mut cache);
    }
    let mut other = dep("other");
    other.tpm_limit = Some(10);
    other.rpm_limit = Some(10);
    strategy.track_success(&other, &make_resp(), None, &mut cache);
    let deps = vec![other, limited];
    assert_eq!(strategy.select_deployment(&deps, &mut cache).unwrap().provider, "limited");
}

#[test]
fn usage_ties_keep_the_first() {
    let mut cache = DualCache::new_in_memory(10);
    let strategy = UsageBasedStrategy::new();
    let deps = vec![dep("a"), dep("b")];
    assert_eq!(strategy.select_deployment(&deps, &mut cache).unwrap().provider, "a");
    let empty: Vec<DeploymentInfo> = vec![];
    assert!(strategy.select_deployment(&empty, &mut cache).is_none());
}

#[test]
fn latency_failure_counts_as_slowest() {
    let mut strategy = LowestLatencyStrategy::new(10);
    let a = dep("a");
    let b = dep("b");
    strategy.track_success(&a, &make_resp(), Some(5000));
    strategy.track_failure(&b, &ProviderError::Timeout);
    let deps = vec![b, a];
    assert_eq!(strategy.select_deployment(&deps).unwrap().provider, "a");
}

#[test]
fn latency_window_keeps_only_recent_values() {
    let mut strategy = LowestLatencyStrategy::new(2);
    let a = dep("a");
    let b = dep("b");
    strategy.track_success(&a, &make_resp(), Some(1000));
    strategy.track_success(&a, &make_resp(), Some(10));
    strategy.track_success(&a, &make_resp(), Some(10));
    strategy.track_success(&b, &make_resp(), Some(50));
    let deps = vec![b, a];
    assert_eq!(strategy.select_deployment(&deps).unwrap().provider, "a");
}

#[test]
fn untracked_deployment_is_preferred() {
    let mut strategy = LowestLatencyStrategy::new(10);
    let a = dep("a");
    strategy.track_success(&a, &make_resp(), Some(1));
    let deps = vec![a, dep("new")];
    assert_eq!(strategy.select_deployment(&deps).unwrap().provider, "new");
}

#[test]
fn cheapest_deployment_first() {
    let strategy = LowestCostStrategy;
    let mut a = dep("a");
    a.prompt_price = Some(30);
    let mut b = dep("b");
    b.prompt_price = Some(10);
    let mut c = dep("c");
    c.prompt_price = Some(10);
    let deps = vec![dep("unpriced"), a, b, c];
    assert_eq!(strategy.select_deployment(&deps).unwrap().provider, "b");
    let empty: Vec<DeploymentInfo> = vec![];
    assert!(strategy.select_deployment(&empty).is_none());
}

#[test]
fn tags_select_first_matching_deployment() {
    let strategy = TagBasedStrategy;
    let mut a = dep("a");
    a.tags = vec!["fast".into()];
    let mut b = dep("b");
    b.tags = vec!["fast".into(), "eu".into()];
    let deps = vec![a, b];
    let wanted = vec!["eu".to_string(), "fast".to_string()];
    assert_eq!(strategy.select_deployment(&deps, &wanted).unwrap().provider, "b");
    assert_eq!(strategy.select_deployment(&deps, &vec![]).unwrap().provider, "a");
    assert!(strategy.select_deployment(&deps, &vec!["us".to_string()]).is_none());
}

#[test]
fn requested_tags_come_from_the_tags_field() {
    let r = make_request(vec![("_tags".into(), r#"["eu", 3, "fast"]"#.into())]);
    assert_eq!(requested_tags(&r), vec!["eu".to_string(), "fast".to_string()]);
    let r = make_request(vec![("_tags".into(), r#"{"a": 1}"#.into())]);
    assert!(requested_tags(&r).is_empty());
    let r = make_request(vec![("other".into(), r#"["x"]"#.into())]);
    assert!(requested_tags(&r).is_empty());
}

#[test]
fn strategy_chosen_by_name() {
    let mut settings = RouterSettings::default();
    assert_eq!(build_strategy(&settings).name(), "simple_shuffle");
    for name in ["lowest_cost", "lowest_latency", "usage_based", "tag_based"] {
        settings.routing_strategy = name.to_string();
        assert_eq!(build_strategy(&settings).name(), name);
    }
    settings.routing_strategy = "unknown".to_string();
    assert!(matches!(build_strategy(&settings), RoutingStrategy::SimpleShuffle(_)));
}

#[test]
fn dispatch_uses_request_tags() {
    let mut settings = RouterSettings::default();
    settings.routing_strategy = "tag_based".to_string();
    let strategy = build_strategy(&settings);
    let mut a = dep("a");
    a.tags = vec!["x".into()];
    let mut b = dep("b");
    b.tags = vec!["y".into()];
    let deps = vec![a, b];
    let mut cache = DualCache::new_in_memory(4);
    let r = make_request(vec![("_tags".into(), r#"["y"]"#.into())]);
    assert_eq!(strategy.select_deployment(&deps, &r, &mut cache).unwrap().provider, "b");
}

#[test]
fn latency_failures_rank_as_double_means() {
    let mut strategy = LowestLatencyStrategy::new(10);
    let a = dep("a");
    let b = dep("b");
    strategy.track_failure(&a, &ProviderError::Timeout);
    strategy.track_failure(&a, &ProviderError::Timeout);
    strategy.track_success(&a, &make_resp(), Some(0));
    for _ in 0..3 {
        strategy.track_failure(&b, &ProviderError::Timeout);
    }
    strategy.track_success(&b, &make_resp(), Some(0));
    let deps = vec![dep("a"), dep("b")];
    assert_eq!(strategy.select_deployment(&deps).unwrap().provider, "a");
    let deps = vec![b, a];
    assert_eq!(strategy.select_deployment(&deps).unwrap().provider, "b");

    let mut strategy = LowestLatencyStrategy::new(10);
    let c = dep("c");
    let d = dep("d");
    strategy.track_failure(&c, &ProviderError::Timeout);
    strategy.track_success(&c, &make_resp(), Some(10));
    strategy.track_failure(&d, &ProviderError::Timeout);
    strategy.track_success(&d, &make_resp(), Some(20));
    strategy.track_success(&d, &make_resp(), Some(20));
    let deps = vec![c, d];
    assert_eq!(strategy.select_deployment(&deps).unwrap().provider, "d");
}
