use tokencamp::cache::DualCache;
use tokencamp::error::AppError;
use tokencamp::gateway::pre_call_hooks;
use tokencamp::hooks::cost_tracker::CostTracker;
use tokencamp::hooks::parallel_request_limiter::{
    current_minute_window, minute_window_of, LimitStage, LimitStep, ParallelRequestLimiter,
};
use tokencamp::hooks::{AuthContext, HookError};
use tokencamp::provider::ProviderError;
use tokencamp::types::{ChatRequest, ModelResponse, Usage};

fn auth(tpm: Option<u32>, rpm: Option<u32>) -> AuthContext {
    AuthContext { key_id: "k1".into(), key_name: None, tpm_limit: tpm, rpm_limit: rpm }
}

#[test]
fn minute_windows() {
    assert_eq!(minute_window_of(0), 0);
    assert_eq!(minute_window_of(59), 0);
    assert_eq!(minute_window_of(60), 60);
    assert_eq!(minute_window_of(125), 120);
    assert_eq!(current_minute_window() % 60, 0);
}

#[test]
fn limiter_allows_up_to_the_limit() {
    let limiter = ParallelRequestLimiter::new();
    let mut cache = DualCache::new_in_memory(8);
    let a = auth(Some(2), None);
    assert!(limiter.pre_call_in(&a, &mut cache, 600).is_ok());
    assert!(limiter.pre_call_in(&a, &mut cache, 600).is_ok());
    match limiter.pre_call_in(&a, &mut cache, 600) {
        Err(HookError::RateLimitExceeded(m)) => assert_eq!(m, "tpm limit 2 exceeded (current: 3)"),
        _ => panic!("expected a refusal"),
    }
    assert_eq!(cache.get("key:k1:tpm:600").as_deref(), Some("3"));
    assert_eq!(cache.get("key:k1:rpm:600").as_deref(), Some("2"));
    assert!(limiter.pre_call_in(&a, &mut cache, 660).is_ok());
}

#[test]
fn limiter_checks_requests_after_tokens() {
    let limiter = ParallelRequestLimiter::new();
    let mut cache = DualCache::new_in_memory(8);
    let a = auth(None, Some(1));
    assert!(limiter.pre_call_in(&a, &mut cache, 0).is_ok());
    match limiter.pre_call_in(&a, &mut cache, 0) {
        Err(e) => assert_eq!(e.to_string(), "rate limit exceeded (rpm limit 1 exceeded (current: 2))"),
        Ok(()) => panic!("expected a refusal"),
    }
    let unlimited = auth(None, None);
    for _ in 0..5 {
        assert!(limiter.pre_call(&unlimited, &mut cache).is_ok());
    }
}

#[test]
fn refusal_becomes_upstream_429() {
    let e = HookError::RateLimitExceeded("tpm limit 1 exceeded (current: 2)".into());
    match e.into_provider_error() {
        ProviderError::UpstreamError { status, message } => {
            assert_eq!(status, 429);
            assert_eq!(message, "rate limit exceeded (tpm limit 1 exceeded (current: 2))");
        },
        _ => panic!("expected an upstream error"),
    }
    assert_eq!(HookError::Internal("boom".into()).to_string(), "boom");
}

#[test]
fn pre_call_hooks_answer_429() {
    let limiter = ParallelRequestLimiter::new();
    let mut cache = DualCache::new_in_memory(8);
    let a = auth(Some(0), None);
    match pre_call_hooks(&limiter, &a, &mut cache) {
        Err(AppError::Provider(ProviderError::UpstreamError { status: 429, .. })) => {},
        _ => panic!("expected a refusal"),
    }
}

#[test]
fn spend_entries() {
    let tracker = CostTracker::new();
    let request = ChatRequest { model: "gpt".into(), messages: vec![], temperature: None, max_tokens: None, stream: None, extra: vec![] };
    let response = ModelResponse {
        id: "resp-1".into(),
        object: "chat.completion".into(),
        created: 0,
        model: "gpt".into(),
        choices: vec![],
        usage: Usage { prompt_tokens: 7, completion_tokens: 3, total_tokens: 10 },
    };
    let a = auth(None, None);
    let ok = tracker.success_entry(&request, &response, &a);
    assert_eq!(ok.key_id, "k1");
    assert_eq!(ok.request_id, "resp-1");
    assert_eq!(ok.model, "gpt");
    assert_eq!((ok.prompt_tokens, ok.completion_tokens), (7, 3));
    assert_eq!(ok.status, "success");
    let err = tracker.error_entry(&request, &a);
    assert_eq!(err.status, "error");
    assert_eq!(err.request_id, "");
    assert_eq!((err.prompt_tokens, err.completion_tokens), (0, 0));
    let mut cache = DualCache::new_in_memory(4);
    tracker.enqueue(&mut cache, "{\"status\":\"success\"}");
    assert_eq!(cache.get("spend_queue"), None);
}

#[test]
fn limiter_steps_for_an_outside_counter_store() {
    let limiter = ParallelRequestLimiter::new();
    let a = auth(Some(5), Some(1));
    match limiter.first_step(&a, 120) {
        LimitStep::Count { key, ttl_secs, stage } => {
            assert_eq!(key, "key:k1:tpm:120");
            assert_eq!(ttl_secs, 90);
            assert_eq!(stage, LimitStage::Tokens);
        },
        LimitStep::Verdict(_) => panic!("expected a count"),
    }
    match limiter.next_step(&a, 120, LimitStage::Tokens, 5) {
        LimitStep::Count { key, ttl_secs, stage } => {
            assert_eq!(key, "key:k1:rpm:120");
            assert_eq!(ttl_secs, 90);
            assert_eq!(stage, LimitStage::Requests);
        },
        LimitStep::Verdict(_) => panic!("expected a count"),
    }
    match limiter.next_step(&a, 120, LimitStage::Tokens, 6) {
        LimitStep::Verdict(Err(HookError::RateLimitExceeded(m))) => assert_eq!(m, "tpm limit 5 exceeded (current: 6)"),
        _ => panic!("expected a refusal"),
    }
    assert!(matches!(limiter.next_step(&a, 120, LimitStage::Requests, 1), LimitStep::Verdict(Ok(()))));
    match limiter.next_step(&a, 120, LimitStage::Requests, 2) {
        LimitStep::Verdict(Err(HookError::RateLimitExceeded(m))) => assert_eq!(m, "rpm limit 1 exceeded (current: 2)"),
        _ => panic!("expected a refusal"),
    }
}

#[test]
fn spend_queue_key() {
    assert_eq!(CostTracker::new().queue_key(), "spend_queue");
}
