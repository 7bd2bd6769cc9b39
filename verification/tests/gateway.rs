use tokencamp::config::{
    AuthConfig, Config, GeneralSettings, LitellmParams, ModelEntry, ProviderEntry, RedisConfig, RouterSettings,
    ServerConfig,
};
use tokencamp::error::AppError;
use tokencamp::gateway::{
    chat_deployment_id, create_deployment, endpoint_url, health_probes, list_models, resolve_provider, wants_stream,
    CreateDeployment, MODEL_CREATED,
};
use tokencamp::handler::HttpHandler;
use tokencamp::provider::anthropic::{AnthropicConfig, AnthropicMode};
use tokencamp::provider::openai::OpenAiConfig;
use tokencamp::provider::{ChunkTransformer, ProviderConfig, ProviderError, RequestBody};
use tokencamp::router::cooldown::CooldownManager;
use tokencamp::router::Router;
use tokencamp::strmap::StrMap;
use tokencamp::types::{ChatRequest, Message};

fn entry(name: &str, provider: &str, upstream: Option<&str>) -> ModelEntry {
    ModelEntry {
        model_name: name.into(),
        provider: provider.into(),
        litellm_params: upstream.map(|m| LitellmParams { model: m.into() }),
    }
}

fn config() -> Config {
    let mut providers = StrMap::new();
    providers.insert("openai", ProviderEntry { api_key: "sk-o".into(), base_url: None });
    providers.insert("anthropic", ProviderEntry { api_key: "sk-a".into(), base_url: Some("http://a.local".into()) });
    providers.insert("weird", ProviderEntry { api_key: "w".into(), base_url: None });
    Config {
        server: ServerConfig { host: "0.0.0.0".into(), port: 3000 },
        auth: AuthConfig { api_keys: vec!["sk-static".into()] },
        providers,
        model_list: vec![
            entry("gpt", "openai", None),
            entry("sonnet", "anthropic", Some("sonnet-3-5")),
            entry("odd", "weird", None),
            entry("ghost", "missing", None),
        ],
        router_settings: RouterSettings::default(),
        redis: RedisConfig { url: None },
        general_settings: GeneralSettings { master_key: Some("mk".into()) },
        database_url: None,
    }
}

fn request(model: &str) -> ChatRequest {
    ChatRequest {
        model: model.into(),
        messages: vec![Message { role: "user".into(), content: "hi".into() }],
        temperature: None,
        max_tokens: None,
        stream: None,
        extra: vec![],
    }
}

#[test]
fn resolves_openai_deployment() {
    let c = config();
    let router = Router::new(CooldownManager::new_in_memory());
    match resolve_provider(&c, &router, "gpt") {
        Ok((ProviderConfig::OpenAi(p), key)) => {
            assert_eq!(p.base_url(), "https://api.openai.com");
            assert_eq!(key, "sk-o");
        },
        _ => panic!("expected the OpenAI provider"),
    }
}

#[test]
fn resolves_anthropic_deployment_with_upstream_model() {
    let c = config();
    let router = Router::new(CooldownManager::new_in_memory());
    match resolve_provider(&c, &router, "sonnet") {
        Ok((ProviderConfig::Anthropic(p), key)) => {
            assert_eq!(p.base_url(), "http://a.local");
            assert_eq!(key, "sk-a");
            assert!(!p.is_passthrough());
            match p.transform_request(&request("sonnet"), "sk-a") {
                Ok(r) => match r.body {
                    RequestBody::Anthropic(b) => assert_eq!(b.model, "sonnet-3-5"),
                    RequestBody::Unchanged => panic!("expected a Messages body"),
                },
                Err(_) => panic!("request refused"),
            }
        },
        _ => panic!("expected the Anthropic provider"),
    }
}

#[test]
fn resolution_errors() {
    let c = config();
    let router = Router::new(CooldownManager::new_in_memory());
    assert!(matches!(resolve_provider(&c, &router, "nope"), Err(AppError::ModelNotFound { model }) if model == "nope"));
    assert!(matches!(resolve_provider(&c, &router, "odd"), Err(AppError::ProviderNotFound { provider }) if provider == "weird"));
    assert!(matches!(resolve_provider(&c, &router, "ghost"), Err(AppError::ProviderNotFound { provider }) if provider == "missing"));
}

#[test]
fn several_deployments_go_through_the_router() {
    let mut c = config();
    c.model_list.push(entry("gpt", "anthropic", None));
    let mut cooldown = CooldownManager::new_in_memory();
    cooldown.mark("openai:gpt", 600).unwrap();
    let router = Router::new(cooldown);
    for _ in 0..10 {
        match resolve_provider(&c, &router, "gpt") {
            Ok((ProviderConfig::Anthropic(_), key)) => assert_eq!(key, "sk-a"),
            _ => panic!("expected the deployment not cooling down"),
        }
    }
    let mut cooldown = CooldownManager::new_in_memory();
    cooldown.mark("openai:gpt", 600).unwrap();
    cooldown.mark("anthropic:gpt", 600).unwrap();
    let router = Router::new(cooldown);
    assert!(matches!(resolve_provider(&c, &router, "gpt"), Err(AppError::ModelNotFound { .. })));
}

#[test]
fn health_probes_cover_configured_providers() {
    let probes = health_probes(&config());
    let got: Vec<(String, String)> = probes.into_iter().map(|p| (p.model_name, p.url)).collect();
    assert_eq!(
        got,
        vec![
            ("gpt".to_string(), "https://api.openai.com/v1/models".to_string()),
            ("sonnet".to_string(), "http://a.local/v1/models".to_string()),
            ("odd".to_string(), "https://api.openai.com/v1/models".to_string()),
        ]
    );
}

#[test]
fn model_listing() {
    let cards = list_models(&config());
    assert_eq!(cards.len(), 4);
    assert_eq!(cards[1].id, "sonnet");
    assert_eq!(cards[1].object, "model");
    assert_eq!(cards[1].owned_by, "anthropic");
    assert_eq!(cards[1].created, MODEL_CREATED);
    assert_eq!(MODEL_CREATED, 1717000000);
}

#[test]
fn deployment_creation_checks_provider() {
    let c = config();
    let body = CreateDeployment { model_name: "new".into(), provider: "openai".into(), litellm_params: None };
    match create_deployment(&c.providers, body) {
        Ok(e) => assert_eq!((e.model_name.as_str(), e.provider.as_str()), ("new", "openai")),
        Err(_) => panic!("expected the deployment"),
    }
    let body = CreateDeployment { model_name: "new".into(), provider: "nobody".into(), litellm_params: None };
    assert!(matches!(create_deployment(&c.providers, body), Err(400)));
}

#[test]
fn error_answers() {
    let e = AppError::Provider(ProviderError::UpstreamError { status: 404, message: "nf".into() });
    assert_eq!(e.status_and_message(), (404, "nf".to_string()));
    let e = AppError::Provider(ProviderError::UpstreamError { status: 42, message: "odd".into() });
    assert_eq!(e.status_and_message(), (500, "odd".to_string()));
    let e = AppError::Provider(ProviderError::UpstreamError { status: 1000, message: "big".into() });
    assert_eq!(e.status_and_message().0, 500);
    assert_eq!(AppError::Provider(ProviderError::Timeout).status_and_message(), (504, "upstream timeout".to_string()));
    assert_eq!(
        AppError::Provider(ProviderError::HttpError("x".into())).status_and_message(),
        (502, "upstream error".to_string())
    );
    assert_eq!(
        AppError::ModelNotFound { model: "m".into() }.status_and_message(),
        (400, "model 'm' not found".to_string())
    );
    assert_eq!(
        AppError::ProviderNotFound { provider: "p".into() }.status_and_message(),
        (500, "provider 'p' not configured".to_string())
    );
    assert_eq!(
        AppError::StreamNotSupported.status_and_message(),
        (400, "streaming is not supported in this version".to_string())
    );
}

#[test]
fn chat_helpers() {
    let mut r = request("m");
    assert!(!wants_stream(&r));
    r.stream = Some(false);
    assert!(!wants_stream(&r));
    r.stream = Some(true);
    assert!(wants_stream(&r));
    assert_eq!(chat_deployment_id("gpt-4"), "resolved:gpt-4");
    let p = ProviderConfig::OpenAi(OpenAiConfig::new(Some("http://x".into())));
    assert_eq!(endpoint_url(&p, "/v1/embeddings"), "http://x/v1/embeddings");
}

#[test]
fn handler_prepares_requests() {
    let h = HttpHandler::new();
    let p = ProviderConfig::OpenAi(OpenAiConfig::new(None));
    match h.prepare(&request("gpt"), &p, "sk") {
        Ok((req, url)) => {
            assert_eq!(url, "https://api.openai.com/v1/chat/completions");
            assert_eq!(req.headers[0], ("Authorization".to_string(), "Bearer sk".to_string()));
        },
        Err(_) => panic!("request refused"),
    }
    match h.prepare_stream(&request("gpt"), &p, "sk") {
        Ok((s, _, _)) => {
            assert_eq!(s.stream, Some(true));
            assert_eq!(s.messages[0].content, "hi");
        },
        Err(_) => panic!("request refused"),
    }
    assert!(matches!(h.stream_transformer(&p), Err(ProviderError::Timeout)));
    let a = ProviderConfig::Anthropic(AnthropicConfig::new(None, "x".into(), AnthropicMode::Chat));
    assert!(matches!(h.stream_transformer(&a), Ok(ChunkTransformer::AnthropicToOpenAi)));
    match h.prepare(&request("x"), &a, "k") {
        Ok((req, url)) => {
            assert_eq!(url, "https://api.anthropic.com/v1/messages");
            assert_eq!(req.headers[0], ("x-api-key".to_string(), "k".to_string()));
        },
        Err(_) => panic!("request refused"),
    }
    assert!(matches!(h.prepare(&request("x"), &a, "bad\nkey"), Err(ProviderError::SerializationError(m)) if m == "invalid api key"));
    match h.prepare_stream(&request("x"), &a, "k") {
        Ok((_, req, _)) => match req.body {
            RequestBody::Anthropic(b) => assert!(b.stream),
            RequestBody::Unchanged => panic!("expected a Messages body"),
        },
        Err(_) => panic!("request refused"),
    }
}

#[test]
fn handler_judges_raw_answers() {
    let h = HttpHandler::new();
    match h.finish_raw(200, b"{\"ok\":1}".to_vec()) {
        Ok(b) => assert_eq!(b, b"{\"ok\":1}".to_vec()),
        Err(_) => panic!("expected the body"),
    }
    match h.finish_raw(429, br#"{"error":{"message":"slow down"}}"#.to_vec()) {
        Err(ProviderError::UpstreamError { status, message }) => {
            assert_eq!(status, 429);
            assert_eq!(message, "slow down");
        },
        _ => panic!("expected an upstream error"),
    }
    match h.finish_raw(500, b"not json".to_vec()) {
        Err(ProviderError::UpstreamError { status, message }) => {
            assert_eq!(status, 500);
            assert_eq!(message, "unknown");
        },
        _ => panic!("expected an upstream error"),
    }
}

#[test]
fn provider_error_texts() {
    let e = ProviderError::UpstreamError { status: 503, message: "busy".into() };
    assert_eq!(e.to_string(), "upstream error: status=503, message=busy");
    assert_eq!(ProviderError::HttpError("refused".into()).to_string(), "HTTP error: refused");
    assert_eq!(ProviderError::SerializationError("eof".into()).to_string(), "serialization error: eof");
    assert_eq!(ProviderError::Timeout.to_string(), "timeout");
}

#[test]
fn openai_error_answers_read_from_raw_body() {
    let c = OpenAiConfig::new(None);
    match c.error_response(429, br#"{"error":{"message":"slow down"}}"#) {
        ProviderError::UpstreamError { status, message } => {
            assert_eq!(status, 429);
            assert_eq!(message, "slow down");
        },
        _ => panic!("expected an upstream error"),
    }
    match c.error_response(500, b"{}") {
        ProviderError::UpstreamError { message, .. } => assert_eq!(message, "unknown error"),
        _ => panic!("expected an upstream error"),
    }
    assert!(matches!(c.error_response(502, b"<html>"), ProviderError::SerializationError(_)));
}
