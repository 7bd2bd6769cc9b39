use tokencamp::provider::anthropic::{
    anthropic_chunk_to_openai, AnthropicConfig, AnthropicEventData, AnthropicMode, AnthropicResponseBody,
};
use tokencamp::provider::{ChunkTransformer, HttpMethod, ProviderError, RequestBody};
use tokencamp::streaming::StreamWrapper;
use tokencamp::types::OpenAiChunk;
use tokencamp::types::{ChatRequest, Message};

fn make_request() -> ChatRequest {
    ChatRequest {
        model: "sonnet-4-5".to_string(),
        messages: vec![
            Message { role: "system".to_string(), content: "You are helpful.".to_string() },
            Message { role: "user".to_string(), content: "Hello".to_string() },
        ],
        temperature: Some(0.7f64.to_bits()),
        max_tokens: Some(500),
        stream: Some(false),
        extra: vec![],
    }
}

fn convert(event: &str, payload: &str) -> OpenAiChunk {
    let mut w = StreamWrapper::new(make_request(), ChunkTransformer::AnthropicToOpenAi);
    w.record_payload(event.as_bytes(), payload.as_bytes(), 0).unwrap()
}

fn no_event_data() -> AnthropicEventData {
    AnthropicEventData { message_id: None, message_model: None, index: None, delta_text: None, stop_reason: None, usage: None }
}

#[test]
fn test_transform_request_chat_mode() {
    let config = AnthropicConfig::new(None, "sonnet-4-5-20250929".into(), AnthropicMode::Chat);
    let req = match config.transform_request(&make_request(), "test-key") {
        Ok(r) => r,
        Err(_) => panic!("request refused"),
    };
    assert_eq!(req.method, HttpMethod::Post);
    assert_eq!(req.path, "/v1/messages");
    let key = req.headers.iter().find(|(k, _)| k == "x-api-key").map(|(_, v)| v.clone());
    assert_eq!(key.as_deref(), Some("test-key"));
    match req.body {
        RequestBody::Anthropic(body) => {
            assert_eq!(body.system.as_ref().unwrap()[0].content, "You are helpful.");
            assert_eq!(body.messages[0].content, "Hello");
            assert_eq!(body.model, "sonnet-4-5-20250929");
            assert_eq!(body.max_tokens, 500);
        },
        RequestBody::Unchanged => panic!("expected a Messages body"),
    }
}

#[test]
fn test_transform_request_defaults() {
    let config = AnthropicConfig::new(None, "x".into(), AnthropicMode::Chat);
    let req = ChatRequest {
        model: "x".into(),
        messages: vec![Message { role: "user".into(), content: "Hi".into() }],
        temperature: None,
        max_tokens: None,
        stream: None,
        extra: vec![],
    };
    let out = match config.transform_request(&req, "k") {
        Ok(r) => r,
        Err(_) => panic!("request refused"),
    };
    match out.body {
        RequestBody::Anthropic(body) => {
            assert_eq!(body.max_tokens, 1024);
            assert!(body.system.is_none());
        },
        RequestBody::Unchanged => panic!("expected a Messages body"),
    }
}

#[test]
fn test_transform_response_chat_mode() {
    let config = AnthropicConfig::new(None, "x".into(), AnthropicMode::Chat);
    let body = br#"{"id":"msg_123","model":"x","content":[{"type":"text","text":"Hi!"}],"stop_reason":"end_turn","usage":{"input_tokens":10,"output_tokens":5}}"#;
    let result = match config.transform_raw_response(200, body, 0) {
        Some(Ok(r)) => r,
        _ => panic!("response refused"),
    };
    assert_eq!(result.choices[0].message.content, "Hi!");
    assert_eq!(result.usage.total_tokens, 15);
}

#[test]
fn test_transform_response_error() {
    let config = AnthropicConfig::new(None, "x".into(), AnthropicMode::Chat);
    let body = br#"{"error":{"message":"bad key"}}"#;
    let err = config.transform_raw_response(401, body, 0);
    assert!(matches!(err, Some(Err(ProviderError::UpstreamError { status: 401, .. }))));
}

#[test]
fn test_sse_content_block_delta() {
    let chunk = convert("content_block_delta", r#"{"type":"content_block_delta","index":0,"delta":{"type":"text_delta","text":"Hi"}}"#);
    assert_eq!(chunk.choices[0].delta.content.as_deref(), Some("Hi"));
}

#[test]
fn test_sse_message_start() {
    let chunk = convert("message_start", r#"{"message":{"id":"m1","model":"c3"}}"#);
    assert_eq!(chunk.choices[0].delta.role.as_deref(), Some("assistant"));
}

#[test]
fn test_sse_message_delta() {
    let chunk = convert("message_delta", r#"{"delta":{"stop_reason":"end_turn"},"usage":{"input_tokens":10,"output_tokens":5}}"#);
    assert_eq!(chunk.usage.unwrap().prompt_tokens, 10);
    assert!(chunk.choices[0].finish_reason.is_some());
}

#[test]
fn test_sse_message_stop() {
    let chunk = convert("message_stop", "{}");
    assert!(chunk.done);
}

#[test]
fn test_mode_switching() {
    let chat = AnthropicConfig::new(None, "x".into(), AnthropicMode::Chat);
    let msg = AnthropicConfig::new(None, "x".into(), AnthropicMode::Messages);
    assert!(!chat.is_passthrough());
    assert!(msg.is_passthrough());
    assert!(chat.chunk_transformer().is_some());
    assert!(msg.chunk_transformer().is_none());
}

#[test]
fn invalid_api_key_is_refused_as_serialization_error() {
    let config = AnthropicConfig::new(None, "x".into(), AnthropicMode::Chat);
    match config.transform_request(&make_request(), "bad\nkey") {
        Err(ProviderError::SerializationError(m)) => assert_eq!(m, "invalid api key"),
        _ => panic!("expected a refusal"),
    }
}

#[test]
fn unknown_event_gives_empty_chunk() {
    let chunk = anthropic_chunk_to_openai("ping", &no_event_data(), 42);
    assert!(!chunk.done);
    assert!(chunk.choices.is_empty());
    assert_eq!(chunk.created, 42);
    assert_eq!(chunk.object, "chat.completion.chunk");
}

#[test]
fn response_error_without_message_says_unknown_error() {
    let config = AnthropicConfig::new(None, "x".into(), AnthropicMode::Chat);
    let body = AnthropicResponseBody {
        error_message: None,
        id: None,
        model: None,
        first_text: None,
        stop_reason: None,
        input_tokens: None,
        output_tokens: None,
    };
    match config.transform_response(500, &body, 0) {
        Err(ProviderError::UpstreamError { status, message }) => {
            assert_eq!(status, 500);
            assert_eq!(message, "unknown error");
        },
        _ => panic!("expected an upstream error"),
    }
}

#[test]
fn response_fields_read_from_raw_body() {
    let config = AnthropicConfig::new(None, "x".into(), AnthropicMode::Chat);
    assert!(matches!(config.transform_raw_response(200, b"not json", 0), Some(Err(ProviderError::SerializationError(_)))));
    assert!(matches!(config.transform_raw_response(500, b"<html>", 0), Some(Err(ProviderError::SerializationError(_)))));
    match config.transform_raw_response(503, b"{}", 0) {
        Some(Err(ProviderError::UpstreamError { status, message })) => {
            assert_eq!(status, 503);
            assert_eq!(message, "unknown error");
        },
        _ => panic!("expected an upstream error"),
    }
    let big = br#"{"usage":{"input_tokens":4294967295,"output_tokens":1}}"#;
    assert!(config.transform_raw_response(200, big, 0).is_none());
    assert!(matches!(config.transform_raw_response(400, big, 0), Some(Err(ProviderError::UpstreamError { status: 400, .. }))));
    let r = match config.transform_raw_response(200, br#"{"content":[],"usage":{"input_tokens":7}}"#, 3) {
        Some(Ok(r)) => r,
        _ => panic!("response refused"),
    };
    assert_eq!(r.choices[0].message.content, "");
    assert_eq!(r.choices[0].finish_reason, "stop");
    assert_eq!((r.usage.prompt_tokens, r.usage.completion_tokens, r.usage.total_tokens), (7, 0, 7));
    assert_eq!(r.created, 3);
}

#[test]
fn event_payloads_read_from_raw_bytes() {
    let mut w = StreamWrapper::new(make_request(), ChunkTransformer::AnthropicToOpenAi);
    assert!(w.record_payload(b"message_delta", b"not json", 0).is_none());
    assert!(w.build_full_response().is_none());
    let c = w.record_payload(b"message_delta", br#"{"delta":{"stop_reason":"max_tokens"},"usage":7}"#, 1).unwrap();
    assert!(c.usage.is_none());
    assert_eq!(c.choices[0].finish_reason.as_deref(), Some("max_tokens"));
    let c = w.record_payload(b"content_block_delta", br#"{"index":2,"delta":{"text":"ab"}}"#, 1).unwrap();
    assert_eq!(c.choices[0].index, 2);
    assert_eq!(c.choices[0].delta.content.as_deref(), Some("ab"));
}
