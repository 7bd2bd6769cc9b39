use tokencamp::provider::anthropic::{AnthropicEventData, EventUsage};
use tokencamp::provider::ChunkTransformer;
use tokencamp::sse::take_sse_event;
use tokencamp::streaming::StreamWrapper;
use tokencamp::types::ChatRequest;

fn request() -> ChatRequest {
    ChatRequest { model: "c".into(), messages: vec![], temperature: None, max_tokens: None, stream: Some(true), extra: vec![] }
}

fn data() -> AnthropicEventData {
    AnthropicEventData { message_id: None, message_model: None, index: None, delta_text: None, stop_reason: None, usage: None }
}

#[test]
fn sse_events_are_framed_by_blank_lines() {
    let mut buf = b"event: message_start\ndata: {\"a\":1}\n\nevent: ping".to_vec();
    let e = take_sse_event(&mut buf).unwrap();
    assert_eq!(e.0, b"message_start".to_vec());
    assert_eq!(e.1, b"{\"a\":1}".to_vec());
    assert_eq!(buf, b"event: ping".to_vec());
    assert!(take_sse_event(&mut buf).is_none());
    assert_eq!(buf, b"event: ping".to_vec());
}

#[test]
fn sse_fields_are_trimmed_of_unicode_white_space() {
    let mut buf = "event: \u{2003}ping\u{85}\ndata: \u{a0}[1]\u{3000} \n\n".as_bytes().to_vec();
    let e = take_sse_event(&mut buf).unwrap();
    assert_eq!(e.0, b"ping".to_vec());
    assert_eq!(e.1, b"[1]".to_vec());
    assert!(buf.is_empty());
}

#[test]
fn sse_done_and_empty_events_are_dropped() {
    let mut buf = b"data: [DONE]\n\nevent: x\n\ndata:  payload \r\n\ndata:  [1, 2] \r\n\n".to_vec();
    assert!(take_sse_event(&mut buf).is_none());
    assert_eq!(buf, b"event: x\n\ndata:  payload \r\n\ndata:  [1, 2] \r\n\n".to_vec());
    assert!(take_sse_event(&mut buf).is_none());
    assert!(take_sse_event(&mut buf).is_none());
    assert_eq!(buf, b"data:  [1, 2] \r\n\n".to_vec());
    let e = take_sse_event(&mut buf).unwrap();
    assert_eq!(e.0, Vec::<u8>::new());
    assert_eq!(e.1, b"[1, 2]".to_vec());
    assert!(buf.is_empty());
}

#[test]
fn stream_wrapper_assembles_response() {
    let mut w = StreamWrapper::new(request(), ChunkTransformer::AnthropicToOpenAi);
    assert!(w.build_full_response().is_none());
    assert!(w.push_bytes(b"event: message_st").is_none());
    let e = w.push_bytes(b"art\ndata: {}\n\n").unwrap();
    assert_eq!(e.0, b"message_start".to_vec());
    w.record_event("message_start", &AnthropicEventData { message_id: Some("m1".into()), message_model: Some("c3".into()), ..data() }, 5);
    w.record_event("content_block_delta", &AnthropicEventData { delta_text: Some("Hel".into()), ..data() }, 6);
    w.record_event("content_block_delta", &AnthropicEventData { delta_text: Some("lo".into()), ..data() }, 6);
    w.record_event(
        "message_delta",
        &AnthropicEventData {
            stop_reason: Some("end_turn".into()),
            usage: Some(EventUsage { input_tokens: Some(3), output_tokens: Some(2) }),
            ..data()
        },
        7,
    );
    let stop = w.record_event("message_stop", &data(), 8);
    assert!(stop.done);
    let full = w.build_full_response().unwrap();
    assert_eq!(full.object, "chat.completion");
    assert_eq!(full.choices.len(), 1);
    assert_eq!(full.choices[0].message.role, "assistant");
    assert_eq!(full.choices[0].message.content, "Hello");
    assert_eq!(full.choices[0].finish_reason, "end_turn");
    assert_eq!(full.created, 8);
    assert_eq!((full.usage.prompt_tokens, full.usage.completion_tokens), (3, 2));
}

#[test]
fn stream_without_finish_reason_stops() {
    let mut w = StreamWrapper::new(request(), ChunkTransformer::AnthropicToOpenAi);
    w.record_event("content_block_delta", &AnthropicEventData { delta_text: Some("x".into()), ..data() }, 1);
    let full = w.build_full_response().unwrap();
    assert_eq!(full.choices[0].finish_reason, "stop");
    assert_eq!(full.usage.total_tokens, 0);
    assert_eq!(full.id, "");
}
