//! The provider with canned answers, and what collects a stream.

use tars_provider::backends::bedrock::BedrockProviderBuilder;
use tars_provider::backends::mock::{CannedResponse, MockProvider};
use tars_provider::capabilities::Capabilities;
use tars_provider::json::Json;
use tars_provider::tool_buffer::ToolCallBuffer;
use tars_provider::types::{
    complete, ChatEvent, ChatRequest, ModelHint, ProviderError, StopReason, Usage,
};

fn ping() -> ChatRequest {
    ChatRequest::user(ModelHint::Explicit("test-model".into()), "ping")
}

#[test]
fn text_response_yields_three_events() {
    let mut p = MockProvider::new("mock", CannedResponse::text("hi"));
    let events = p.stream(ping(), "test-model").unwrap();
    assert_eq!(events.len(), 3);
    assert!(events.iter().any(|e| matches!(e, ChatEvent::Finished { .. })));
}

#[test]
fn complete_aggregates_text() {
    let mut p = MockProvider::new("mock", CannedResponse::text("hello world"));
    let r = complete(p.stream(ping(), "test-model").unwrap());
    assert_eq!(r.text, "hello world");
    assert!(r.is_finished());
}

#[test]
fn records_call_count() {
    let mut p = MockProvider::new("mock", CannedResponse::text("hi"));
    for _ in 0..3 {
        assert!(p.stream(ping(), "test-model").is_ok(), "complete() unexpectedly errored");
    }
    assert_eq!(p.call_count(), 3);
    assert_eq!(p.history_snapshot().len(), 3);
}

#[test]
fn error_response_propagates() {
    let mut p = MockProvider::new("mock", CannedResponse::Error("boom".into()));
    let r = p.stream(ping(), "test-model");
    assert!(r.is_err());
}

#[test]
fn answers_come_in_turn_and_the_last_one_stays() {
    let mut p = MockProvider::with_responses(
        "mock",
        vec![CannedResponse::text("one"), CannedResponse::text("two")],
    );
    assert_eq!(p.id(), "mock");
    let mut said = || complete(p.stream(ping(), "m").unwrap()).text;
    assert_eq!(said(), "one");
    assert_eq!(said(), "two");
    assert_eq!(said(), "two");
    p.set_response(CannedResponse::text("three"));
    assert_eq!(complete(p.stream(ping(), "m").unwrap()).text, "three");
}

#[test]
fn a_stream_is_collected() {
    let r = complete(vec![
        ChatEvent::started("m"),
        ChatEvent::ThinkingDelta { text: "hm".into() },
        ChatEvent::Delta { text: "a".into() },
        ChatEvent::Delta { text: "b".into() },
        ChatEvent::Finished {
            stop_reason: StopReason::EndTurn,
            usage: Usage { output_tokens: 2, ..Usage::default() },
        },
    ]);
    assert_eq!(r.actual_model, "m");
    assert_eq!(r.thinking, "hm");
    assert_eq!(r.text, "ab");
    assert_eq!(r.stop_reason, Some(StopReason::EndTurn));
    assert_eq!(r.usage.output_tokens, 2);
    assert!(!complete(vec![]).is_finished());
}

#[test]
fn the_call_of_a_tool_is_put_together() {
    let mut buf = ToolCallBuffer::new();
    buf.on_start(1, "id".into(), "f".into());
    buf.on_delta(1, "{\"a\"");
    buf.on_delta(1, ":1}");
    let (id, name, args) = buf.finalize(1).unwrap();
    assert_eq!(id, "id");
    assert_eq!(name, "f");
    assert_eq!(args.u64_or_zero("a"), 1);
    buf.on_start(2, "id".into(), "f".into());
    buf.on_delta(2, "{");
    assert!(matches!(buf.finalize(2), Err(ProviderError::Parse(_))));
    buf.on_start(3, "id".into(), "f".into());
    assert_eq!(buf.finalize(3).unwrap().2, Json::Obj(vec![]));
    assert!(buf.take_started());
    assert!(!buf.take_started());
}

#[test]
fn a_bedrock_provider_is_put_together() {
    let usual = Capabilities::delegated(1, 2, false);
    let p = BedrockProviderBuilder::new("b", "eu-1".into(), "m".into())
        .profile(Some("dev".into()))
        .build(usual);
    assert_eq!(p.region, "eu-1");
    assert_eq!(p.profile.as_deref(), Some("dev"));
    assert_eq!(p.capabilities, usual);
    let other = Capabilities::delegated(3, 4, true);
    let p = BedrockProviderBuilder::new("b", "r".into(), "m".into()).capabilities(other).build(usual);
    assert_eq!(p.capabilities, other);
}
