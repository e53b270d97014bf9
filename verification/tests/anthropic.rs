//! The messages API of Anthropic.

use serde_json::Value;
use tars_provider::auth::{Auth, ResolvedAuth};
use tars_provider::backends::anthropic::adapter::{
    translate_message, AnthropicAdapter, STRUCTURED_OUTPUT_TOOL,
};
use tars_provider::backends::anthropic::batch::{
    message_to_chat_response, parse_batch_results, submit_body, translate_batch_status,
};
use tars_provider::backends::anthropic::mapping::{map_stop_reason, parse_usage};
use tars_provider::backends::anthropic::provider::{
    AnthropicProviderBuilder, DEFAULT_API_VERSION, DEFAULT_BASE_URL,
};
use tars_provider::batch::{BatchItemId, BatchJobId, BatchStatus};
use tars_provider::exchange::{CallBody, HttpMethod, HttpReply, ReplyBody};
use tars_provider::http_base::{HttpProviderExtras, SseEvent};
use tars_provider::json::{parse_json, print_json, Json};
use tars_provider::tool_buffer::ToolCallBuffer;
use tars_provider::types::{
    CacheDirective, ChatEvent, ChatRequest, ContentBlock, JsonSchema, Message, ModelHint,
    ProviderError, StopReason, ToolCall, ToolChoice, ToolSpec, Usage,
};

fn value(j: &Json) -> Value {
    serde_json::from_str(&print_json(j)).unwrap()
}

fn json(text: &str) -> Json {
    parse_json(text).unwrap()
}

fn adapter() -> AnthropicAdapter {
    AnthropicAdapter::new(
        DEFAULT_BASE_URL.into(),
        DEFAULT_API_VERSION.into(),
        HttpProviderExtras::default(),
    )
}

fn opus() -> ModelHint {
    ModelHint::Explicit("opus-4-7".into())
}

fn header<'a>(h: &'a Vec<(String, String)>, name: &str) -> Option<&'a str> {
    h.iter().find(|kv| kv.0 == name).map(|kv| kv.1.as_str())
}

fn check_401() {
    let err = adapter().classify_error(401, &vec![], r#"{"error":{"message":"invalid"}}"#);
    assert_eq!(err, ProviderError::Auth("invalid".into()));
}

fn check_system() {
    let req = ChatRequest::user(opus(), "hello").with_system("you are concise");
    let body = value(&adapter().translate_request(&req).unwrap());
    assert!(body["system"].is_array());
    assert_eq!(body["system"][0]["type"], "text");
    assert_eq!(body["system"][0]["text"], "you are concise");
    assert_eq!(body["model"], "opus-4-7");
    assert_eq!(body["stream"], true);
}

fn check_cache_marker() {
    let mut req = ChatRequest::user(opus(), "context").with_system("sys");
    req.cache_directives.push(CacheDirective::MarkBoundary { ttl_ms: 300_000 });
    let body = value(&adapter().translate_request(&req).unwrap());
    let last_block = &body["messages"][0]["content"][0];
    assert_eq!(last_block["cache_control"]["type"], "ephemeral");
    assert_eq!(body["system"][0]["cache_control"]["type"], "ephemeral");
}

fn check_structured_output() {
    let mut req = ChatRequest::user(opus(), "give json");
    req.structured_output = Some(JsonSchema::strict("Resp", json(r#"{"type":"object"}"#)));
    let body = value(&adapter().translate_request(&req).unwrap());
    assert_eq!(body["tool_choice"]["type"], "tool");
    assert_eq!(body["tool_choice"]["name"], STRUCTURED_OUTPUT_TOOL);
    let tools = body["tools"].as_array().unwrap();
    assert!(tools.iter().any(|t| t["name"] == STRUCTURED_OUTPUT_TOOL));
}

fn check_headers() {
    let a = adapter();
    let err = a.build_headers(&ResolvedAuth::Absent).unwrap_err();
    assert!(matches!(err, ProviderError::Auth(_)));

    let h = a.build_headers(&ResolvedAuth::ApiKey("sk-ant-x".into())).unwrap();
    assert_eq!(header(&h, "x-api-key").unwrap(), "sk-ant-x");
    assert_eq!(header(&h, "anthropic-version").unwrap(), DEFAULT_API_VERSION);
}

fn check_stop_reasons() {
    assert_eq!(map_stop_reason("end_turn"), StopReason::EndTurn);
    assert_eq!(map_stop_reason("max_tokens"), StopReason::MaxTokens);
    assert_eq!(map_stop_reason("tool_use"), StopReason::ToolUse);
    assert_eq!(map_stop_reason("stop_sequence"), StopReason::StopSequence);
    assert_eq!(map_stop_reason("???"), StopReason::Other);
}

#[test]
fn anthropic_classify_401_is_auth() {
    check_401();
}

#[test]
fn anthropic_translate_request_promotes_system_to_top_level() {
    check_system();
}

#[test]
fn anthropic_cache_marker_attaches_to_last_message_block() {
    check_cache_marker();
}

#[test]
fn anthropic_structured_output_injects_forced_tool() {
    check_structured_output();
}

#[test]
fn anthropic_build_headers_requires_api_key() {
    check_headers();
}

#[test]
fn anthropic_map_stop_reasons() {
    check_stop_reasons();
}

#[test]
fn adapter_classify_401_is_auth() {
    check_401();
}

#[test]
fn classify_429_with_retry_after_ms_populates_field() {
    let headers = vec![("retry-after-ms".to_string(), "1500".to_string())];
    let err = adapter().classify_error(429, &headers, "");
    assert_eq!(err, ProviderError::RateLimited { retry_after_ms: Some(1500) });
}

#[test]
fn adapter_translate_request_promotes_system_to_top_level() {
    check_system();
}

#[test]
fn adapter_cache_marker_attaches_to_last_message_block() {
    check_cache_marker();
}

#[test]
fn adapter_structured_output_injects_forced_tool() {
    check_structured_output();
}

#[test]
fn adapter_build_headers_requires_api_key() {
    check_headers();
}

#[test]
fn adapter_map_stop_reasons() {
    check_stop_reasons();
}

#[test]
fn anthropic_failures_are_classified() {
    let a = adapter();
    let none = vec![];
    assert!(matches!(a.classify_error(403, &none, "no"), ProviderError::Auth(m) if m == "no"));
    assert_eq!(a.classify_error(503, &none, ""), ProviderError::ModelOverloaded);
    assert_eq!(a.classify_error(504, &none, ""), ProviderError::ModelOverloaded);
    assert_eq!(
        a.classify_error(400, &none, "MAX_TOKENS is too large"),
        ProviderError::ContextTooLong { limit: 0, requested: 0 }
    );
    assert_eq!(
        a.classify_error(400, &none, "nonsense"),
        ProviderError::InvalidRequest("nonsense".into())
    );
    assert_eq!(
        a.classify_error(500, &none, "boom"),
        ProviderError::Internal("status 500 Internal Server Error: boom".into())
    );
    assert_eq!(
        a.classify_error(404, &none, "boom"),
        ProviderError::InvalidRequest("status 404 Not Found: boom".into())
    );
}

#[test]
fn anthropic_key_that_no_header_can_carry_is_refused() {
    let err = adapter().build_headers(&ResolvedAuth::Bearer("a\nb".into())).unwrap_err();
    assert!(
        matches!(&err, ProviderError::Auth(m) if m.starts_with("malformed x-api-key value: ")),
        "got {err:?}"
    );
}

#[test]
fn anthropic_urls() {
    let a = AnthropicAdapter::new(
        "https://api.anthropic.com///".into(),
        DEFAULT_API_VERSION.into(),
        HttpProviderExtras::default(),
    );
    assert_eq!(a.build_url("m").unwrap(), "https://api.anthropic.com/v1/messages");
    assert_eq!(
        a.batch_url("/b1").unwrap(),
        "https://api.anthropic.com/v1/messages/batches/b1"
    );
    let bad = AnthropicAdapter::new(
        "no url".into(),
        DEFAULT_API_VERSION.into(),
        HttpProviderExtras::default(),
    );
    assert!(bad.build_url("m").is_err());
}

#[test]
fn anthropic_request_is_written_whole() {
    let mut req = ChatRequest::user(opus(), "hi");
    req.messages.push(Message::Assistant {
        content: vec![ContentBlock::text("looking")],
        tool_calls: vec![ToolCall {
            id: "tu_1".into(),
            name: "find".into(),
            arguments: json(r#"{"q":1}"#),
        }],
    });
    req.messages.push(Message::Tool {
        tool_call_id: "tu_1".into(),
        content: vec![ContentBlock::text("none")],
        is_error: true,
    });
    req.tools = vec![ToolSpec {
        name: "find".into(),
        description: "finds".into(),
        input_schema: JsonSchema::strict("F", json(r#"{"type":"object"}"#)),
    }];
    req.tool_choice = ToolChoice::Specific("find".into());
    req.max_output_tokens = Some(99);
    let body = value(&adapter().translate_request(&req).unwrap());
    assert_eq!(body["max_tokens"], 99);
    assert_eq!(body["messages"][1]["role"], "assistant");
    assert_eq!(body["messages"][1]["content"][1]["type"], "tool_use");
    assert_eq!(body["messages"][1]["content"][1]["input"]["q"], 1);
    assert_eq!(body["messages"][2]["role"], "user");
    assert_eq!(body["messages"][2]["content"][0]["type"], "tool_result");
    assert_eq!(body["messages"][2]["content"][0]["tool_use_id"], "tu_1");
    assert_eq!(body["messages"][2]["content"][0]["is_error"], true);
    assert_eq!(body["tools"][0]["name"], "find");
    assert_eq!(body["tool_choice"]["name"], "find");
}

#[test]
fn anthropic_tier_is_no_model() {
    let req = ChatRequest::user(ModelHint::Tier("fast".into()), "hi");
    assert!(matches!(
        adapter().translate_request(&req),
        Err(ProviderError::InvalidRequest(_))
    ));
}

#[test]
fn anthropic_user_message_is_written() {
    let v = value(&translate_message(&Message::user_text("hi")));
    assert_eq!(v["role"], "user");
    assert_eq!(v["content"][0]["text"], "hi");
}

fn feed(buf: &mut ToolCallBuffer, data: &str) -> Vec<ChatEvent> {
    let kind = value(&json(data))["type"].as_str().unwrap().to_string();
    let raw = SseEvent { event: kind, data: data.into() };
    adapter().parse_event(&raw, buf).unwrap()
}

#[test]
fn anthropic_stream_is_read() {
    let mut buf = ToolCallBuffer::new();
    let mut all = feed(
        &mut buf,
        r#"{"type":"message_start","message":{"model":"m1","usage":{"input_tokens":7}}}"#,
    );
    all.extend(feed(
        &mut buf,
        r#"{"type":"content_block_start","index":0,"content_block":{"type":"text","text":""}}"#,
    ));
    all.extend(feed(
        &mut buf,
        r#"{"type":"content_block_delta","index":0,"delta":{"type":"text_delta","text":"hey"}}"#,
    ));
    all.extend(feed(
        &mut buf,
        r#"{"type":"content_block_start","index":1,"content_block":{"type":"tool_use","id":"t","name":"f","input":{}}}"#,
    ));
    all.extend(feed(
        &mut buf,
        r#"{"type":"content_block_delta","index":1,"delta":{"type":"input_json_delta","partial_json":"{\"a\":"}}"#,
    ));
    all.extend(feed(
        &mut buf,
        r#"{"type":"content_block_delta","index":1,"delta":{"type":"input_json_delta","partial_json":"2}"}}"#,
    ));
    all.extend(feed(&mut buf, r#"{"type":"content_block_stop","index":1}"#));
    all.extend(feed(
        &mut buf,
        r#"{"type":"message_delta","delta":{"stop_reason":"tool_use"},"usage":{"output_tokens":5}}"#,
    ));
    all.extend(feed(&mut buf, r#"{"type":"message_stop"}"#));
    assert!(matches!(&all[0], ChatEvent::Started { actual_model, .. } if actual_model == "m1"));
    assert!(all.iter().any(|e| matches!(e, ChatEvent::Delta { text } if text == "hey")));
    let args = all.iter().find_map(|e| match e {
        ChatEvent::ToolCallEnd { id, parsed_args, .. } if id == "t" => Some(value(parsed_args)),
        _ => None,
    });
    assert_eq!(args.unwrap()["a"], 2);
    assert_eq!(all.iter().filter(|e| e.is_terminal()).count(), 1);
    let stop = all.iter().find_map(|e| match e {
        ChatEvent::Finished { stop_reason, .. } => Some(*stop_reason),
        _ => None,
    });
    assert_eq!(stop, Some(StopReason::ToolUse));
}

#[test]
fn anthropic_input_covers_the_cache() {
    let u = parse_usage(&json(
        r#"{"input_tokens":3,"output_tokens":4,"cache_read_input_tokens":10,"cache_creation_input_tokens":20}"#,
    ));
    assert_eq!(
        u,
        Usage {
            input_tokens: 33,
            output_tokens: 4,
            cached_input_tokens: 10,
            cache_creation_tokens: 20,
            thinking_tokens: 0,
        }
    );
}

#[test]
fn anthropic_batch_is_submitted_and_read() {
    let batch = vec![(BatchItemId::new("a".into()), ChatRequest::user(opus(), "hi"))];
    let body = value(&submit_body(&adapter(), &batch).unwrap());
    assert_eq!(body["requests"][0]["custom_id"], "a");
    assert_eq!(body["requests"][0]["params"]["model"], "opus-4-7");

    let status = translate_batch_status(&json(
        r#"{"processing_status":"in_progress","request_counts":{"processing":3,"succeeded":1,"errored":0,"canceled":0,"expired":0}}"#,
    ))
    .unwrap();
    assert!(!status.is_terminal());
    let status = translate_batch_status(&json(
        r#"{"processing_status":"ended","request_counts":{"processing":0,"succeeded":1}}"#,
    ))
    .unwrap();
    assert_eq!(status, BatchStatus::Completed);

    let text = join_lines(&[
        r#"{"custom_id":"a","result":{"type":"succeeded","message":{"model":"m","content":[{"type":"text","text":"yo"}],"stop_reason":"end_turn","usage":{"input_tokens":1,"output_tokens":2}}}}"#,
        "",
        r#"{"custom_id":"b","result":{"type":"expired"}}"#,
    ]);
    let items = parse_batch_results(&text).unwrap();
    assert_eq!(items.len(), 2);
    assert_eq!(items[0].item_id.id, "a");
    assert_eq!(items[0].result.as_ref().unwrap().text, "yo");
    assert_eq!(items[1].item_id.id, "b");
    assert!(items[1].result.is_err());
    assert!(parse_batch_results("nonsense").is_err());
}

fn join_lines(lines: &[&str]) -> String {
    lines.join("\n")
}

#[test]
fn anthropic_message_becomes_a_response() {
    let r = message_to_chat_response(&json(
        r#"{"model":"m","content":[{"type":"text","text":"one"},{"type":"text","text":" two"}],"stop_reason":"max_tokens","usage":{"input_tokens":1,"output_tokens":2}}"#,
    ));
    assert_eq!(r.actual_model, "m");
    assert_eq!(r.text, "one two");
    assert_eq!(r.stop_reason, Some(StopReason::MaxTokens));
    assert_eq!(r.usage.output_tokens, 2);
}

#[test]
fn anthropic_builder_keeps_what_it_is_given() {
    let p = AnthropicProviderBuilder::new("main", Auth::inline("k"))
        .base_url("http://localhost:1".into())
        .api_version("v9".into())
        .build();
    assert_eq!(p.id, "main");
    assert_eq!(p.adapter.base_url, "http://localhost:1");
    assert_eq!(p.adapter.api_version, "v9");
    assert!(p.capabilities.streaming);
    let d = AnthropicProviderBuilder::new("main", Auth::inline("k")).build();
    assert_eq!(d.adapter.base_url, "https://api.anthropic.com");
    assert_eq!(d.adapter.api_version, "2023-06-01");
}

fn reply(status: u16, body: &str) -> HttpReply {
    HttpReply { status, headers: vec![], body: Ok(ReplyBody::Text(body.into())) }
}

#[test]
fn an_anthropic_job_is_followed_to_its_results() {
    let p = AnthropicProviderBuilder::new("main", Auth::inline("k")).build();
    let key = ResolvedAuth::ApiKey("sk".into());
    let base = "https://api.anthropic.com/v1/messages/batches";
    let call = p.submit_call(&key, json(r#"{"requests":[]}"#)).unwrap();
    assert_eq!(call.method, HttpMethod::Post);
    assert_eq!(call.url, base);
    assert!(matches!(call.body, CallBody::Value(_)));
    assert!(p.submit_call(&ResolvedAuth::Absent, Json::Null).is_err());
    let job = p.on_submitted(&reply(200, r#"{"id":"j"}"#)).unwrap();
    assert_eq!(job, BatchJobId::new("j".into()));
    assert_eq!(
        p.on_submitted(&reply(200, "{}")),
        Err(ProviderError::Parse("batch submit: response missing `id`".into()))
    );
    assert_eq!(p.status_call(&key, &job).unwrap().url, format!("{base}/j"));
    let running = reply(
        200,
        r#"{"processing_status":"in_progress","request_counts":{"processing":2,"succeeded":1}}"#,
    );
    assert_eq!(
        p.status(&running),
        Ok(BatchStatus::InProgress { processed: 1, total: Some(3) })
    );
    assert!(matches!(
        p.results_call(&key, &job, &running),
        Err(ProviderError::InvalidRequest(_))
    ));
    let ended = reply(200, r#"{"processing_status":"ended"}"#);
    assert_eq!(p.results_call(&key, &job, &ended).unwrap().url, format!("{base}/j/results"));
    assert_eq!(p.on_results(reply(200, "")), Ok(vec![]));
    assert!(p.on_results(reply(500, "")).is_err());
    assert_eq!(p.cancel_call(&key, &job).unwrap().url, format!("{base}/j/cancel"));
    assert_eq!(p.on_cancelled(&reply(200, "")), Ok(()));
    assert!(p.on_cancelled(&reply(429, "")).is_err());
}

#[test]
fn a_message_that_stops_without_a_reason_still_ends_the_stream() {
    let mut buf = ToolCallBuffer::new();
    let mut all = feed(&mut buf, r#"{"type":"message_start","message":{"model":"m1"}}"#);
    all.extend(feed(&mut buf, r#"{"type":"message_delta","delta":{}}"#));
    all.extend(feed(&mut buf, r#"{"type":"message_stop"}"#));
    assert!(matches!(
        all.last(),
        Some(ChatEvent::Finished { stop_reason: StopReason::Other, .. })
    ));
    assert!(feed(&mut buf, r#"{"type":"message_stop"}"#).is_empty());
}

#[test]
fn the_cache_marker_stays_off_the_assistant() {
    let mut req = ChatRequest::user(opus(), "one");
    req.messages.push(Message::user_text("two"));
    req.messages.push(Message::assistant_text("three"));
    req.cache_directives.push(CacheDirective::MarkBoundary { ttl_ms: 1 });
    let body = value(&adapter().translate_request(&req).unwrap());
    assert!(body["messages"][0]["content"][0].get("cache_control").is_none());
    assert_eq!(body["messages"][1]["content"][0]["cache_control"]["type"], "ephemeral");
    assert!(body["messages"][2]["content"][0].get("cache_control").is_none());
}
