//! The generative language API of Gemini.

use serde_json::Value;
use tars_provider::auth::{Auth, ResolvedAuth};
use tars_provider::backends::gemini::adapter::{
    batch_not_supported, key_of, split_function, GeminiAdapter, GeminiAdapterWithKey,
};
use tars_provider::backends::gemini::mapping::{map_stop_reason, parse_usage, urlencoding};
use tars_provider::backends::gemini::provider::{GeminiProviderBuilder, DEFAULT_BASE_URL};
use tars_provider::http_base::{HttpProviderExtras, SseEvent};
use tars_provider::json::{parse_json, print_json, Json};
use tars_provider::tool_buffer::ToolCallBuffer;
use tars_provider::types::{
    ChatEvent, ChatRequest, ContentBlock, JsonSchema, Message, ModelHint, ProviderError,
    StopReason, ToolChoice, ToolSpec,
};

fn value(j: &Json) -> Value {
    serde_json::from_str(&print_json(j)).unwrap()
}

fn json(text: &str) -> Json {
    parse_json(text).unwrap()
}

fn adapter() -> GeminiAdapter {
    GeminiAdapter::new(
        "https://generativelanguage.googleapis.com".to_string(),
        HttpProviderExtras::default(),
    )
}

fn pro(text: &str) -> ChatRequest {
    ChatRequest::user(ModelHint::Explicit("gemini-2.5-pro".into()), text)
}

fn message(data: &str) -> SseEvent {
    SseEvent { event: "message".into(), data: data.into() }
}

fn check_assistant() {
    let m = Message::assistant_text("hello");
    let v = value(&GeminiAdapter::translate_message(&m).unwrap());
    assert_eq!(v["role"], "model");
    assert_eq!(v["parts"][0]["text"], "hello");
}

fn check_user() {
    let m = Message::user_text("hi");
    let v = value(&GeminiAdapter::translate_message(&m).unwrap());
    assert_eq!(v["role"], "user");
}

fn check_system() {
    let req = pro("hi").with_system("be brief");
    let body = value(&adapter().translate_request(&req).unwrap());
    assert_eq!(body["systemInstruction"]["parts"][0]["text"], "be brief");
    assert!(body["contents"].is_array());
}

fn check_structured_output() {
    let mut req = pro("json please");
    req.structured_output = Some(JsonSchema::strict("Resp", json(r#"{"type":"object"}"#)));
    let body = value(&adapter().translate_request(&req).unwrap());
    assert_eq!(body["generationConfig"]["responseMimeType"], "application/json");
    assert!(body["generationConfig"]["responseSchema"].is_object());
}

fn check_thinking_off() {
    let body = value(&adapter().translate_request(&pro("hi")).unwrap());
    assert_eq!(body["generationConfig"]["thinkingConfig"]["thinkingBudget"], 0);
}

fn check_safety_block() {
    let mut buf = ToolCallBuffer::new();
    let raw = message(r#"{"promptFeedback":{"blockReason":"SAFETY"}}"#);
    let err = adapter().parse_event(&raw, &mut buf).unwrap_err();
    assert!(matches!(
        err,
        ProviderError::ContentFiltered { ref category } if category == "SAFETY"
    ));
}

fn check_stop_reasons() {
    assert_eq!(map_stop_reason("STOP"), StopReason::EndTurn);
    assert_eq!(map_stop_reason("MAX_TOKENS"), StopReason::MaxTokens);
    assert_eq!(map_stop_reason("SAFETY"), StopReason::ContentFilter);
    assert_eq!(map_stop_reason("RECITATION"), StopReason::ContentFilter);
    assert_eq!(map_stop_reason("WHATEVER"), StopReason::Other);
}

fn check_url_encoding() {
    assert_eq!(urlencoding("abc-123_X"), "abc-123_X");
    assert_eq!(urlencoding("a b"), "a%20b");
    assert_eq!(urlencoding("a/b"), "a%2Fb");
}

fn check_token_limit() {
    let body = r#"{"error":{"message":"input token limit exceeded"}}"#;
    let err = adapter().classify_error(400, &vec![], body);
    assert!(matches!(err, ProviderError::ContextTooLong { .. }));
}

#[test]
fn gemini_translates_assistant_to_model_role() {
    check_assistant();
}

#[test]
fn gemini_translates_user_to_user_role() {
    check_user();
}

#[test]
fn gemini_system_promotes_to_system_instruction() {
    check_system();
}

#[test]
fn gemini_structured_output_sets_response_schema() {
    check_structured_output();
}

#[test]
fn gemini_thinking_off_sets_zero_budget() {
    check_thinking_off();
}

#[test]
fn gemini_safety_block_returns_content_filtered() {
    check_safety_block();
}

#[test]
fn gemini_map_stop_reasons() {
    check_stop_reasons();
}

#[test]
fn gemini_url_encode_handles_special_chars() {
    check_url_encoding();
}

#[test]
fn gemini_classify_400_token_limit_is_context_too_long() {
    check_token_limit();
}

#[test]
fn adapter_translates_assistant_to_model_role() {
    check_assistant();
}

#[test]
fn adapter_translates_user_to_user_role() {
    check_user();
}

#[test]
fn tool_message_without_name_in_id_is_invalid_request() {
    let m = Message::Tool {
        tool_call_id: "abc-123".into(),
        content: vec![ContentBlock::text("ok")],
        is_error: false,
    };
    let err = GeminiAdapter::translate_message(&m).unwrap_err();
    assert!(matches!(err, ProviderError::InvalidRequest(_)));
}

#[test]
fn tool_message_extracts_name_from_id_and_encodes_error() {
    let m = Message::Tool {
        tool_call_id: "search@call-1".into(),
        content: vec![ContentBlock::text("boom")],
        is_error: true,
    };
    let v = value(&GeminiAdapter::translate_message(&m).unwrap());
    assert_eq!(v["parts"][0]["functionResponse"]["name"], "search");
    assert_eq!(v["parts"][0]["functionResponse"]["response"]["error"], "boom");
}

#[test]
fn empty_messages_rejected_early() {
    let mut req = pro("hi");
    req.messages.clear();
    let err = adapter().translate_request(&req).unwrap_err();
    assert!(matches!(err, ProviderError::InvalidRequest(_)));
}

#[test]
fn tool_choice_specific_unknown_name_rejected() {
    let mut req = pro("hi");
    req.tools = vec![ToolSpec {
        name: "real_tool".into(),
        description: "".into(),
        input_schema: JsonSchema::strict("X", json(r#"{"type":"object"}"#)),
    }];
    req.tool_choice = ToolChoice::Specific("ghost".into());
    let err = adapter().translate_request(&req).unwrap_err();
    assert!(matches!(err, ProviderError::InvalidRequest(_)));
}

#[test]
fn system_instruction_has_no_role_field() {
    let req = pro("hi").with_system("be brief");
    let body = value(&adapter().translate_request(&req).unwrap());
    assert!(body["systemInstruction"].get("role").is_none());
}

#[test]
fn parse_event_uses_only_first_candidate() {
    let mut buf = ToolCallBuffer::new();
    let raw = message(
        r#"{"candidates":[
            {"content":{"parts":[{"text":"a"}]},"finishReason":"STOP"},
            {"content":{"parts":[{"text":"b"}]},"finishReason":"STOP"}
        ]}"#,
    );
    let events = adapter().parse_event(&raw, &mut buf).unwrap();
    let finished = events.iter().filter(|e| e.is_terminal()).count();
    assert_eq!(finished, 1, "exactly one Finished event expected");
    let has_b = events.iter().any(|e| matches!(e, ChatEvent::Delta { text } if text == "b"));
    assert!(!has_b, "second candidate must be ignored");
}

#[test]
fn parse_event_tool_call_id_embeds_name() {
    let mut buf = ToolCallBuffer::new();
    let raw = message(
        r#"{"candidates":[
            {"content":{"parts":[
                {"text":"thinking..."},
                {"functionCall":{"name":"search","args":{"q":"x"}}}
            ]},"finishReason":"STOP"}
        ]}"#,
    );
    let events = adapter().parse_event(&raw, &mut buf).unwrap();
    let start = events.iter().find_map(|e| match e {
        ChatEvent::ToolCallStart { index, id, name } => Some((*index, id.clone(), name.clone())),
        _ => None,
    });
    let (idx, id, name) = start.expect("ToolCallStart present");
    assert_eq!(idx, 0, "function-call counter resets across mixed parts");
    assert_eq!(name, "search");
    assert!(id.starts_with("search@"), "id must embed name: {id}");
    let stop = events.iter().find_map(|e| match e {
        ChatEvent::Finished { stop_reason, .. } => Some(*stop_reason),
        _ => None,
    });
    assert_eq!(stop, Some(StopReason::ToolUse));
}

#[test]
fn adapter_system_promotes_to_system_instruction() {
    check_system();
}

#[test]
fn adapter_structured_output_sets_response_schema() {
    check_structured_output();
}

#[test]
fn adapter_thinking_off_sets_zero_budget() {
    check_thinking_off();
}

#[test]
fn adapter_safety_block_returns_content_filtered() {
    check_safety_block();
}

#[test]
fn gemini_adapter_map_stop_reasons() {
    check_stop_reasons();
}

#[test]
fn adapter_url_encode_handles_special_chars() {
    check_url_encoding();
}

#[test]
fn adapter_classify_400_token_limit_is_context_too_long() {
    check_token_limit();
}

#[test]
fn a_call_id_leads_back_to_the_function() {
    assert_eq!(split_function("search@call-1"), Some("search".to_string()));
    assert_eq!(split_function("no-name"), None);
    let mut buf = ToolCallBuffer::new();
    let raw = message(
        r#"{"candidates":[{"content":{"parts":[{"functionCall":{"name":"look_up","args":{}}}]}}]}"#,
    );
    let events = adapter().parse_event(&raw, &mut buf).unwrap();
    let id = events
        .iter()
        .find_map(|e| match e {
            ChatEvent::ToolCallStart { id, .. } => Some(id.clone()),
            _ => None,
        })
        .unwrap();
    let m = Message::Tool {
        tool_call_id: id,
        content: vec![ContentBlock::text("42")],
        is_error: false,
    };
    let v = value(&GeminiAdapter::translate_message(&m).unwrap());
    assert_eq!(v["parts"][0]["functionResponse"]["name"], "look_up");
}

#[test]
fn a_chunk_of_gemini_finishes_once() {
    let mut buf = ToolCallBuffer::new();
    let raw = message(
        r#"{"modelVersion":"mv","candidates":[{"content":{"parts":[{"text":"a"}]},"finishReason":"STOP"}],"usageMetadata":{"promptTokenCount":5,"candidatesTokenCount":6}}"#,
    );
    let events = adapter().parse_event(&raw, &mut buf).unwrap();
    assert_eq!(events.iter().filter(|e| e.is_terminal()).count(), 1);
    assert!(matches!(&events[0], ChatEvent::Started { actual_model, .. } if actual_model == "mv"));
}

#[test]
fn gemini_usage_is_read() {
    let u = parse_usage(&json(
        r#"{"promptTokenCount":5,"candidatesTokenCount":6,"cachedContentTokenCount":2,"thoughtsTokenCount":3}"#,
    ));
    assert_eq!(u.input_tokens, 5);
    assert_eq!(u.output_tokens, 6);
    assert_eq!(u.cached_input_tokens, 2);
    assert_eq!(u.thinking_tokens, 3);
}

#[test]
fn encoded_text_is_safe_in_a_path() {
    assert_eq!(urlencoding("é?&#"), "%C3%A9%3F%26%23");
    assert_eq!(urlencoding("~._"), "~._");
}

#[test]
fn gemini_urls_and_keys() {
    let a = adapter();
    assert_eq!(
        a.build_url("gemini-2.5-pro").unwrap(),
        "https://generativelanguage.googleapis.com/v1beta/models/gemini-2.5-pro:streamGenerateContent?alt=sse"
    );
    let keyed = GeminiAdapterWithKey { inner: adapter(), key: "k 1".into() };
    let url = keyed.build_url("m").unwrap();
    assert!(url.ends_with("&key=k%201"), "{url}");
    let bad = GeminiAdapter::new("no url".into(), HttpProviderExtras::default());
    assert!(bad.build_url("m").is_err());
    assert_eq!(key_of(ResolvedAuth::ApiKey("k".into())), Ok("k".to_string()));
    assert!(matches!(key_of(ResolvedAuth::Absent), Err(ProviderError::Auth(_))));
    assert!(matches!(batch_not_supported(), ProviderError::InvalidRequest(_)));
}

#[test]
fn gemini_failures_are_classified() {
    let a = adapter();
    let none = vec![];
    assert!(matches!(a.classify_error(401, &none, "no"), ProviderError::Auth(_)));
    assert_eq!(
        a.classify_error(429, &none, ""),
        ProviderError::RateLimited { retry_after_ms: None }
    );
    assert_eq!(a.classify_error(503, &none, ""), ProviderError::ModelOverloaded);
    assert!(matches!(a.classify_error(500, &none, ""), ProviderError::Internal(_)));
    assert!(matches!(a.classify_error(400, &none, "x"), ProviderError::InvalidRequest(_)));
}

#[test]
fn gemini_builder_keeps_what_it_is_given() {
    let p = GeminiProviderBuilder::new("g", Auth::inline("k")).build();
    assert_eq!(p.id, "g");
    assert_eq!(p.adapter.base_url, DEFAULT_BASE_URL);
    assert!(p.capabilities.supports_thinking);
}

#[test]
fn an_encoding_splits_where_its_text_does() {
    for (a, b) in [("a b", "c/d"), ("é", "?"), ("", "x"), ("plain", "~")] {
        assert_eq!(urlencoding(&format!("{a}{b}")), urlencoding(a) + &urlencoding(b));
    }
}

#[test]
fn an_encoding_can_be_undone() {
    for text in ["a b/c", "é?&#", "100%", "plain-_.~"] {
        let encoded = urlencoding(text);
        let mut bytes: Vec<u8> = vec![];
        let mut rest = encoded.as_bytes();
        while let Some((first, tail)) = rest.split_first() {
            if *first == b'%' {
                let digits = std::str::from_utf8(&tail[..2]).unwrap();
                bytes.push(u8::from_str_radix(digits, 16).unwrap());
                rest = &tail[2..];
            } else {
                bytes.push(*first);
                rest = tail;
            }
        }
        assert_eq!(String::from_utf8(bytes).unwrap(), text);
    }
}

#[test]
fn the_arguments_of_a_call_come_out_as_they_came() {
    let args = r#"{"path":"a \"b\"","deep":[{"n":-3},[null,true]],"none":{}}"#;
    let data = format!(
        r#"{{"candidates":[{{"content":{{"parts":[{{"functionCall":{{"name":"f","args":{args}}}}},{{"functionCall":{{"name":"g"}}}}]}}}}]}}"#
    );
    let raw = SseEvent { event: "message".into(), data };
    let events = adapter().parse_event(&raw, &mut ToolCallBuffer::new()).unwrap();
    let ends: Vec<String> = events
        .iter()
        .filter_map(|e| match e {
            ChatEvent::ToolCallEnd { parsed_args, .. } => Some(print_json(parsed_args)),
            _ => None,
        })
        .collect();
    assert_eq!(ends, vec![print_json(&parse_json(args).unwrap()), "{}".to_string()]);
}
