//! The chat completions API of OpenAI, and the local servers that speak it.

use serde_json::Value;
use tars_provider::auth::{Auth, ResolvedAuth};
use tars_provider::backends::llamacpp::{llamacpp, llamacpp_local};
use tars_provider::backends::mlx::{mlx, mlx_local, DEFAULT_BASE_URL as MLX_BASE_URL};
use tars_provider::backends::openai::adapter::{map_stop_reason, parse_openai_usage, OpenAiAdapter};
use tars_provider::backends::openai::batch::{
    batch_input, create_body, openai_chat_completion_to_chat_response, parse_openai_batch_results,
    translate_openai_batch_status,
};
use tars_provider::backends::openai::provider::{OpenAiProviderBuilder, DEFAULT_BASE_URL};
use tars_provider::batch::{require_terminal, BatchItemId, BatchJobId, BatchStatus};
use tars_provider::capabilities::PromptCacheKind;
use tars_provider::exchange::{BodyFailure, CallBody, HttpMethod, HttpReply, ReplyBody};
use tars_provider::http_base::{
    parse_retry_after, truncate, truncate_utf8, HttpProviderExtras, SseEvent,
};
use tars_provider::json::{parse_json, print_json, Json};
use tars_provider::tool_buffer::ToolCallBuffer;
use tars_provider::types::{
    ChatEvent, ChatRequest, ContentBlock, Message, ModelHint, ProviderError, StopReason,
    ThinkingMode, ToolChoice,
};

fn value(j: &Json) -> Value {
    serde_json::from_str(&print_json(j)).unwrap()
}

fn json(text: &str) -> Json {
    parse_json(text).unwrap()
}

fn adapter() -> OpenAiAdapter {
    OpenAiAdapter { base_url: DEFAULT_BASE_URL.into(), extras: HttpProviderExtras::default() }
}

fn gpt() -> ModelHint {
    ModelHint::Explicit("gpt-4o".into())
}

#[test]
fn picks_max_completion_tokens_for_o1() {
    assert_eq!(OpenAiAdapter::max_tokens_field("o1-preview"), "max_completion_tokens");
    assert_eq!(OpenAiAdapter::max_tokens_field("gpt-5-something"), "max_completion_tokens");
    assert_eq!(OpenAiAdapter::max_tokens_field("gpt-4o"), "max_tokens");
}

#[test]
fn translates_simple_user_message() {
    let v = value(&OpenAiAdapter::translate_message(&Message::user_text("hello")));
    assert_eq!(v["role"], "user");
    assert_eq!(v["content"][0]["type"], "text");
    assert_eq!(v["content"][0]["text"], "hello");
}

#[test]
fn tool_message_marks_failure_when_is_error_set() {
    let m = Message::Tool {
        tool_call_id: "tu_1".into(),
        content: vec![ContentBlock::text("permission denied")],
        is_error: true,
    };
    let v = value(&OpenAiAdapter::translate_message(&m));
    assert_eq!(v["role"], "tool");
    assert_eq!(v["content"][0]["text"], "[tool execution failed]\n");
    assert_eq!(v["content"][1]["text"], "permission denied");
}

#[test]
fn tool_message_no_marker_on_success() {
    let m = Message::Tool {
        tool_call_id: "tu_1".into(),
        content: vec![ContentBlock::text("42")],
        is_error: false,
    };
    let v = value(&OpenAiAdapter::translate_message(&m));
    assert_eq!(v["content"][0]["text"], "42");
    assert!(v["content"].as_array().unwrap().len() == 1);
}

#[test]
fn translate_request_dedups_system_when_req_system_set() {
    let req = ChatRequest {
        model: gpt(),
        system: Some("explicit system".into()),
        messages: vec![
            Message::System { content: vec![ContentBlock::text("inline system")] },
            Message::user_text("hi"),
        ],
        tools: vec![],
        tool_choice: ToolChoice::Auto,
        structured_output: None,
        max_output_tokens: None,
        temperature: None,
        stop_sequences: vec![],
        seed: None,
        cache_directives: vec![],
        thinking: ThinkingMode::Off,
        enable_chat_template_thinking: None,
    };
    let body = value(&adapter().translate_request(&req).unwrap());
    let messages = body["messages"].as_array().unwrap();
    let system_count = messages.iter().filter(|m| m["role"] == "system").count();
    assert_eq!(system_count, 1, "should dedupe to one system message");
    assert_eq!(messages[0]["content"][0]["text"], "explicit system");
}

#[test]
fn openai_classify_401_is_auth() {
    let err = adapter().classify_error(401, &vec![], "{\"error\":{\"message\":\"bad\"}}");
    assert!(matches!(err, ProviderError::Auth(_)));
}

#[test]
fn classify_429_is_rate_limited() {
    let err = adapter().classify_error(429, &vec![], "");
    assert!(matches!(err, ProviderError::RateLimited { retry_after_ms: None }));
}

#[test]
fn classify_429_with_retry_after_seconds_populates_field() {
    let headers = vec![("retry-after".to_string(), "42".to_string())];
    let err = adapter().classify_error(429, &headers, "");
    assert_eq!(err, ProviderError::RateLimited { retry_after_ms: Some(42_000) });
}

#[test]
fn classify_400_context_length_is_typed() {
    let body = r#"{"error":{"message":"context_length_exceeded: too many tokens"}}"#;
    let err = adapter().classify_error(400, &vec![], body);
    assert!(matches!(err, ProviderError::ContextTooLong { .. }));
}

#[test]
fn openai_failures_are_classified() {
    let a = adapter();
    let none = vec![];
    assert_eq!(a.classify_error(503, &none, ""), ProviderError::ModelOverloaded);
    assert!(matches!(a.classify_error(500, &none, "x"), ProviderError::Internal(_)));
    assert!(matches!(a.classify_error(418, &none, "x"), ProviderError::InvalidRequest(_)));
    assert!(matches!(a.classify_error(400, &none, "x"), ProviderError::InvalidRequest(_)));
}

#[test]
fn the_finer_header_says_when_to_come_back() {
    let h = |k: &str, v: &str| (k.to_string(), v.to_string());
    assert_eq!(parse_retry_after(&vec![h("retry-after-ms", "250"), h("retry-after", "9")]), Some(250));
    assert_eq!(parse_retry_after(&vec![h("retry-after", "9")]), Some(9000));
    assert_eq!(parse_retry_after(&vec![h("retry-after", "soon")]), None);
    assert_eq!(parse_retry_after(&vec![]), None);
}

#[test]
fn texts_are_cut_between_characters() {
    assert_eq!(truncate_utf8("héllo", 2), "h");
    assert_eq!(truncate_utf8("héllo", 3), "hé");
    assert_eq!(truncate_utf8("héllo", 99), "héllo");
    assert_eq!(truncate("abc", 3), "abc");
    assert!(truncate("abcd", 3).starts_with("abc"));
}

#[test]
fn a_stream_of_openai_is_read() {
    let mut buf = ToolCallBuffer::new();
    let a = adapter();
    let mut all: Vec<ChatEvent> = vec![];
    for data in [
        r#"{"model":"gpt-4o-2","choices":[{"delta":{"role":"assistant"}}]}"#,
        r#"{"model":"gpt-4o-2","choices":[{"delta":{"content":"hi"}}]}"#,
        r#"{"choices":[{"delta":{"tool_calls":[{"index":0,"id":"c1","function":{"name":"f","arguments":"{\"a\""}}]}}]}"#,
        r#"{"choices":[{"delta":{"tool_calls":[{"index":0,"function":{"arguments":":1}"}}]}}]}"#,
        r#"{"choices":[{"delta":{},"finish_reason":"tool_calls"}]}"#,
        r#"{"choices":[],"usage":{"prompt_tokens":3,"completion_tokens":4}}"#,
        "[DONE]",
    ] {
        let raw = SseEvent { event: "message".into(), data: data.into() };
        all.extend(a.parse_event(&raw, &mut buf).unwrap());
    }
    assert!(matches!(&all[0], ChatEvent::Started { actual_model, .. } if actual_model == "gpt-4o-2"));
    let starts = all.iter().filter(|e| matches!(e, ChatEvent::Started { .. })).count();
    assert_eq!(starts, 1);
    assert!(all.iter().any(|e| matches!(e, ChatEvent::Delta { text } if text == "hi")));
    let args = all.iter().find_map(|e| match e {
        ChatEvent::ToolCallEnd { id, parsed_args, .. } if id == "c1" => Some(value(parsed_args)),
        _ => None,
    });
    assert_eq!(args.unwrap()["a"], 1);
    assert_eq!(all.iter().filter(|e| e.is_terminal()).count(), 1);
    match all.iter().find(|e| e.is_terminal()).unwrap() {
        ChatEvent::Finished { stop_reason, usage } => {
            assert_eq!(*stop_reason, StopReason::ToolUse);
            assert_eq!(usage.input_tokens, 3);
            assert_eq!(usage.output_tokens, 4);
        }
        other => panic!("got {other:?}"),
    }
}

#[test]
fn openai_mappings() {
    assert_eq!(map_stop_reason("stop"), StopReason::EndTurn);
    assert_eq!(map_stop_reason("length"), StopReason::MaxTokens);
    assert_eq!(map_stop_reason("tool_calls"), StopReason::ToolUse);
    assert_eq!(map_stop_reason("content_filter"), StopReason::ContentFilter);
    assert_eq!(map_stop_reason("?"), StopReason::Other);
    let u = parse_openai_usage(&json(
        r#"{"prompt_tokens":9,"completion_tokens":8,"prompt_tokens_details":{"cached_tokens":7},"completion_tokens_details":{"reasoning_tokens":6}}"#,
    ));
    assert_eq!(u.input_tokens, 9);
    assert_eq!(u.output_tokens, 8);
    assert_eq!(u.cached_input_tokens, 7);
    assert_eq!(u.thinking_tokens, 0);
}

#[test]
fn openai_urls_and_headers() {
    let a = adapter();
    assert_eq!(a.build_url("m").unwrap(), "https://api.openai.com/v1/chat/completions");
    assert_eq!(a.files_url("/f1/content").unwrap(), "https://api.openai.com/v1/files/f1/content");
    assert_eq!(a.batches_url("/b1").unwrap(), "https://api.openai.com/v1/batches/b1");
    let h = a.build_headers(&ResolvedAuth::ApiKey("sk".into())).unwrap();
    assert!(h.iter().any(|kv| kv.0 == "authorization" && kv.1 == "Bearer sk"));
    let none = a.build_headers(&ResolvedAuth::Absent).unwrap();
    assert!(!none.iter().any(|kv| kv.0 == "authorization"));
    assert!(a.build_headers(&ResolvedAuth::ApiKey("a\nb".into())).is_err());
}

#[test]
fn openai_batch_is_written_and_read() {
    let batch = vec![
        (BatchItemId::new("a".into()), ChatRequest::user(gpt(), "hi")),
        (BatchItemId::new("b".into()), ChatRequest::user(gpt(), "ho")),
    ];
    let text = batch_input(&adapter(), &batch).unwrap();
    let lines: Vec<Value> =
        text.lines().map(|l| serde_json::from_str(l).unwrap()).collect();
    assert_eq!(lines.len(), 2);
    assert_eq!(lines[1]["custom_id"], "b");
    assert_eq!(lines[1]["body"]["model"], "gpt-4o");
    assert_eq!(value(&create_body("file-1"))["input_file_id"], "file-1");

    let running = translate_openai_batch_status(&json(
        r#"{"status":"in_progress","request_counts":{"total":4,"completed":1,"failed":1}}"#,
    ))
    .unwrap();
    assert_eq!(running, BatchStatus::InProgress { processed: 2, total: Some(4) });
    let job = BatchJobId::new("j".into());
    assert!(require_terminal(&job, &running).is_err());
    let done = translate_openai_batch_status(&json(r#"{"status":"completed"}"#)).unwrap();
    assert_eq!(done, BatchStatus::Completed);
    assert!(require_terminal(&job, &done).is_ok());

    let results = r#"{"custom_id":"a","response":{"status_code":200,"body":{"model":"m","choices":[{"message":{"content":"yo"},"finish_reason":"stop"}],"usage":{"prompt_tokens":1,"completion_tokens":2}}}}"#;
    let items = parse_openai_batch_results(results).unwrap();
    assert_eq!(items[0].item_id.id, "a");
    assert_eq!(items[0].result.as_ref().unwrap().text, "yo");
    assert!(parse_openai_batch_results("{").is_err());
}

#[test]
fn openai_completion_becomes_a_response() {
    let r = openai_chat_completion_to_chat_response(&json(
        r#"{"model":"m","choices":[{"message":{"content":"yo"},"finish_reason":"length"}],"usage":{"prompt_tokens":1,"completion_tokens":2}}"#,
    ))
    .unwrap();
    assert_eq!(r.text, "yo");
    assert_eq!(r.actual_model, "m");
    assert_eq!(r.stop_reason, Some(StopReason::MaxTokens));
    assert!(openai_chat_completion_to_chat_response(&json("{}")).is_err());
}

#[test]
fn openai_builder_keeps_what_it_is_given() {
    let p = OpenAiProviderBuilder::new("o", Auth::inline("k"))
        .base_url("http://localhost:2/v1".into())
        .build();
    assert_eq!(p.id, "o");
    assert_eq!(p.adapter.base_url, "http://localhost:2/v1");
}

#[test]
fn mlx_local_uses_default_url_and_no_auth() {
    let p = mlx_local("mlx_test");
    assert!(matches!(p.capabilities.prompt_cache, PromptCacheKind::NoCache));
    assert!(!p.capabilities.supports_vision);
    assert!(p.capabilities.supports_tool_use);
    assert!(p.auth == Auth::Absent);
    assert_eq!(p.adapter.base_url, MLX_BASE_URL);
}

#[test]
fn mlx_normalizes_empty_inline_auth_to_none() {
    let p = mlx("mlx_t", None, Auth::inline(""), HttpProviderExtras::default());
    assert!(p.auth == Auth::Absent);
    let kept = mlx("mlx_t", None, Auth::inline("k"), HttpProviderExtras::default());
    assert!(kept.auth == Auth::inline("k"));
}

#[test]
fn default_base_url_is_localhost_8080() {
    assert!(MLX_BASE_URL.contains("8080"));
    assert!(MLX_BASE_URL.ends_with("/v1"));
}

#[test]
fn llamacpp_local_uses_default_url_and_no_auth() {
    let p = llamacpp_local("llamacpp_test");
    assert!(matches!(p.capabilities.prompt_cache, PromptCacheKind::NoCache));
    assert_eq!(p.capabilities.max_context_tokens, 8_192);
    assert!(p.auth == Auth::Absent);
}

#[test]
fn llamacpp_normalizes_empty_inline_auth_to_none() {
    let p = llamacpp("lc_t", None, Auth::inline(""), HttpProviderExtras::default());
    assert!(p.auth == Auth::Absent);
}

fn reply(status: u16, body: &str) -> HttpReply {
    HttpReply { status, headers: vec![], body: Ok(ReplyBody::Text(body.into())) }
}

fn broken() -> HttpReply {
    HttpReply {
        status: 200,
        headers: vec![],
        body: Err(BodyFailure {
            text: "cut off".into(),
            error: ProviderError::Internal("transport".into()),
        }),
    }
}

#[test]
fn an_openai_batch_is_uploaded_and_created() {
    let p = OpenAiProviderBuilder::new("o", Auth::inline("k")).build();
    let key = ResolvedAuth::ApiKey("sk".into());
    let up = p.upload_call(&key, "lines".into()).unwrap();
    assert_eq!(up.method, HttpMethod::Post);
    assert_eq!(up.url, "https://api.openai.com/v1/files");
    assert_eq!(up.body, CallBody::BatchFile("lines".into()));
    assert!(!up.headers.iter().any(|h| h.0 == "content-type"));

    let create = p.on_uploaded(&key, &reply(200, r#"{"id":"file-9"}"#)).unwrap();
    assert_eq!(create.url, "https://api.openai.com/v1/batches");
    assert!(create.headers.iter().any(|h| h.1 == "application/json"));
    match &create.body {
        CallBody::Value(v) => assert_eq!(v.str_at("input_file_id"), Some("file-9")),
        other => panic!("got {other:?}"),
    }
    assert_eq!(
        p.on_uploaded(&key, &reply(200, "{}")),
        Err(ProviderError::Parse("file upload: response missing `id`".into()))
    );
    assert_eq!(
        p.on_uploaded(&key, &reply(200, "nonsense")),
        Err(ProviderError::Parse(
            "file upload: response not JSON: error decoding response body".into()
        ))
    );
    assert_eq!(
        p.on_uploaded(&key, &broken()),
        Err(ProviderError::Parse("file upload: response not JSON: cut off".into()))
    );
    assert!(matches!(p.on_uploaded(&key, &reply(401, "no")), Err(ProviderError::Auth(_))));
    assert_eq!(p.on_created(&reply(200, r#"{"id":"job"}"#)).unwrap().id, "job");
    assert!(p.on_created(&reply(500, "")).is_err());
}

#[test]
fn an_openai_job_is_followed_to_its_results() {
    let p = OpenAiProviderBuilder::new("o", Auth::inline("k")).build();
    let key = ResolvedAuth::ApiKey("sk".into());
    let job = BatchJobId::new("j".into());
    let fetch = p.fetch_call(&key, &job).unwrap();
    assert_eq!(fetch.method, HttpMethod::Get);
    assert_eq!(fetch.url, "https://api.openai.com/v1/batches/j");
    let running = reply(200, r#"{"status":"in_progress"}"#);
    assert!(!p.status(&running).unwrap().is_terminal());
    assert!(matches!(p.results_file(&job, &running), Err(ProviderError::InvalidRequest(_))));
    let done = reply(200, r#"{"status":"completed","output_file_id":"f"}"#);
    assert_eq!(p.results_file(&job, &done), Ok(Some("f".into())));
    let bare = reply(200, r#"{"status":"expired"}"#);
    assert_eq!(p.results_file(&job, &bare), Ok(None));
    let get = p.download_call(&key, "f").unwrap();
    assert_eq!(get.url, "https://api.openai.com/v1/files/f/content");
    assert_eq!(p.on_downloaded(reply(200, "\n")), Ok(vec![]));
    assert_eq!(p.on_downloaded(broken()), Err(ProviderError::Internal("transport".into())));
    let stop = p.cancel_call(&key, &job).unwrap();
    assert_eq!(stop.url, "https://api.openai.com/v1/batches/j/cancel");
    assert_eq!(p.on_cancelled(&reply(204, "")), Ok(()));
    assert!(p.on_cancelled(&reply(404, "")).is_err());
}

#[test]
fn a_call_in_flight_is_handed_out_at_the_end() {
    let mut buf = ToolCallBuffer::new();
    let a = adapter();
    let mut all: Vec<ChatEvent> = vec![];
    for data in [
        r#"{"choices":[{"delta":{"tool_calls":[{"index":0,"id":"c1","function":{"name":"f","arguments":"{}"}}]}}]}"#,
        r#"{"choices":[{"delta":{},"finish_reason":"length"}]}"#,
        "[DONE]",
    ] {
        let raw = SseEvent { event: "message".into(), data: data.into() };
        all.extend(a.parse_event(&raw, &mut buf).unwrap());
    }
    assert!(all.iter().any(|e| matches!(e, ChatEvent::ToolCallEnd { id, .. } if id == "c1")));
    assert!(matches!(
        all.last(),
        Some(ChatEvent::Finished { stop_reason: StopReason::MaxTokens, .. })
    ));
}

#[test]
fn a_call_that_cannot_be_read_is_reported_whatever_it_is_called() {
    for name in ["f", "not started"] {
        let mut buf = ToolCallBuffer::new();
        buf.on_start(0, "c1".into(), name.into());
        buf.on_delta(0, "{broken");
        let raw = SseEvent { event: "message".into(), data: "[DONE]".into() };
        assert!(adapter().parse_event(&raw, &mut buf).is_err(), "{name}");
    }
}

#[test]
fn a_reply_is_read_as_it_came() {
    let p = OpenAiProviderBuilder::new("o", Auth::inline("k")).build();
    let came = |bytes: &[u8]| HttpReply {
        status: 200,
        headers: vec![],
        body: Ok(ReplyBody::Bytes(bytes.to_vec())),
    };
    let unread = Err(ProviderError::Parse(
        "batch create: response not JSON: error decoding response body".into(),
    ));
    assert_eq!(p.on_created(&came(br#"{"id":"b1"}"#)), Ok(BatchJobId::new("b1".into())));
    assert_eq!(p.on_created(&came(b"\xef\xbb\xbf{\"id\":\"b1\"}")), unread);
    assert_eq!(p.on_created(&came(b"{\"id\":\"\xff\"}")), unread);
    assert_eq!(came(b"a\xff").text_or_empty(), "a\u{fffd}");
}

#[test]
fn a_repeated_member_counts_once() {
    let v = json(r#"{"a":1,"b":2,"a":3}"#);
    assert_eq!(print_json(&v), r#"{"a":3,"b":2}"#);
    let twice = Json::object().with("a", json("1")).with("a", json("2"));
    assert_eq!(value(&twice)["a"], 2);
}
