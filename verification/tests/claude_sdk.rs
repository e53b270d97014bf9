//! The long-lived child process that answers line by line.

use serde_json::Value;
use tars_provider::backends::claude_sdk::provider::{
    choose_script, default_script_candidates, ClaudeSdkProviderBuilder, DEFAULT_TIMEOUT_MS,
};
use tars_provider::backends::claude_sdk::session::{
    child_gone_error, settle, start_error, CallEnd, Dispatch, PendingCalls, SessionSlot,
    StartFailure,
};
use tars_provider::backends::claude_sdk::wire::{
    has_fitting_usage, map_stop_reason, normalize_usage, read_reply_line, serialize_messages,
    DaemonChatReply, RawUsage,
};
use tars_provider::types::{
    ChatEvent, ChatRequest, Message, ModelHint, ProviderError, StopReason,
};

fn ask(text: &str) -> ChatRequest {
    ChatRequest::user(ModelHint::Explicit("m".into()), text)
}

#[test]
fn serialize_single_user_message() {
    assert_eq!(serialize_messages(&ask("ping")), "[user]\nping");
}

#[test]
fn normalize_usage_sums_into_input_total() {
    let raw = Some(RawUsage {
        input_tokens: Some(100),
        output_tokens: Some(50),
        cache_read_input_tokens: Some(900),
        cache_creation_input_tokens: Some(10),
    });
    assert!(has_fitting_usage(&raw));
    let u = normalize_usage(&raw);
    assert_eq!(u.input_tokens, 1010);
    assert_eq!(u.cached_input_tokens, 900);
    assert_eq!(u.cache_creation_tokens, 10);
    assert_eq!(u.output_tokens, 50);
}

#[test]
fn normalize_usage_missing_returns_default() {
    let u = normalize_usage(&None);
    assert_eq!(u.input_tokens, 0);
    assert_eq!(u.output_tokens, 0);
    assert_eq!(u.cached_input_tokens, 0);
    assert_eq!(u.cache_creation_tokens, 0);
}

#[test]
fn map_stop_reason_known_subtypes() {
    assert_eq!(map_stop_reason(Some("success")), StopReason::EndTurn);
    assert_eq!(map_stop_reason(None), StopReason::EndTurn);
    assert_eq!(map_stop_reason(Some("max_tokens")), StopReason::MaxTokens);
    assert_eq!(map_stop_reason(Some("nonsense")), StopReason::Other);
}

#[test]
fn counts_too_large_to_add_up_are_noticed() {
    let raw = Some(RawUsage {
        input_tokens: Some(u64::MAX),
        output_tokens: None,
        cache_read_input_tokens: Some(1),
        cache_creation_input_tokens: None,
    });
    assert!(!has_fitting_usage(&raw));
}

#[test]
fn a_request_is_one_line() {
    let p = ClaudeSdkProviderBuilder::new("p").default_model("d".into()).build();
    assert_eq!(p.timeout_ms, DEFAULT_TIMEOUT_MS);
    let line = p.line(&ask("hi").with_system("s"), 7);
    assert!(line.ends_with('\n'));
    assert_eq!(line.matches('\n').count(), 1);
    let v: Value = serde_json::from_str(&line).unwrap();
    assert_eq!(v["id"], 7);
    assert_eq!(v["prompt"], "[user]\nhi");
    assert_eq!(v["system"], "s");
    assert_eq!(v["model"], "m");
    let tier = ChatRequest::user(ModelHint::Tier("fast".into()), "hi");
    let v: Value = serde_json::from_str(&p.line(&tier, 8)).unwrap();
    assert_eq!(v["model"], "d");
    assert!(v.get("system").is_none());
    assert!(p.check(&ask("hi")).is_ok());
    let mut empty = ask("x");
    empty.messages = Vec::<Message>::new();
    assert!(matches!(p.check(&empty), Err(ProviderError::InvalidRequest(_))));
}

#[test]
fn an_answer_becomes_events() {
    let p = ClaudeSdkProviderBuilder::new("p").build();
    let (id, reply) = read_reply_line(
        r#"{"id":3,"text":"pong","result_subtype":"success","usage":{"input_tokens":1,"output_tokens":2},"model":"mm"}"#,
    )
    .unwrap();
    assert_eq!(id, 3);
    let events = p.respond(reply.unwrap());
    assert!(matches!(&events[0], ChatEvent::Started { actual_model, .. } if actual_model == "mm"));
    assert!(matches!(&events[1], ChatEvent::Delta { text } if text == "pong"));
    assert!(matches!(
        &events[2],
        ChatEvent::Finished { stop_reason: StopReason::EndTurn, usage } if usage.output_tokens == 2
    ));
    assert!(read_reply_line("nonsense").is_none());
    let (_, refused) = read_reply_line(r#"{"id":4,"error":"no"}"#).unwrap();
    assert!(refused.is_err());
}

fn answer(id: u64) -> String {
    format!(r#"{{"id":{id},"text":"t"}}"#)
}

#[test]
fn answers_reach_their_calls_in_any_order() {
    let mut calls = PendingCalls::new();
    let a = calls.register();
    let b = calls.register();
    assert_ne!(a, b);
    assert!(matches!(calls.on_line(&answer(b)), Dispatch::Deliver { id, .. } if id == b));
    assert!(calls.is_waiting(a));
    assert!(!calls.is_waiting(b));
    assert!(matches!(calls.on_line(&answer(b)), Dispatch::Unclaimed { id } if id == b));
    assert!(matches!(calls.on_line("nonsense"), Dispatch::Malformed));
    assert_eq!(calls.on_exit(), vec![a]);
    assert!(!calls.is_waiting(a));
    let c = calls.register();
    calls.forget(c);
    assert!(!calls.is_waiting(c));
}

#[test]
fn only_the_process_in_use_is_cleared() {
    let mut slot = SessionSlot::new();
    let first = slot.install();
    let second = slot.install();
    slot.clear(first);
    assert_eq!(slot.current, Some(second));
    slot.clear(second);
    assert_eq!(slot.current, None);
}

#[test]
fn a_call_is_settled() {
    let reply = DaemonChatReply {
        text: "t".into(),
        result_subtype: None,
        usage: None,
        model: None,
    };
    let s = settle(CallEnd::Replied(Ok(reply)), 1);
    assert!(s.outcome.is_ok() && !s.give_up);
    let said = |end: CallEnd| {
        let s = settle(end, 1500);
        assert!(s.give_up);
        match s.outcome {
            Err(ProviderError::Internal(m)) => m,
            other => panic!("got {other:?}"),
        }
    };
    assert_eq!(
        said(CallEnd::OutOfTime),
        "claude_sdk: timed out in request/reply round-trip after 1.5s"
    );
    assert_eq!(
        said(CallEnd::WriteFailed { error: "x".into() }),
        "claude_sdk: write to child stdin failed: x"
    );
    assert_eq!(
        said(CallEnd::FlushFailed { error: "x".into() }),
        "claude_sdk: flush child stdin failed: x"
    );
    assert!(said(CallEnd::Abandoned).contains("reader task gone"));
    assert_eq!(
        child_gone_error(),
        ProviderError::Internal("claude_sdk: child exited before responding".into())
    );
}

#[test]
fn the_script_is_looked_for_upwards() {
    assert_eq!(
        default_script_candidates(Some("/s.mjs".into()), Some("/a/b"), Some("/h"), "daemon"),
        vec![
            "/s.mjs",
            "/a/b/tools/daemon/server.mjs",
            "/a/tools/daemon/server.mjs",
            "/tools/daemon/server.mjs",
            "/h/.tars/daemon/server.mjs",
        ]
    );
    assert!(default_script_candidates(None, None, None, "daemon").is_empty());
    assert_eq!(choose_script(&Some("/x".into()), None, "daemon"), Ok("/x".to_string()));
    assert_eq!(choose_script(&None, Some("/y".into()), "daemon"), Ok("/y".to_string()));
    match choose_script(&None, None, "daemon") {
        Err(ProviderError::Internal(m)) => assert!(m.contains("`~/.tars/daemon/server.mjs`"), "{m}"),
        other => panic!("got {other:?}"),
    }
}

#[test]
fn a_reply_may_be_a_list() {
    let (id, reply) = read_reply_line(r#"[5,"pong","success",[1,2,3,4],"mm"]"#).unwrap();
    assert_eq!(id, 5);
    let reply = reply.unwrap();
    assert_eq!(reply.text, "pong");
    let usage = normalize_usage(&reply.usage);
    assert_eq!(usage.input_tokens, 1 + 3 + 4);
    assert_eq!(usage.output_tokens, 2);
    let (id, refused) = read_reply_line(r#"[6,null,null,null,null,"no"]"#).unwrap();
    assert_eq!(id, 6);
    assert_eq!(refused.unwrap_err(), ProviderError::Internal("claude_sdk daemon: no".into()));
    assert!(read_reply_line(r#"[1,"a",null,null,null,null,7]"#).is_none(), "too long");
    assert!(read_reply_line("[]").is_none());
}

#[test]
fn a_child_that_cannot_be_talked_to_is_an_error() {
    let spawn = StartFailure::Spawn {
        executable: "node".into(),
        script: "/a \"b\".mjs".into(),
        error: "gone".into(),
    };
    assert_eq!(
        start_error(spawn),
        ProviderError::Internal(r#"claude_sdk: spawn "node" "/a \"b\".mjs": gone"#.into())
    );
    assert_eq!(
        start_error(StartFailure::NoStdin),
        ProviderError::Internal("claude_sdk: child stdin pipe missing".into())
    );
    assert_eq!(
        start_error(StartFailure::NoStdout),
        ProviderError::Internal("claude_sdk: child stdout pipe missing".into())
    );
}

#[test]
fn a_child_that_exits_leaves_no_call_waiting() {
    let mut calls = PendingCalls::new();
    let ids: Vec<u64> = (0..5).map(|_| calls.register()).collect();
    calls.forget(ids[2]);
    let mut left = calls.on_exit();
    left.sort();
    assert_eq!(left, vec![ids[0], ids[1], ids[3], ids[4]]);
    assert!(!ids.iter().any(|id| calls.is_waiting(*id)));
    assert_eq!(calls.register(), 5);
}

#[test]
fn a_reply_that_holds_a_member_twice_is_malformed() {
    for line in [
        r#"{"id":1,"id":2,"text":"a"}"#,
        r#"{"id":1,"text":"a","text":"a"}"#,
        r#"{"id":1,"text":"a","error":null,"error":null}"#,
        r#"{"id":1,"text":"a","usage":{"input_tokens":1,"input_tokens":1}}"#,
        r#"[1,"a",null,{"output_tokens":1,"output_tokens":1}]"#,
    ] {
        assert!(read_reply_line(line).is_none(), "{line}");
    }
    let unknown = r#"{"id":1,"text":"a","x":1,"x":2,"usage":{"y":1,"y":2}}"#;
    assert!(read_reply_line(unknown).unwrap().1.is_ok());
}
