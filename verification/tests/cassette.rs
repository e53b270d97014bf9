//! Recording what a provider answers, and playing it back.

use std::collections::HashMap;

use tars_provider::backends::cassette::file::{
    event_json, flush_text, profile_json, read_event, read_profile, read_recording,
    recording_json, CassetteFile, FileError,
};
use tars_provider::backends::cassette::fingerprint::{fingerprint_of, normalize_volatile};
use tars_provider::backends::cassette::provider::{CassetteProvider, CassetteStep, StreamItem};
use tars_provider::backends::cassette::request::{canon_request, request_fingerprint};
use tars_provider::backends::cassette::store::{
    pick_baseline, step_of, Cassette, Recording, STEP_ATTR,
};
use tars_provider::backends::mock::{CannedResponse, MockProvider};
use tars_provider::capabilities::{Capabilities, PromptCacheKind, StructuredOutputMode};
use tars_provider::json::{parse_json, print_json, Json};
use tars_provider::types::{
    CacheHitInfo, ChatEvent, ChatRequest, ModelHint, ProviderError, StopReason, Usage,
};

fn json(text: &str) -> Json {
    parse_json(text).unwrap()
}

fn req(prompt: &str) -> ChatRequest {
    ChatRequest::user(ModelHint::Tier("default".into()), prompt)
}

/// Asks a provider that records, with another one behind it.
fn record(p: &mut CassetteProvider, real: &mut MockProvider, prompt: &str) -> Vec<ChatEvent> {
    match p.on_request(&req(prompt), "test-model", None) {
        CassetteStep::Forward { canon } => {
            let events = real.stream(req(prompt), "test-model").unwrap();
            let stream = events.iter().map(|e| Ok(e.clone())).collect();
            assert!(p.on_reply(&canon, None, &stream));
            events
        }
        _ => panic!("expected the request to be handed on"),
    }
}

/// Asks a provider that plays back.
fn play(p: &CassetteProvider, prompt: &str) -> Result<Vec<ChatEvent>, ProviderError> {
    match p.on_request(&req(prompt), "test-model", None) {
        CassetteStep::Reply(events) => Ok(events),
        CassetteStep::Refuse(e) => Err(e),
        CassetteStep::Forward { .. } => panic!("nobody to ask"),
    }
}

fn text_of(events: &[ChatEvent]) -> String {
    events
        .iter()
        .filter_map(|e| match e {
            ChatEvent::Delta { text } => Some(text.as_str()),
            _ => None,
        })
        .collect()
}

fn tool_names(events: &[ChatEvent]) -> Vec<String> {
    events
        .iter()
        .filter_map(|e| match e {
            ChatEvent::ToolCallStart { name, .. } => Some(name.clone()),
            _ => None,
        })
        .collect()
}

#[test]
fn record_then_replay_round_trips_by_fingerprint() {
    let mut real = MockProvider::with_responses(
        "mock",
        vec![CannedResponse::text("FINDING_A"), CannedResponse::text("FINDING_B")],
    );
    let mut rec = CassetteProvider::record("rec", capable());
    assert_eq!(text_of(&record(&mut rec, &mut real, "file-1")), "FINDING_A");
    assert_eq!(text_of(&record(&mut rec, &mut real, "file-2")), "FINDING_B");
    let cassette = rec.take_captured();
    assert_eq!(cassette.len(), 2);

    let replay = CassetteProvider::replay("replay", cassette, plain());
    assert_eq!(text_of(&play(&replay, "file-1").unwrap()), "FINDING_A");
    assert_eq!(text_of(&play(&replay, "file-2").unwrap()), "FINDING_B");
    assert_eq!(text_of(&play(&replay, "file-1").unwrap()), "FINDING_A");
}

#[test]
fn replay_preserves_tool_calls_not_just_text() {
    let tool_resp = CannedResponse::Sequence(vec![
        ChatEvent::started("real"),
        ChatEvent::ToolCallStart { index: 0, id: "c1".into(), name: "fs.write_file".into() },
        ChatEvent::ToolCallEnd {
            index: 0,
            id: "c1".into(),
            parsed_args: json(r#"{"path": "a.rs", "content": "fixed"}"#),
        },
        ChatEvent::Finished { stop_reason: StopReason::ToolUse, usage: Usage::default() },
    ]);
    let mut real = MockProvider::with_responses("mock", vec![tool_resp]);
    let mut rec = CassetteProvider::record("rec", capable());
    assert_eq!(tool_names(&record(&mut rec, &mut real, "fix")), vec!["fs.write_file"]);
    let replay = CassetteProvider::replay("replay", rec.take_captured(), plain());
    assert_eq!(tool_names(&play(&replay, "fix").unwrap()), vec!["fs.write_file"]);
}

#[test]
fn replay_miss_is_a_signal() {
    let replay = CassetteProvider::replay("replay", Cassette::new(), plain());
    match play(&replay, "uncovered").unwrap_err() {
        ProviderError::CassetteMiss { want_fp, baseline_fp, baseline_selected_by, .. } => {
            assert!(!want_fp.is_empty(), "want_fp must carry the request fingerprint");
            assert!(baseline_fp.is_none(), "empty cassette → no baseline to diff");
            assert!(baseline_selected_by.is_none());
        }
        other => panic!("expected CassetteMiss, got {other:?}"),
    }
}

#[test]
fn replay_miss_carries_the_nearest_baseline() {
    let mut real = MockProvider::with_responses("mock", vec![CannedResponse::text("A")]);
    let mut rec = CassetteProvider::record("rec", capable());
    record(&mut rec, &mut real, "shared-prefix ONE");
    let cassette = rec.take_captured();
    assert_eq!(cassette.len(), 1);
    let replay = CassetteProvider::replay("replay", cassette, plain());
    match play(&replay, "shared-prefix TWO").unwrap_err() {
        ProviderError::CassetteMiss {
            want_fp,
            want_canon,
            baseline_fp,
            baseline_canon,
            baseline_selected_by,
        } => {
            assert!(!want_fp.is_empty());
            assert!(want_canon.contains("shared-prefix TWO"), "want_canon carries the request");
            assert!(baseline_fp.is_some(), "the recorded call is the nearest baseline");
            assert!(
                baseline_canon.as_deref().unwrap().contains("shared-prefix ONE"),
                "baseline_canon carries the recorded request to diff against"
            );
            assert_eq!(baseline_selected_by.as_deref(), Some("prefix"));
        }
        other => panic!("expected CassetteMiss, got {other:?}"),
    }
}

#[test]
fn fingerprint_ignores_the_run_varying_worktree_id() {
    let run1 = r#"{"system":"Working directory (absolute): /tmp/r/.arc/worktrees/fix-1140ccbb\nfix it"}"#;
    let run2 = r#"{"system":"Working directory (absolute): /tmp/r/.arc/worktrees/fix-563e568e\nfix it"}"#;
    assert_ne!(run1, run2, "raw strings differ");
    assert_eq!(
        normalize_volatile(run1),
        normalize_volatile(run2),
        "the worktree id must be normalized out of the fingerprint",
    );
}

fn request_fingerprint_of(canon: &str) -> String {
    fingerprint_of(&normalize_volatile(canon))
}

#[test]
fn fingerprint_is_path_portable_across_worktree_roots() {
    let here = r#"{"system":"Working directory (absolute): /Users/dev/checkout-a/.arc/worktrees/fix-1140ccbb\nfix it"}"#;
    let there = r#"{"system":"Working directory (absolute): /private/tmp/.tmpXY9/repo/.arc/worktrees/fix-563e568e\nfix it"}"#;
    assert_ne!(here, there, "raw strings differ (different tmp/root prefixes)");
    assert_eq!(
        request_fingerprint_of(here),
        request_fingerprint_of(there),
        "a different worktree ROOT must not change the fingerprint",
    );

    let other_body = r#"{"system":"Working directory (absolute): /private/tmp/.tmpXY9/repo/.arc/worktrees/fix-563e568e\nDO SOMETHING ELSE"}"#;
    assert_ne!(
        request_fingerprint_of(there),
        request_fingerprint_of(other_body),
        "only the path is volatile; the rest of the prompt must still count",
    );

    let critic = r#"{"system":"review crates/foo.rs against the rubric"}"#;
    assert_eq!(normalize_volatile(critic), critic, "non-worktree prompts are unchanged");
}

#[test]
fn the_end_of_an_id_is_found_beyond_ascii_too() {
    assert_eq!(
        normalize_volatile("see /a/worktrees/fix-12é now"),
        normalize_volatile("see /b/c/worktrees/fix-7ß now")
    );
}

#[test]
fn a_fingerprint_is_sixteen_hex_digits() {
    let fp = fingerprint_of("abc");
    assert_eq!(fp.len(), 16);
    assert!(fp.chars().all(|c| c.is_ascii_hexdigit()));
    assert_eq!(fp, fingerprint_of("abc"));
    assert_ne!(fp, fingerprint_of("abd"));
}

#[test]
fn models_are_kept_apart() {
    let a = canon_request(&req("x"), "m1");
    assert!(a.starts_with("model=m1\0"));
    assert_ne!(a, canon_request(&req("x"), "m2"));
    assert_ne!(request_fingerprint(&req("x"), "m1"), request_fingerprint(&req("x"), "m2"));
    assert_eq!(request_fingerprint(&req("x"), "m1"), fingerprint_of(&a));
}

fn plain() -> Capabilities {
    Capabilities::delegated(1_000, 100, false)
}

fn capable() -> Capabilities {
    let mut caps = plain();
    caps.supports_tool_use = true;
    caps
}

#[test]
fn cassette_file_round_trips_capabilities() {
    let file =
        CassetteFile { capabilities: Some(capable()), recordings: Cassette::new() };
    let text = print_json(&file.to_json());
    let back = CassetteFile::read_current(&text).unwrap();
    assert!(back.capabilities.unwrap().supports_tool_use, "caps survive the cassette file");
    assert!(CassetteFile::read_current(r#"{"abc":[]}"#).is_none());
}

#[test]
fn a_recording_loads_from_the_legacy_bare_event_array() {
    let legacy = read_recording(&json(r#"[{"type":"delta","text":"hi"}]"#))
        .expect("the pre-capture shape must still deserialize");
    assert_eq!(legacy.events.len(), 1);
    assert!(legacy.request.is_none(), "a legacy recording has no request to diff against");

    let current = read_recording(&json(
        r#"{"request":"model=m body","events":[{"type":"delta","text":"hi"}]}"#,
    ))
    .expect("the current shape deserializes");
    assert_eq!(current.request.as_deref(), Some("model=m body"));
    assert_eq!(current.events.len(), 1);
}

fn rec(request: Option<&str>, step: Option<&str>) -> Recording {
    Recording {
        request: request.map(|s| s.to_string()),
        step: step.map(|s| s.to_string()),
        events: vec![],
    }
}

#[test]
fn a_step_label_selects_the_baseline_over_the_closer_looking_one() {
    let mut cassette = Cassette::new();
    cassette.insert(
        "fp_other".to_string(),
        rec(Some("model=m\nalmost exactly the live text"), Some("verify:F-1")),
    );
    cassette.insert(
        "fp_same_step".to_string(),
        rec(Some("model=m\ncompletely different bytes"), Some("review:lib.rs")),
    );
    let (fp, _, by) = pick_baseline(
        "model=m\nalmost exactly the live text!",
        Some("review:lib.rs"),
        &cassette,
    )
    .expect("a labelled recording exists");
    assert_eq!(by, "label");
    assert_eq!(fp, "fp_same_step", "the same STEP wins over the closer TEXT");
}

#[test]
fn without_a_label_the_baseline_is_a_declared_guess() {
    let mut cassette = Cassette::new();
    cassette.insert("fp_near".to_string(), rec(Some("model=m shared head AAA"), None));
    cassette.insert("fp_far".to_string(), rec(Some("zzz unrelated"), None));
    let (fp, _, by) = pick_baseline("model=m shared head BBB", None, &cassette)
        .expect("a recorded request exists");
    assert_eq!(by, "prefix", "no label ⇒ the choice is a heuristic and says so");
    assert_eq!(fp, "fp_near");
}

#[test]
fn no_captured_request_yields_no_baseline_rather_than_an_empty_one() {
    let mut cassette = Cassette::new();
    cassette.insert("fp".to_string(), rec(None, Some("review:lib.rs")));
    assert!(pick_baseline("anything", Some("review:lib.rs"), &cassette).is_none());
    assert!(pick_baseline("anything", None, &cassette).is_none());
}

#[test]
fn among_same_label_turns_the_closest_one_wins_deterministically() {
    let turns = [
        ("fp_turn1", "model=m\nTURN ONE entirely different"),
        ("fp_turn2", "model=m\nshared head, turn two"),
        ("fp_turn3", "model=m\nshared head, turn three"),
    ];
    for shift in 0..20 {
        let mut shuffled = Cassette::new();
        for i in 0..turns.len() {
            let (fp, text) = turns[(i + shift) % turns.len()];
            shuffled.insert(fp.to_string(), rec(Some(text), Some("fix:F-1")));
        }
        let (fp, _, by) =
            pick_baseline("model=m\nshared head, turn thr", Some("fix:F-1"), &shuffled)
                .expect("labelled recordings exist");
        assert_eq!(by, "label");
        assert_eq!(fp, "fp_turn3", "the closest turn under the label, every time");
    }
}

#[test]
fn the_label_of_a_step_is_an_attribute() {
    let attrs = Json::object().with(STEP_ATTR, Json::text("review:lib.rs"));
    assert_eq!(step_of(&attrs), Some("review:lib.rs"));
    assert_eq!(step_of(&Json::object()), None);
}

#[test]
fn a_failed_stream_is_not_kept() {
    let mut p = CassetteProvider::record("rec", capable());
    let canon = match p.on_request(&req("x"), "m", None) {
        CassetteStep::Forward { canon } => canon,
        _ => panic!("expected the request to be handed on"),
    };
    let stream = vec![
        Ok(ChatEvent::started("m")),
        Err(ProviderError::Internal("broke".into())),
    ];
    assert!(!p.on_reply(&canon, None, &stream));
    assert_eq!(p.recordings().len(), 0);
}

#[test]
fn a_seeded_recorder_accumulates() {
    let mut seed = Cassette::new();
    seed.insert("old".into(), rec(Some("r"), None));
    let mut p = CassetteProvider::record_seeded("rec", capable(), seed);
    let mut real = MockProvider::new("mock", CannedResponse::text("new"));
    record(&mut p, &mut real, "x");
    assert_eq!(p.recordings().len(), 2);
    assert!(p.recordings().get("old").is_some());
    assert_eq!(p.take_captured().len(), 2);
    assert_eq!(p.take_captured().len(), 0);
}

fn all_events() -> Vec<ChatEvent> {
    vec![
        ChatEvent::Started {
            actual_model: "m".into(),
            cache_hit: CacheHitInfo {
                cached_input_tokens: 7,
                used_explicit_handle: true,
                replayed_from_cache: false,
            },
        },
        ChatEvent::Delta { text: "d\n\"".into() },
        ChatEvent::ThinkingDelta { text: "t".into() },
        ChatEvent::ToolCallStart { index: 3, id: "i".into(), name: "n".into() },
        ChatEvent::ToolCallArgsDelta { index: 3, args_delta: "{".into() },
        ChatEvent::ToolCallEnd {
            index: 3,
            id: "i".into(),
            parsed_args: Json::object().with("a", Json::Null),
        },
        ChatEvent::Finished {
            stop_reason: StopReason::MaxTokens,
            usage: Usage {
                input_tokens: 1,
                output_tokens: 2,
                cached_input_tokens: 3,
                cache_creation_tokens: 4,
                thinking_tokens: 5,
            },
        },
    ]
}

#[test]
fn events_are_read_back_as_they_were_written() {
    for e in all_events() {
        let back = read_event(&json(&print_json(&event_json(&e)))).unwrap();
        assert_eq!(back, e);
    }
    for reason in [
        StopReason::EndTurn,
        StopReason::MaxTokens,
        StopReason::StopSequence,
        StopReason::ToolUse,
        StopReason::ContentFilter,
        StopReason::Other,
    ] {
        let e = ChatEvent::Finished { stop_reason: reason, usage: Usage::default() };
        assert_eq!(read_event(&event_json(&e)), Some(e));
    }
    assert!(read_event(&json(r#"{"type":"unheard"}"#)).is_none());
    assert!(read_event(&json(r#"{"type":"delta"}"#)).is_none());
}

#[test]
fn profiles_are_read_back_as_they_were_written() {
    for kind in [
        PromptCacheKind::NoCache,
        PromptCacheKind::ImplicitPrefix { min_tokens: 1024 },
        PromptCacheKind::ExplicitMarker,
        PromptCacheKind::ExplicitObject,
        PromptCacheKind::Delegated,
    ] {
        let c = Capabilities::hosted(9, StructuredOutputMode::StrictSchema, kind);
        assert_eq!(read_profile(&json(&print_json(&profile_json(&c)))), Some(c));
    }
    assert!(read_profile(&Json::object()).is_none());
}

#[test]
fn a_file_is_read_back_as_it_was_written() {
    let mut cassette = Cassette::new();
    assert!(flush_text(&cassette, &capable()).is_none(), "nothing to keep");
    cassette.insert(
        "fp1".into(),
        Recording {
            request: Some("model=m\0body".into()),
            step: Some("s".into()),
            events: all_events(),
        },
    );
    cassette.insert("fp2".into(), Recording::from_events(vec![]));
    let text = flush_text(&cassette, &capable()).unwrap();
    assert!(text.contains("\n  \"capabilities\": {"), "indented");
    let back = CassetteFile::from_text(&text).unwrap();
    assert_eq!(back.capabilities, Some(capable()));
    assert_eq!(back.recordings.len(), 2);
    let first = back.recordings.get("fp1").unwrap();
    assert_eq!(first.request.as_deref(), Some("model=m\0body"));
    assert_eq!(first.step.as_deref(), Some("s"));
    assert_eq!(first.events, all_events());
    assert!(back.recordings.get("fp2").unwrap().events.is_empty());
    let again = recording_json(first);
    assert_eq!(again.str_at("step"), Some("s"));
}

#[test]
fn a_recording_is_played_back_out_of_its_file() {
    let mut real = MockProvider::new("mock", CannedResponse::text("ANSWER"));
    let mut rec = CassetteProvider::record("rec", capable());
    assert_eq!(rec.id(), "rec");
    assert!(rec.flush().is_none(), "nothing to keep");
    let said = record(&mut rec, &mut real, "ask");
    let text = rec.flush().unwrap();
    let replay = CassetteProvider::replay_from_file("replay", &text, plain()).unwrap();
    assert_eq!(replay.id(), "replay");
    assert_eq!(*replay.capabilities(), capable());
    assert_eq!(play(&replay, "ask").unwrap(), said);
    assert!(play(&replay, "other").is_err());
    assert!(replay.flush().is_none(), "nothing was recorded");
}

#[test]
fn a_file_without_capabilities_gets_the_usual_ones() {
    let text = r#"{"fp":[{"type":"delta","text":"hi"}]}"#;
    let replay = CassetteProvider::replay_from_file("replay", text, plain()).unwrap();
    assert_eq!(*replay.capabilities(), plain());
    assert_eq!(replay.recordings().len(), 1);
    let broken = CassetteProvider::replay_from_file("replay", "[]", plain());
    assert!(matches!(broken, Err(FileError::Malformed(_))));
}

#[test]
fn a_file_of_the_former_form_is_read() {
    let f = CassetteFile::from_text(r#"{"fp":[{"type":"delta","text":"hi"}]}"#).unwrap();
    assert!(f.capabilities.is_none());
    assert_eq!(f.recordings.get("fp").unwrap().events.len(), 1);
    assert!(matches!(CassetteFile::from_text("{"), Err(FileError::NotJson(_))));
    let none = CassetteFile::from_text("[]").unwrap_err();
    assert!(matches!(none, FileError::Malformed(_)));
    let said = serde_json::from_str::<HashMap<String, String>>("[]").unwrap_err();
    assert_eq!(none.message(), said.to_string());
    let seven = CassetteFile::from_text(r#"{"fp":7}"#).unwrap_err();
    assert_eq!(
        seven.message(),
        "invalid type: integer `7`, expected struct Obj at line 1 column 8"
    );
}

#[test]
fn a_file_may_be_a_list() {
    let text = r#"[null,{"fp":[{"type":"delta","text":"hi"}]}]"#;
    let f = CassetteFile::from_text(text).unwrap();
    assert!(f.capabilities.is_none());
    assert_eq!(f.recordings.get("fp").unwrap().events.len(), 1);
    assert!(CassetteFile::from_text("[null,{},7]").is_err(), "too long");
}

#[test]
fn what_is_streamed_is_played_back() {
    let mut real = MockProvider::new("mock", CannedResponse::text("ANSWER"));
    let said: Vec<StreamItem> =
        real.stream(req("ask"), "m").unwrap().into_iter().map(Ok).collect();
    let mut rec = CassetteProvider::record("rec", capable());
    let inner = said.iter().map(|e| Ok(e.as_ref().unwrap().clone())).collect();
    let (handed_on, kept) = rec.stream(&req("ask"), "m", Some("s".into()), Ok(inner));
    assert_eq!(handed_on.unwrap(), said);
    assert!(kept);

    let refused = ProviderError::Internal("down".into());
    let (answer, kept) = rec.stream(&req("more"), "m", None, Err(refused));
    assert_eq!(answer, Err(ProviderError::Internal("down".into())));
    assert!(!kept);
    let broken = vec![Err(ProviderError::Internal("broke".into()))];
    let (answer, kept) = rec.stream(&req("more"), "m", None, Ok(broken));
    assert_eq!(answer.unwrap().len(), 1);
    assert!(!kept);
    assert_eq!(rec.recordings().len(), 1);
    let other = vec![Ok(ChatEvent::started("other"))];
    assert!(rec.stream(&req("other"), "m", None, Ok(other)).1);
    assert_eq!(rec.recordings().len(), 2);

    let mut play = CassetteProvider::replay("play", rec.take_captured(), plain());
    let (answer, kept) = play.stream(&req("ask"), "m", None, Ok(vec![]));
    assert_eq!(answer.unwrap(), said);
    assert!(!kept);
    let again = play.stream(&req("ask"), "m", Some("t".into()), Ok(vec![])).0;
    assert_eq!(again.unwrap(), said);
    let (answer, _) = play.stream(&req("more"), "m", Some("s".into()), Ok(vec![]));
    match answer {
        Err(ProviderError::CassetteMiss { baseline_selected_by, .. }) => {
            assert!(baseline_selected_by.is_some())
        }
        other => panic!("got {other:?}"),
    }
}

#[test]
fn a_second_pass_changes_nothing() {
    for text in [
        "at /a/b/worktrees/fix-x1/src and /c/worktrees/fix-y2",
        "worktrees/fix-",
        "NORMROOT/worktrees/fix-NORM/src",
        "plain",
    ] {
        let once = normalize_volatile(text);
        assert_eq!(normalize_volatile(&once), once, "{text}");
    }
}

#[test]
fn the_text_of_a_request_begins_with_its_model() {
    assert!(canon_request(&req("x"), "m1").starts_with("model=m1\0"));
}

#[test]
fn a_malformed_file_says_what_is_wrong() {
    for (text, reason) in [
        (r#"{"a":[],"b":{"request":"r"}}"#, "missing field `events` at line 1 column 28"),
        (r#"{"a":{"events":7}}"#, "invalid type: integer `7`, expected a sequence at line 1 column 18"),
        (
            "{\n  \"a\": {\"events\": [], \"step\": 1},\n  \"b\": []\n}",
            "invalid type: integer `1`, expected a string at line 2 column 32",
        ),
        (r#"{"a":[{"type":"delta"}]}"#, "missing field `text` at line 1 column 24"),
        (r#"{"a":[{"type":"finished","stop_reason":"x"}]}"#, "unknown variant `x` at line 1 column 45"),
        (r#"{"a":[{"type":"tool_call_end","index":-1}]}"#, "invalid type: integer `-1`, expected usize at line 1 column 43"),
        (" 7 ", "invalid type: integer `7`, expected a map at line 1 column 2"),
    ] {
        match CassetteFile::from_text(text) {
            Err(FileError::Malformed(e)) => assert_eq!(e, reason),
            other => panic!("{text}: got {other:?}"),
        }
    }
    for text in ["[]", " \"x\" ", "null", "[1]", "true"] {
        let said = serde_json::from_str::<HashMap<String, String>>(text).unwrap_err();
        assert_eq!(CassetteFile::from_text(text).unwrap_err().message(), said.to_string());
    }
}

#[test]
fn a_file_holds_its_members_once() {
    let twice = r#"{"recordings":{},"recordings":{}}"#;
    assert_eq!(
        CassetteFile::from_text(twice).unwrap_err(),
        FileError::Malformed("missing field `events` at line 1 column 16".into())
    );
    assert!(CassetteFile::from_text(r#"{"fp":7,"fp":[]}"#).is_err());
    let later = r#"{"recordings":{"fp":[{"type":"delta","text":"a"}],"fp":[]}}"#;
    let f = CassetteFile::from_text(later).unwrap();
    assert!(f.recordings.get("fp").unwrap().events.is_empty());
}
