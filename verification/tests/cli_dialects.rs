//! The command-line programs: how each is called, and what its answer means.

use tars_provider::backends::cli::argv::{
    build_argv_with, CallContext, ClaudeCliEffort, ClaudeCliTools, SubprocessInvocation,
};
use tars_provider::backends::cli::dialect::{CliDialect, OutputMode, PromptChannel};
use tars_provider::backends::cli::dialects::antigravity::AntigravityDialect;
use tars_provider::backends::cli::dialects::claude::{resolve_claude_state_dirs, ClaudeCliDialect};
use tars_provider::backends::cli::dialects::codex::{
    build_codex_argv, codex_state_dirs, convert_usage, map_thread_event, read_thread_event,
    CodexCliDialect, CodexUsage, SandboxMode, ThreadEvent,
};
use tars_provider::backends::cli::dialects::gemini::{gemini_stripped_env, GeminiCliDialect};
use tars_provider::backends::cli::dialects::opencode::{opencode_state_dirs, OpenCodeDialect};
use tars_provider::backends::cli::prompt::MAX_PROMPT_BYTES;
use tars_provider::json::{parse_json, Json};
use tars_provider::types::{
    ChatEvent, ChatRequest, Message, ModelHint, ProviderError, StopReason, ThinkingMode,
    ToolChoice, Usage,
};

fn json(text: &str) -> Json {
    parse_json(text).unwrap()
}

fn ask(text: &str) -> ChatRequest {
    ChatRequest::user(ModelHint::Tier("default".into()), text)
}

fn ask_model(model: &str, text: &str) -> ChatRequest {
    ChatRequest::user(ModelHint::Explicit(model.into()), text)
}

fn invoke<D: CliDialect>(d: &D, req: &ChatRequest, model: &str) -> SubprocessInvocation {
    d.invocation(req, model, &CallContext::default()).unwrap()
}

fn lines(all: &[&str]) -> Json {
    Json::Arr(all.iter().map(|l| Json::text(l)).collect())
}

fn has(list: &[String], name: &str) -> bool {
    list.iter().any(|x| x == name)
}

fn finished(e: &ChatEvent) -> (StopReason, Usage) {
    match e {
        ChatEvent::Finished { stop_reason, usage } => (*stop_reason, *usage),
        other => panic!("expected Finished, got {other:?}"),
    }
}

fn agy() -> AntigravityDialect {
    AntigravityDialect::new("agy".into(), 300_000)
}

fn claude() -> ClaudeCliDialect {
    ClaudeCliDialect::new(
        "agent".into(),
        300_000,
        ClaudeCliTools::Disabled,
        false,
        None,
        true,
        vec![],
    )
}

fn codex() -> CodexCliDialect {
    CodexCliDialect::new("codex".into(), 600_000, SandboxMode::ReadOnly, true)
}

fn gemini() -> GeminiCliDialect {
    GeminiCliDialect::new("gemini".into(), 300_000)
}

fn opencode() -> OpenCodeDialect {
    OpenCodeDialect::new("opencode".into(), 300_000)
}

#[test]
fn argv_is_agy_shape_with_prompt_as_arg() {
    let d = agy();
    let inv = invoke(&d, &ask("say hi"), "gemini-2.5-pro");
    let argv = d.argv(&inv);
    assert_eq!(argv[0], "-p");
    assert!(argv[1].contains("say hi"));
    assert_eq!(argv[2], "--model");
    assert_eq!(argv[3], "gemini-2.5-pro");
    assert_eq!(argv[4], "--dangerously-skip-permissions");
}

#[test]
fn argv_appends_add_dir_when_cwd_present() {
    let d = agy();
    let mut inv = invoke(&d, &ask("hi"), "gemini-2.5-pro");
    inv.cwd = Some("/tmp/worktree".into());
    let argv = d.argv(&inv);
    let i = argv.iter().position(|a| a == "--add-dir").expect("--add-dir present");
    assert_eq!(argv[i + 1], "/tmp/worktree");
}

#[test]
fn argv_omits_add_dir_without_cwd() {
    let d = agy();
    let mut inv = invoke(&d, &ask("hi"), "gemini-2.5-pro");
    inv.cwd = None;
    let argv = d.argv(&inv);
    assert!(!argv.iter().any(|a| a == "--add-dir"));
}

#[test]
fn channel_is_arg_and_mode_is_text() {
    let d = agy();
    assert_eq!(d.prompt_channel(), PromptChannel::Arg);
    assert_eq!(d.output_mode(), OutputMode::Text);
}

#[test]
fn invocation_does_not_strip_auth_env() {
    let inv = invoke(&agy(), &ask("x"), "gemini-2.5-pro");
    assert!(inv.stripped_env.is_empty());
}

#[test]
fn env_lists_passthrough_auth_keys() {
    let d = agy();
    assert!(d.env().contains(&"GEMINI_API_KEY"));
    assert!(d.env().contains(&"ANTIGRAVITY_API_KEY"));
}

#[test]
fn antigravity_oversized_prompt_rejected_with_invalid_request() {
    let big = "x".repeat(MAX_PROMPT_BYTES + 1);
    let err = agy()
        .invocation(&ask(&big), "gemini-2.5-pro", &CallContext::default())
        .unwrap_err();
    assert!(matches!(err, ProviderError::InvalidRequest(_)));
}

#[test]
fn parse_text_yields_delta_then_finished() {
    let events = agy().parse_text("the whole printed answer\n").unwrap();
    assert_eq!(events.len(), 2);
    assert!(matches!(&events[0], ChatEvent::Delta { text } if text == "the whole printed answer"));
    assert!(matches!(
        &events[1],
        ChatEvent::Finished { stop_reason, .. } if *stop_reason == StopReason::EndTurn
    ));
}

#[test]
fn antigravity_invocation_embeds_system_as_prefix_block() {
    let inv = invoke(&agy(), &ask("x").with_system("be precise"), "gemini-2.5-pro");
    assert!(inv.prompt.starts_with("[system]\nbe precise"));
    assert!(inv.prompt.contains("[user]\nx"));
}

#[test]
fn argv_matches_build_argv_with_exactly() {
    for on in [false, true] {
        let d = claude().streaming(on);
        let inv = invoke(&d, &ask_model("opus", "hi"), "opus");
        assert_eq!(d.argv(&inv), build_argv_with(&inv, on));
    }
}

#[test]
fn invocation_carries_claude_config_and_context() {
    let d = ClaudeCliDialect::new(
        "agent".into(),
        42_000,
        ClaudeCliTools::Default,
        true,
        Some(ClaudeCliEffort::High),
        false,
        vec!["--debug".into()],
    );
    let mut ctx = CallContext::default();
    ctx.cwd = Some("/tmp/wt".into());
    let req = ask_model("sonnet", "x").with_system("brief");
    let inv = d.invocation(&req, "sonnet", &ctx).unwrap();
    assert_eq!(inv.model, "sonnet");
    assert_eq!(inv.system.as_deref(), Some("brief"));
    assert_eq!(inv.timeout_ms, 42_000);
    assert!(inv.bare);
    assert_eq!(inv.effort, Some(ClaudeCliEffort::High));
    assert!(!inv.exclude_dynamic_sections);
    assert_eq!(inv.extra_args, vec!["--debug".to_string()]);
    assert_eq!(inv.cwd, Some("/tmp/wt".to_string()));
    assert!(has(&inv.stripped_env, "ANTHROPIC_API_KEY"));
}

#[test]
fn claude_invocation_requires_explicit_model() {
    let err = claude().invocation(&ask("hi"), "m", &CallContext::default()).unwrap_err();
    assert!(matches!(err, ProviderError::InvalidRequest(_)));
}

#[test]
fn parse_line_maps_result_and_usage() {
    let payload = json(
        r#"{
            "result": "hello from the program",
            "is_error": false,
            "usage": { "input_tokens": 12, "output_tokens": 5, "cache_read_input_tokens": 3 }
        }"#,
    );
    assert!(claude().has_fitting_counts(&payload));
    let events = claude().parse_line(&payload).unwrap();
    assert_eq!(events.len(), 2);
    assert!(matches!(&events[0], ChatEvent::Delta { text } if text == "hello from the program"));
    let (stop_reason, usage) = finished(&events[1]);
    assert_eq!(stop_reason, StopReason::EndTurn);
    assert_eq!(usage.input_tokens, 15);
    assert_eq!(usage.output_tokens, 5);
    assert_eq!(usage.cached_input_tokens, 3);
    assert_eq!(usage.cache_creation_tokens, 0);
    assert_eq!(usage.thinking_tokens, 0);
}

#[test]
fn parse_line_null_result_is_empty_delta() {
    let events = claude().parse_line(&json(r#"{"result": null, "is_error": false}"#)).unwrap();
    assert!(matches!(&events[0], ChatEvent::Delta { text } if text.is_empty()));
}

#[test]
fn state_dirs_prefers_config_dir_override_verbatim() {
    let dirs = resolve_claude_state_dirs(
        Some("/custom/agent/home".to_string()),
        Some("/home/alice".to_string()),
        "agent",
    );
    assert_eq!(dirs, vec!["/custom/agent/home".to_string()]);
}

#[test]
fn state_dirs_resolves_dot_claude_under_home_when_no_override() {
    let dirs = resolve_claude_state_dirs(None, Some("/home/alice".to_string()), "agent");
    assert_eq!(dirs, vec!["/home/alice/.agent".to_string()]);
}

#[test]
fn state_dirs_empty_when_no_override_and_no_home() {
    assert!(resolve_claude_state_dirs(None, None, "agent").is_empty());
}

#[test]
fn claude_channel_is_stdin_and_mode_is_json_events() {
    let d = claude();
    assert_eq!(d.prompt_channel(), PromptChannel::Stdin);
    assert_eq!(d.output_mode(), OutputMode::JsonEvents);
    assert!(d.env().is_empty());
}

#[test]
fn argv_keeps_codex_sandbox_flag_and_shape() {
    let d = codex();
    let inv = invoke(&d, &ask("hi"), "gpt-5");
    let argv = d.argv(&inv);
    assert_eq!(argv[0], "exec");
    assert_eq!(argv[1], "--json");
    assert_eq!(argv[2], "--model");
    assert_eq!(argv[3], "gpt-5");
    let s = argv.iter().position(|a| a == "--sandbox").expect("--sandbox present");
    assert_eq!(argv[s + 1], "read-only");
    assert!(argv.iter().any(|a| a == "--skip-git-repo-check"));
    assert_eq!(argv.last().map(String::as_str), Some("-"));
}

#[test]
fn argv_sandbox_mode_variants_pin_to_codex_values() {
    assert_eq!(SandboxMode::ReadOnly.as_arg(), "read-only");
    assert_eq!(SandboxMode::WorkspaceWrite.as_arg(), "workspace-write");
    assert_eq!(SandboxMode::DangerFullAccess.as_arg(), "danger-full-access");
}

#[test]
fn argv_omits_skip_git_when_disabled() {
    let d = CodexCliDialect::new("codex".into(), 1_000, SandboxMode::ReadOnly, false);
    let argv = build_codex_argv("gpt-5", d.sandbox, d.skip_git_repo_check);
    assert!(!argv.iter().any(|a| a == "--skip-git-repo-check"));
}

#[test]
fn codex_channel_is_stdin_and_mode_is_json_events() {
    let d = codex();
    assert_eq!(d.prompt_channel(), PromptChannel::Stdin);
    assert_eq!(d.output_mode(), OutputMode::JsonEvents);
}

#[test]
fn invocation_strips_env() {
    let inv = invoke(&codex(), &ask("x"), "gpt-5-codex");
    assert_eq!(inv.model, "gpt-5-codex");
    for k in ["OPENAI_API_KEY", "CODEX_API_KEY", "CODEX_AGENT_IDENTITY"] {
        assert!(has(&inv.stripped_env, k), "stripped_env must contain {k}");
    }
}

#[test]
fn serializer_includes_system_then_each_role_block() {
    let req = ChatRequest {
        model: ModelHint::Explicit("gpt-5-codex".into()),
        system: Some("be brief".into()),
        messages: vec![
            Message::user_text("first user"),
            Message::assistant_text("first assistant"),
            Message::user_text("second user"),
        ],
        tools: vec![],
        tool_choice: ToolChoice::Auto,
        structured_output: None,
        max_output_tokens: None,
        temperature: None,
        stop_sequences: vec![],
        seed: None,
        cache_directives: vec![],
        thinking: ThinkingMode::Off,
        enable_chat_template_thinking: None,
    };
    let inv = invoke(&codex(), &req, "gpt-5-codex");
    assert!(inv.prompt.starts_with("[system]\nbe brief\n\n[user]\nfirst user\n\n"));
    assert!(inv.prompt.contains("[assistant]\nfirst assistant"));
    assert!(inv.prompt.ends_with("[user]\nsecond user"));
}

fn codex_parse(all: &[&str]) -> Result<Vec<ChatEvent>, ProviderError> {
    codex().parse_line(&lines(all))
}

#[test]
fn parse_line_yields_delta_then_finished() {
    let events = codex_parse(&[
        r#"{"type":"thread.started","thread_id":"t1"}"#,
        r#"{"type":"turn.started"}"#,
        r#"{"type":"item.completed","item":{"id":"i1","type":"agent_message","text":"hi"}}"#,
        r#"{"type":"turn.completed","usage":{"input_tokens":10,"cached_input_tokens":0,"output_tokens":2,"reasoning_output_tokens":0}}"#,
    ])
    .unwrap();
    assert!(matches!(&events[0], ChatEvent::Delta { text } if text == "hi"));
    let (stop_reason, usage) = finished(&events[1]);
    assert_eq!(stop_reason, StopReason::EndTurn);
    assert_eq!(usage.input_tokens, 10);
    assert_eq!(usage.output_tokens, 2);
}

#[test]
fn parse_line_separates_thinking_from_text() {
    let events = codex_parse(&[
        r#"{"type":"item.completed","item":{"id":"i1","type":"reasoning","text":"thinking…"}}"#,
        r#"{"type":"item.completed","item":{"id":"i2","type":"agent_message","text":"answer"}}"#,
        r#"{"type":"turn.completed","usage":{"input_tokens":1,"cached_input_tokens":0,"output_tokens":1,"reasoning_output_tokens":5}}"#,
    ])
    .unwrap();
    assert!(matches!(&events[0], ChatEvent::ThinkingDelta { text } if text == "thinking…"));
    assert!(matches!(&events[1], ChatEvent::Delta { text } if text == "answer"));
    assert_eq!(finished(&events[2]).1.thinking_tokens, 5);
}

#[test]
fn parse_line_drops_internal_tool_events_and_blank_garbage() {
    let events = codex_parse(&[
        "",
        "   ",
        "this is not json",
        r#"{"type":"item.completed","item":{"id":"c1","type":"command_execution","command":"ls","aggregated_output":"foo","exit_code":0,"status":"completed"}}"#,
        r#"{"type":"item.completed","item":{"id":"a1","type":"agent_message","text":"done"}}"#,
        r#"{"type":"turn.completed","usage":{"input_tokens":1,"cached_input_tokens":0,"output_tokens":1,"reasoning_output_tokens":0}}"#,
    ])
    .unwrap();
    assert_eq!(events.len(), 2);
    assert!(matches!(&events[0], ChatEvent::Delta { text } if text == "done"));
}

#[test]
fn parse_line_turn_failed_surfaces_error() {
    let err = codex_parse(&[r#"{"type":"turn.failed","error":{"message":"context too long"}}"#])
        .unwrap_err();
    match err {
        ProviderError::CliSubprocessDied { stderr, .. } => {
            assert!(stderr.contains("context too long"));
            assert!(stderr.contains("turn failed"));
        }
        other => panic!("expected CliSubprocessDied, got {other:?}"),
    }
}

#[test]
fn parse_line_top_level_error_surfaces_error() {
    let err = codex_parse(&[r#"{"type":"error","message":"stream broke"}"#]).unwrap_err();
    match err {
        ProviderError::CliSubprocessDied { stderr, .. } => {
            assert!(stderr.contains("stream broke"));
            assert!(stderr.contains("stream error"));
        }
        other => panic!("expected CliSubprocessDied, got {other:?}"),
    }
}

fn thread_event(text: &str) -> ThreadEvent {
    read_thread_event(text).expect("a thread event")
}

#[test]
fn agent_message_completed_yields_one_delta() {
    let out = map_thread_event(thread_event(
        r#"{"type":"item.completed","item":{"id":"i1","type":"agent_message","text":"Hello, world."}}"#,
    ));
    assert_eq!(out.len(), 1);
    match out.into_iter().next().unwrap().unwrap() {
        ChatEvent::Delta { text } => assert_eq!(text, "Hello, world."),
        other => panic!("expected Delta, got {other:?}"),
    }
}

#[test]
fn empty_agent_message_drops_silently() {
    let out = map_thread_event(thread_event(
        r#"{"type":"item.completed","item":{"id":"i3","type":"agent_message","text":""}}"#,
    ));
    assert!(out.is_empty());
}

#[test]
fn turn_completed_yields_finished_with_converted_usage() {
    let out = map_thread_event(thread_event(
        r#"{"type":"turn.completed","usage":{"input_tokens":100,"cached_input_tokens":30,"output_tokens":50,"reasoning_output_tokens":20}}"#,
    ));
    match out.into_iter().next().unwrap().unwrap() {
        ChatEvent::Finished { stop_reason, usage } => {
            assert_eq!(stop_reason, StopReason::EndTurn);
            assert_eq!(usage.input_tokens, 100);
            assert_eq!(usage.cached_input_tokens, 30);
            assert_eq!(usage.output_tokens, 50);
            assert_eq!(usage.thinking_tokens, 20);
            assert_eq!(usage.cache_creation_tokens, 0);
        }
        other => panic!("expected Finished, got {other:?}"),
    }
}

#[test]
fn unknown_item_kinds_drop_via_serde_other() {
    for kind in ["command_execution", "file_change", "mcp_tool_call", "web_search"] {
        let text = format!(
            r#"{{"type":"item.completed","item":{{"id":"x","type":"{kind}","command":"ls","aggregated_output":"","status":"completed"}}}}"#
        );
        let out = map_thread_event(thread_event(&text));
        assert!(out.is_empty(), "item.completed of kind `{kind}` should drop in v1");
    }
}

#[test]
fn negative_usage_tokens_are_clamped_to_zero() {
    let converted = convert_usage(&CodexUsage {
        input_tokens: -5,
        cached_input_tokens: -1,
        output_tokens: 10,
        reasoning_output_tokens: -2,
    });
    assert_eq!(converted.input_tokens, 0);
    assert_eq!(converted.cached_input_tokens, 0);
    assert_eq!(converted.output_tokens, 10);
    assert_eq!(converted.thinking_tokens, 0);
}

#[test]
fn codex_line_of_another_shape_is_refused() {
    assert!(read_thread_event(r#"{"type":"turn.completed"}"#).is_err());
    assert!(read_thread_event(r#"{"type":"turn.failed","error":{}}"#).is_err());
    assert!(read_thread_event(r#"{"type":"turn.completed","usage":{"input_tokens":"many"}}"#)
    .is_err());
}

#[test]
fn codex_critical_line_of_another_shape_surfaces() {
    match codex_parse(&[r#"{"type":"turn.completed"}"#]) {
        Err(ProviderError::CliSubprocessDied { exit_code: None, stderr }) => assert_eq!(
            stderr,
            "codex: failed to parse critical `turn.completed` event: missing field `usage`"
        ),
        other => panic!("got {other:?}"),
    }
    assert_eq!(codex_parse(&[r#"{"type":"item.completed"}"#, r#"{"no":"type"}"#]), Ok(vec![]));
}

#[test]
fn own_directories_are_named() {
    assert_eq!(codex_state_dirs(None, Some("/h".into())), vec!["/h/.codex".to_string()]);
    assert_eq!(codex_state_dirs(Some("/c".into()), Some("/h".into())), vec!["/c".to_string()]);
    assert!(opencode_state_dirs(None).is_empty());
    assert!(!opencode_state_dirs(Some("/h".into())).is_empty());
}

#[test]
fn argv_is_gemini_shape_with_prompt_as_arg() {
    let d = gemini();
    let inv = invoke(&d, &ask_model("gemini-2.5-flash", "say hi"), "gemini-2.5-flash");
    let argv = d.argv(&inv);
    assert_eq!(argv[0], "-p");
    assert!(argv[1].contains("say hi"));
    assert_eq!(argv[2], "-m");
    assert_eq!(argv[3], "gemini-2.5-flash");
    assert_eq!(argv[4], "-o");
    assert_eq!(argv[5], "json");
}

#[test]
fn gemini_channel_is_arg_and_mode_is_json_events() {
    let d = gemini();
    assert_eq!(d.prompt_channel(), PromptChannel::Arg);
    assert_eq!(d.output_mode(), OutputMode::JsonEvents);
}

#[test]
fn gemini_invocation_requires_explicit_model() {
    let err = gemini().invocation(&ask("hi"), "m", &CallContext::default()).unwrap_err();
    assert!(matches!(err, ProviderError::InvalidRequest(_)));
}

#[test]
fn gemini_oversized_prompt_rejected_with_invalid_request() {
    let big = "x".repeat(MAX_PROMPT_BYTES + 1);
    let err = gemini()
        .invocation(
            &ask_model("gemini-2.5-flash", &big),
            "gemini-2.5-flash",
            &CallContext::default(),
        )
        .unwrap_err();
    assert!(matches!(err, ProviderError::InvalidRequest(_)));
}

#[test]
fn invocation_strips_api_key_env_and_embeds_system() {
    let req = ask_model("gemini-2.5-flash", "x").with_system("be precise");
    let inv = invoke(&gemini(), &req, "gemini-2.5-flash");
    assert!(has(&inv.stripped_env, "GEMINI_API_KEY"));
    assert!(has(&inv.stripped_env, "GOOGLE_API_KEY"));
    assert!(has(&inv.stripped_env, "GOOGLE_APPLICATION_CREDENTIALS"));
    assert!(inv.prompt.starts_with("[system]\nbe precise"));
    assert!(inv.prompt.contains("[user]\nx"));
}

#[test]
fn parse_line_maps_response_and_usage() {
    let payload = json(
        r#"{
            "session_id": "abc",
            "response": "Hello there!",
            "stats": {
                "models": {
                    "gemini-2.5-flash": {
                        "tokens": { "prompt": 50, "candidates": 4, "cached": 10, "thoughts": 7 }
                    }
                }
            }
        }"#,
    );
    let events = gemini().parse_line(&payload).unwrap();
    assert!(matches!(&events[0], ChatEvent::Delta { text } if text == "Hello there!"));
    let (stop_reason, usage) = finished(&events[1]);
    assert_eq!(stop_reason, StopReason::EndTurn);
    assert_eq!(usage.input_tokens, 50);
    assert_eq!(usage.output_tokens, 4);
    assert_eq!(usage.cached_input_tokens, 10);
    assert_eq!(usage.thinking_tokens, 7);
}

#[test]
fn parse_line_missing_response_is_empty_delta() {
    let events = gemini().parse_line(&json(r#"{"session_id": "x", "stats": {}}"#)).unwrap();
    assert!(matches!(&events[0], ChatEvent::Delta { text } if text.is_empty()));
}

#[test]
fn parse_line_missing_usage_is_default() {
    let events = gemini().parse_line(&json(r#"{"response": "ok"}"#)).unwrap();
    let usage = finished(&events[1]).1;
    assert_eq!(usage.input_tokens, 0);
    assert_eq!(usage.output_tokens, 0);
}

#[test]
fn env_strip_list_uppercase_and_includes_api_key_triggers() {
    let all = gemini_stripped_env();
    for k in &all {
        assert_eq!(*k, k.to_uppercase());
    }
    assert!(has(&all, "GEMINI_API_KEY"));
    assert!(has(&all, "GOOGLE_API_KEY"));
}

#[test]
fn argv_is_opencode_shape_with_prompt_as_positional() {
    let d = opencode();
    let inv = invoke(&d, &ask("say hi"), "anthropic/sonnet-4-5");
    let argv = d.argv(&inv);
    assert_eq!(argv[0], "run");
    assert_eq!(argv[1], "--format");
    assert_eq!(argv[2], "json");
    assert_eq!(argv[3], "--model");
    assert_eq!(argv[4], "anthropic/sonnet-4-5");
    assert!(argv[5].contains("say hi"));
}

#[test]
fn opencode_channel_is_arg_and_mode_is_json_events() {
    let d = opencode();
    assert_eq!(d.prompt_channel(), PromptChannel::Arg);
    assert_eq!(d.output_mode(), OutputMode::JsonEvents);
}

fn opencode_parse(all: &[&str]) -> Result<Vec<ChatEvent>, ProviderError> {
    let payload = lines(all);
    assert!(opencode().has_fitting_counts(&payload));
    opencode().parse_line(&payload)
}

#[test]
fn counts_that_cannot_be_held_give_no_answer() {
    let step = |n: u64| {
        format!(r#"{{"type":"step_finish","part":{{"tokens":{{"input":{n},"output":1}}}}}}"#)
    };
    let too_many = lines(&[&step(u64::MAX), &step(1)]);
    assert!(opencode().try_parse_line(&too_many).is_none());
    let fits = lines(&[&step(u64::MAX - 1), &step(1)]);
    let events = opencode().try_parse_line(&fits).unwrap().unwrap();
    assert_eq!(finished(&events[0]).1.input_tokens, u64::MAX);
    assert_eq!(finished(&events[0]).1.output_tokens, 2);
}

#[test]
fn an_error_behind_an_answer_is_reported() {
    let said = r#"{"type":"text","part":{"text":"fine"}}"#;
    let broke = r#"{"type":"error","error":{"name":"X"}}"#;
    assert!(opencode_parse(&[said]).is_ok());
    assert!(opencode_parse(&[said, broke, said]).is_err());
}

#[test]
fn parse_line_maps_text_and_step_finish_usage() {
    let events = opencode_parse(&[
        r#"{"type":"step_start","timestamp":1,"sessionID":"s","part":{"type":"step-start"}}"#,
        r#"{"type":"text","timestamp":2,"sessionID":"s","part":{"type":"text","text":"Hello there!","time":{"start":1,"end":2}}}"#,
        r#"{"type":"step_finish","timestamp":3,"sessionID":"s","part":{"type":"step-finish","reason":"stop","cost":0.01,"tokens":{"input":50,"output":4,"reasoning":7,"cache":{"read":10,"write":2}}}}"#,
    ])
    .unwrap();
    assert!(matches!(&events[0], ChatEvent::Delta { text } if text == "Hello there!"));
    let (stop_reason, usage) = finished(&events[1]);
    assert_eq!(stop_reason, StopReason::EndTurn);
    assert_eq!(usage.input_tokens, 50);
    assert_eq!(usage.output_tokens, 4);
    assert_eq!(usage.thinking_tokens, 7);
    assert_eq!(usage.cached_input_tokens, 10);
    assert_eq!(usage.cache_creation_tokens, 2);
}

#[test]
fn parse_line_maps_reasoning_to_thinking_delta() {
    let events = opencode_parse(&[
        r#"{"type":"reasoning","sessionID":"s","part":{"type":"reasoning","text":"thinking…","time":{"start":1,"end":2}}}"#,
        r#"{"type":"text","sessionID":"s","part":{"type":"text","text":"answer","time":{"start":2,"end":3}}}"#,
    ])
    .unwrap();
    assert!(matches!(&events[0], ChatEvent::ThinkingDelta { text } if text == "thinking…"));
    assert!(matches!(&events[1], ChatEvent::Delta { text } if text == "answer"));
    let usage = finished(&events[2]).1;
    assert_eq!(usage.input_tokens, 0);
    assert_eq!(usage.output_tokens, 0);
}

#[test]
fn parse_line_sums_usage_across_multiple_step_finishes() {
    let events = opencode_parse(&[
        r#"{"type":"step_finish","part":{"tokens":{"input":10,"output":2,"reasoning":0,"cache":{"read":0,"write":0}}}}"#,
        r#"{"type":"text","part":{"type":"text","text":"done","time":{"end":9}}}"#,
        r#"{"type":"step_finish","part":{"tokens":{"input":20,"output":5,"reasoning":1,"cache":{"read":3,"write":0}}}}"#,
    ])
    .unwrap();
    let usage = finished(events.last().unwrap()).1;
    assert_eq!(usage.input_tokens, 30);
    assert_eq!(usage.output_tokens, 7);
    assert_eq!(usage.thinking_tokens, 1);
    assert_eq!(usage.cached_input_tokens, 3);
}

#[test]
fn parse_line_skips_tool_use_step_start_and_blank_lines() {
    let events = opencode_parse(&[
        "",
        "   ",
        r#"{"type":"tool_use","part":{"type":"tool","tool":"read","state":{"status":"completed"}}}"#,
        r#"{"type":"step_start","part":{"type":"step-start"}}"#,
        r#"{"type":"text","part":{"type":"text","text":"only text","time":{"end":1}}}"#,
    ])
    .unwrap();
    assert_eq!(events.len(), 2);
    assert!(matches!(&events[0], ChatEvent::Delta { text } if text == "only text"));
}

#[test]
fn parse_line_error_event_surfaces_raw_carrying_error() {
    let err = opencode_parse(&[
        r#"{"type":"error","sessionID":"s","error":{"name":"ProviderAuthError","data":{"message":"missing api key"}}}"#,
    ])
    .unwrap_err();
    match err {
        ProviderError::CliSubprocessDied { stderr, .. } => {
            assert!(stderr.contains("opencode error"));
            assert!(stderr.contains("missing api key"));
        }
        other => panic!("expected CliSubprocessDied, got {other:?}"),
    }
}

#[test]
fn parse_line_non_array_payload_is_typed_error() {
    let err = opencode().parse_line(&Json::text("not an array")).unwrap_err();
    assert!(matches!(err, ProviderError::Parse(_)));
}

#[test]
fn opencode_invocation_embeds_system_as_prefix_block() {
    let inv = invoke(
        &opencode(),
        &ask("x").with_system("be precise"),
        "anthropic/sonnet-4-5",
    );
    assert!(inv.prompt.starts_with("[system]\nbe precise"));
    assert!(inv.prompt.contains("[user]\nx"));
}

#[test]
fn members_may_stand_in_a_list() {
    let out = map_thread_event(thread_event(r#"{"type":"turn.completed","usage":[1,2,3,4]}"#));
    match out.into_iter().next().unwrap().unwrap() {
        ChatEvent::Finished { usage, .. } => {
            assert_eq!(usage.input_tokens, 1);
            assert_eq!(usage.cached_input_tokens, 2);
            assert_eq!(usage.output_tokens, 3);
            assert_eq!(usage.thinking_tokens, 4);
        }
        other => panic!("expected Finished, got {other:?}"),
    }
    let events = codex_parse(&[r#"["turn.completed",[7]]"#]).unwrap();
    assert_eq!(finished(&events[0]).1.input_tokens, 7);
    assert_eq!(finished(&events[0]).1.output_tokens, 0);
}

#[test]
fn a_failure_in_a_list_is_reported() {
    for line in [
        r#"["error","boom"]"#,
        r#"{"type":"turn.failed","error":["boom"]}"#,
        r#"["turn.failed",{"message":"boom"}]"#,
    ] {
        match codex_parse(&[line]) {
            Err(ProviderError::CliSubprocessDied { stderr, .. }) => {
                assert!(stderr.contains("boom"), "{line}: {stderr}")
            }
            other => panic!("{line}: got {other:?}"),
        }
    }
}

#[test]
fn a_list_of_counts_that_is_too_long_is_an_error() {
    match codex_parse(&[r#"{"type":"turn.completed","usage":[1,2,3,4,5]}"#]) {
        Err(e) => assert!(
            format!("{e:?}").contains("invalid length 5, expected 4 elements in sequence"),
            "{e:?}"
        ),
        Ok(events) => panic!("got {events:?}"),
    }
}

#[test]
fn the_first_failure_decides() {
    let err = codex_parse(&[
        r#"{"type":"item.completed","item":{"id":"i1","type":"agent_message","text":"hi"}}"#,
        r#"{"type":"error","message":"first"}"#,
        r#"{"type":"error","message":"second"}"#,
    ])
    .unwrap_err();
    let said = format!("{err:?}");
    assert!(said.contains("first") && !said.contains("second"), "{said}");
}

fn codex_failure(line: &str) -> String {
    match codex_parse(&[line]) {
        Err(ProviderError::CliSubprocessDied { stderr, .. }) => stderr,
        other => panic!("{line}: got {other:?}"),
    }
}

#[test]
fn a_member_that_occurs_twice_is_refused() {
    for (line, reason) in [
        (
            r#"{"type":"turn.completed","usage":{"input_tokens":1,"input_tokens":2}}"#,
            "codex: failed to parse critical `turn.completed` event: duplicate field `input_tokens`",
        ),
        (
            r#"{"type":"turn.completed","usage":{},"usage":{}}"#,
            "codex: failed to parse critical `turn.completed` event: duplicate field `usage`",
        ),
        (
            r#"{"type":"turn.failed","error":{"message":"a","message":"b"}}"#,
            "codex: failed to parse critical `turn.failed` event: duplicate field `message`",
        ),
        (
            r#"{"type":"error","message":"a","message":"b"}"#,
            "codex: failed to parse critical `error` event: duplicate field `message`",
        ),
    ] {
        assert_eq!(codex_failure(line), reason);
    }
    let twice = r#"{"type":"item.completed","item":{"type":"agent_message","text":"a","text":"b"}}"#;
    assert!(codex_parse(&[twice]).unwrap().is_empty());
    let unknown = r#"{"type":"turn.completed","x":1,"x":2,"usage":{"y":1,"y":2,"input_tokens":3}}"#;
    assert_eq!(finished(&codex_parse(&[unknown]).unwrap()[0]).1.input_tokens, 3);
}

#[test]
fn the_first_bad_count_in_the_line_is_reported() {
    let line = r#"{"type":"turn.completed","usage":{"output_tokens":"x","input_tokens":1.5}}"#;
    assert!(codex_failure(line).ends_with(r#"invalid type: string "x", expected i64"#));
}

#[test]
fn a_line_that_says_twice_what_it_is_is_refused() {
    let head = "codex: failed to parse critical `error` event: ";
    for (line, reason) in [
        (
            r#"{"type":"turn.started","type":"error","message":"m"}"#,
            "duplicate field `type` at line 1 column 29",
        ),
        (
            r#"{"type":"turn.started","type" :"error","message":"m"}"#,
            "duplicate field `type` at line 1 column 30",
        ),
        (
            r#"{"type":"foo","type":"error"}"#,
            "unknown variant `foo`, expected one of `thread.started`, `turn.started`, `turn.completed`, `turn.failed`, `item.started`, `item.updated`, `item.completed`, `error` at line 1 column 13",
        ),
        (
            r#"{"type":5,"type":"error"}"#,
            "invalid type: integer `5`, expected variant identifier at line 1 column 9",
        ),
        (
            r#"{"type":[1],"type":"error"}"#,
            "invalid type: sequence, expected variant identifier at line 1 column 8",
        ),
    ] {
        assert_eq!(codex_failure(line), format!("{head}{reason}"));
    }
    let passed_over = r#"{"type":"error","type":"turn.started","message":"m"}"#;
    assert!(codex_parse(&[passed_over]).unwrap().is_empty());
}

#[test]
fn keys_and_blanks_are_read_as_json_has_them() {
    let line = " { \"t\\u0079pe\" : \"error\" , \"message\" : \"a \\\" } , b\" } ";
    assert_eq!(codex_failure(line), "codex stream error: a \" } , b");
    let list = r#" [ "turn.completed" , { "input_tokens" : 4 , "x" : [ "]" , { } ] } ] "#;
    assert_eq!(finished(&codex_parse(&[list]).unwrap()[0]).1.input_tokens, 4);
}
