//! What the command-line providers share: arguments, prompts, confinement, the end of
//! a run, and the reply.

use tars_provider::backends::claude_cli::{claude_cli, ClaudeCliProviderBuilder};
use tars_provider::backends::cli::argv::{
    build_argv, build_argv_with, claude_stripped_env, streaming_enabled, CallContext,
    ClaudeCliEffort, ClaudeCliTools, SubprocessInvocation,
};
use tars_provider::backends::cli::backend::{clamp_to_output_budget, AgentCliBackend};
use tars_provider::backends::cli::dialect::CliDialect;
use tars_provider::backends::cli::dialects::antigravity::AntigravityDialect;
use tars_provider::backends::cli::dialects::claude::ClaudeCliDialect;
use tars_provider::backends::cli::dialects::gemini::GeminiCliDialect;
use tars_provider::backends::cli::dialects::opencode::OpenCodeDialect;
use tars_provider::backends::cli::paths::{cli_label, file_name_of, join_path, same_path};
use tars_provider::backends::cli::prompt::{serialize_messages_for_cli, MAX_PROMPT_BYTES};
use tars_provider::backends::cli::sandbox::{
    resolve_effective_policy, widen_policy, PolicyMode, SandboxPolicy,
};
use tars_provider::backends::cli::spawn::{confinement_error, plan_spawn, Host};
use tars_provider::backends::cli::streaming::{missing_output, Output, StreamEnd, StreamReader};
use tars_provider::backends::cli::subprocess::{
    extract_usage, has_fitting_usage, kept_env, spawn_error, Ended, PromptFailure,
    RealSubprocessRunner, SharedCliRunner, SpawnFailure,
};
use tars_provider::backends::codex_cli::{codex_cli, CodexCliProviderBuilder};
use tars_provider::backends::gemini_cli::GeminiCliProviderBuilder;
use tars_provider::capabilities::Capabilities;
use tars_provider::json::{parse_json, print_json, Json};
use tars_provider::types::{
    complete, ChatEvent, ChatRequest, ChatResponse, Message, ModelHint, ProviderError, StopReason,
    ThinkingMode, ToolChoice, Usage,
};

fn json(text: &str) -> Json {
    parse_json(text).unwrap()
}

fn ask(model: &str, text: &str) -> ChatRequest {
    ChatRequest::user(ModelHint::Explicit(model.into()), text)
}

fn has(list: &[String], name: &str) -> bool {
    list.iter().any(|x| x == name)
}

/// What a provider answers when its program has answered this.
fn answered<D: CliDialect>(
    backend: &AgentCliBackend<D>,
    req: &ChatRequest,
    model: &str,
    payload: &Json,
) -> Result<(SubprocessInvocation, Vec<ChatEvent>), ProviderError> {
    let inv = backend.prepare(req, model, &CallContext::default())?;
    let events = backend
        .try_respond(&inv.model, payload, req.max_output_tokens)
        .expect("the counts can be held")?;
    Ok((inv, events))
}

fn completed<D: CliDialect>(
    backend: &AgentCliBackend<D>,
    req: &ChatRequest,
    model: &str,
    payload: &Json,
) -> (SubprocessInvocation, ChatResponse) {
    let (inv, events) = answered(backend, req, model, payload).unwrap();
    (inv, complete(events))
}

fn make_invocation(
    configure: impl FnOnce(ClaudeCliProviderBuilder) -> ClaudeCliProviderBuilder,
) -> SubprocessInvocation {
    configure(ClaudeCliProviderBuilder::new("test", "agent"))
        .build()
        .prepare(&ask("opus", "hi"), "opus", &CallContext::default())
        .unwrap()
}

fn idx(argv: &[String], flag: &str) -> usize {
    argv.iter()
        .position(|a| a == flag)
        .unwrap_or_else(|| panic!("flag {flag:?} not in argv: {argv:?}"))
}

fn check_role_tags() {
    let req = ChatRequest {
        model: ModelHint::Explicit("x".into()),
        system: None,
        messages: vec![
            Message::user_text("first user turn"),
            Message::assistant_text("first assistant"),
            Message::user_text("second user turn"),
        ],
        tools: vec![],
        tool_choice: ToolChoice::Auto,
        structured_output: None,
        max_output_tokens: None,
        temperature: None,
        stop_sequences: vec![],
        seed: None,
        cache_directives: vec![],
        thinking: ThinkingMode::Off,
        enable_chat_template_thinking: None,
    };
    let s = serialize_messages_for_cli(&req);
    assert!(s.contains("[user]\nfirst user turn"));
    assert!(s.contains("[assistant]\nfirst assistant"));
    assert!(s.contains("[user]\nsecond user turn"));
}

fn check_strip_list() {
    let all = claude_stripped_env();
    for k in &all {
        assert_eq!(*k, k.to_uppercase());
    }
    assert!(has(&all, "ANTHROPIC_API_KEY"));
}

fn check_default_argv() {
    let inv = make_invocation(|b| b);
    let argv = build_argv(&inv, None);

    assert_eq!(argv[0], "-p");
    assert_eq!(argv[1], "-");
    let m = idx(&argv, "--model");
    assert_eq!(argv[m + 1], "opus");
    let of = idx(&argv, "--output-format");
    assert_eq!(argv[of + 1], "json");
    assert!(argv.iter().any(|a| a == "--disable-slash-commands"));

    let t = idx(&argv, "--tools");
    assert_eq!(
        argv[t + 1],
        "",
        "tools=Disabled must yield literal empty-string value, not omission or sentinel"
    );
    assert!(
        !argv.iter().any(|a| a == "--bare"),
        "bare default must be false to preserve OAuth/keychain auth"
    );
    assert!(!argv.iter().any(|a| a == "--effort"));
    assert!(argv.iter().any(|a| a == "--exclude-dynamic-system-prompt-sections"));
    assert_eq!(
        argv.last().map(|s| s.as_str()),
        Some("--exclude-dynamic-system-prompt-sections")
    );
}

fn check_streaming_argv() {
    let inv = make_invocation(|b| b);
    let argv = build_argv_with(&inv, true);
    let of = idx(&argv, "--output-format");
    assert_eq!(argv[of + 1], "stream-json");
    assert!(argv.iter().any(|a| a == "--include-partial-messages"));
    assert!(argv.iter().any(|a| a == "--verbose"));
}

fn check_buffered_argv() {
    let inv = make_invocation(|b| b);
    let argv = build_argv_with(&inv, false);
    let of = idx(&argv, "--output-format");
    assert_eq!(argv[of + 1], "json");
    assert!(!argv.iter().any(|a| a == "--include-partial-messages"));
    assert!(!argv.iter().any(|a| a == "--verbose"));
}

fn check_default_tools() {
    let inv = make_invocation(|b| b.tools(ClaudeCliTools::Default));
    let argv = build_argv(&inv, None);
    assert!(
        !argv.iter().any(|a| a == "--tools"),
        "tools=Default must omit --tools entirely (lets CLI use its own default)"
    );
}

fn check_allowed_tools() {
    let inv = make_invocation(|b| {
        b.tools(ClaudeCliTools::Allow(vec!["Read".into(), "Bash(git *)".into()]))
    });
    let argv = build_argv(&inv, None);
    let t = idx(&argv, "--tools");
    assert_eq!(argv[t + 1], "Read,Bash(git *)");
}

fn check_bare() {
    let inv = make_invocation(|b| b.bare(true));
    let argv = build_argv(&inv, None);
    assert!(argv.iter().any(|a| a == "--bare"));
}

fn check_effort() {
    for (variant, expected) in [
        (ClaudeCliEffort::Low, "low"),
        (ClaudeCliEffort::Medium, "medium"),
        (ClaudeCliEffort::High, "high"),
        (ClaudeCliEffort::Xhigh, "xhigh"),
        (ClaudeCliEffort::Max, "max"),
    ] {
        let inv = make_invocation(|b| b.effort(Some(variant)));
        let argv = build_argv(&inv, None);
        let e = idx(&argv, "--effort");
        assert_eq!(argv[e + 1], expected, "wrong arg for {variant:?}");
    }
}

fn check_dynamic_sections() {
    let inv = make_invocation(|b| b.exclude_dynamic_sections(false));
    let argv = build_argv(&inv, None);
    assert!(
        !argv.iter().any(|a| a == "--exclude-dynamic-system-prompt-sections"),
        "exclude_dynamic_sections=false must drop the flag"
    );
}

fn check_extra_args() {
    let inv = make_invocation(|b| {
        b.extra_args(vec!["--betas".into(), "experimental-x".into(), "--debug".into()])
    });
    let argv = build_argv(&inv, None);
    let last_three = &argv[argv.len() - 3..];
    assert_eq!(last_three, &["--betas", "experimental-x", "--debug"]);
}

fn check_system_prompt() {
    let inv = SubprocessInvocation {
        executable: "agent".into(),
        model: "opus".into(),
        system: Some("be brief".into()),
        prompt: String::new(),
        timeout_ms: 1_000,
        stripped_env: vec![],
        cwd: None,
        sandbox: SandboxPolicy::default(),
        tools: ClaudeCliTools::Disabled,
        bare: false,
        effort: None,
        exclude_dynamic_sections: true,
        extra_args: vec![],
    };
    let argv = build_argv(&inv, None);
    let sp = idx(&argv, "--system-prompt");
    assert_eq!(argv[sp + 1], "be brief");
}

fn check_null_result() {
    let payload = json(r#"{"result": null, "is_error": false}"#);
    let (_, resp) = completed(&claude_cli("c", "agent"), &ask("opus", "hi"), "opus", &payload);
    assert_eq!(resp.text, "");
}

fn check_truncation() {
    let payload = Json::object().with("result", Json::text(&"x".repeat(1000)));
    let mut req = ask("opus", "hi");
    req.max_output_tokens = Some(10);
    let (_, resp) = completed(&claude_cli("c", "agent"), &req, "opus", &payload);
    assert_eq!(resp.text.len(), 40);
}

fn check_system_propagates() {
    let payload = json(r#"{"result": "ok", "is_error": false}"#);
    let req = ask("opus", "x").with_system("be brief");
    let (inv, _) = completed(&claude_cli("c", "agent"), &req, "opus", &payload);
    assert_eq!(inv.system.as_deref(), Some("be brief"));
}

fn check_upstream_error() {
    let inv = make_invocation(|b| b);
    let end = exited(r#"{"is_error":true,"result":"rate limited"}"#);
    let err = runner().conclude(&inv, &end).unwrap_err();
    assert_eq!(
        err,
        ProviderError::CliSubprocessDied {
            exit_code: Some(0),
            stderr: "agent CLI returned error: rate limited".into(),
        }
    );
}

#[test]
fn claude_cli_upstream_error_propagates() {
    check_upstream_error();
}

#[test]
fn claude_cli_null_result_becomes_empty_text() {
    check_null_result();
}

#[test]
fn claude_cli_truncates_when_max_output_tokens_exceeded() {
    check_truncation();
}

#[test]
fn claude_cli_system_prompt_propagates_into_invocation() {
    check_system_propagates();
}

#[test]
fn claude_cli_message_serializer_preserves_role_tags() {
    check_role_tags();
}

#[test]
fn claude_cli_env_strip_list_is_uppercase_for_case_insensitive_match() {
    check_strip_list();
}

#[test]
fn claude_cli_argv_default_is_pure_inference_subscription_friendly() {
    check_default_argv();
}

#[test]
fn claude_cli_argv_streaming_true_switches_format_and_adds_partial_msg_verbose() {
    check_streaming_argv();
}

#[test]
fn claude_cli_argv_streaming_false_keeps_buffered_json_format() {
    check_buffered_argv();
}

#[test]
fn claude_cli_argv_tools_default_omits_flag() {
    check_default_tools();
}

#[test]
fn claude_cli_argv_tools_allow_serializes_as_csv() {
    check_allowed_tools();
}

#[test]
fn claude_cli_argv_bare_opt_in_adds_flag() {
    check_bare();
}

#[test]
fn claude_cli_argv_effort_renders_each_variant() {
    check_effort();
}

#[test]
fn claude_cli_argv_exclude_dynamic_sections_opt_out_drops_flag() {
    check_dynamic_sections();
}

#[test]
fn claude_cli_argv_extra_args_appended_verbatim_at_end() {
    check_extra_args();
}

#[test]
fn claude_cli_argv_system_prompt_appears_when_set() {
    check_system_prompt();
}

#[test]
fn provider_upstream_error_propagates() {
    check_upstream_error();
}

#[test]
fn provider_null_result_becomes_empty_text() {
    check_null_result();
}

#[test]
fn provider_truncates_when_max_output_tokens_exceeded() {
    check_truncation();
}

#[test]
fn provider_system_prompt_propagates_into_invocation() {
    check_system_propagates();
}

#[test]
fn provider_message_serializer_preserves_role_tags() {
    check_role_tags();
}

#[test]
fn provider_env_strip_list_is_uppercase_for_case_insensitive_match() {
    check_strip_list();
}

#[test]
fn provider_argv_default_is_pure_inference_subscription_friendly() {
    check_default_argv();
}

#[test]
fn provider_argv_streaming_true_switches_format_and_adds_partial_msg_verbose() {
    check_streaming_argv();
}

#[test]
fn provider_argv_streaming_false_keeps_buffered_json_format() {
    check_buffered_argv();
}

#[test]
fn provider_argv_tools_default_omits_flag() {
    check_default_tools();
}

#[test]
fn provider_argv_tools_allow_serializes_as_csv() {
    check_allowed_tools();
}

#[test]
fn provider_argv_bare_opt_in_adds_flag() {
    check_bare();
}

#[test]
fn provider_argv_effort_renders_each_variant() {
    check_effort();
}

#[test]
fn provider_argv_exclude_dynamic_sections_opt_out_drops_flag() {
    check_dynamic_sections();
}

#[test]
fn provider_argv_extra_args_appended_verbatim_at_end() {
    check_extra_args();
}

#[test]
fn provider_argv_system_prompt_appears_when_set() {
    check_system_prompt();
}

#[test]
fn streaming_is_a_setting() {
    assert!(!streaming_enabled(None));
    assert!(streaming_enabled(Some("1")));
    assert!(!streaming_enabled(Some("0")));
    let inv = make_invocation(|b| b);
    assert_eq!(build_argv(&inv, Some("1")), build_argv_with(&inv, true));
}

#[test]
fn claude_dialect_through_backend_emits_started_delta_finished() {
    let payload = json(
        r#"{
            "result": "hello from the program",
            "is_error": false,
            "usage": { "input_tokens": 12, "output_tokens": 5, "cache_read_input_tokens": 3 }
        }"#,
    );
    let backend = AgentCliBackend::new(
        "claude_cli_test".into(),
        Capabilities::delegated(200_000, 8_192, true),
        ClaudeCliDialect::new(
            "agent".into(),
            300_000,
            ClaudeCliTools::Disabled,
            false,
            None,
            true,
            vec![],
        ),
    );
    let (inv, events) = answered(&backend, &ask("opus", "hi"), "opus", &payload).unwrap();
    assert!(matches!(&events[0], ChatEvent::Started { actual_model, .. } if actual_model == "opus"));
    assert!(matches!(&events[1], ChatEvent::Delta { text } if text == "hello from the program"));
    match &events[2] {
        ChatEvent::Finished { stop_reason, usage } => {
            assert_eq!(*stop_reason, StopReason::EndTurn);
            assert_eq!(usage.input_tokens, 15);
            assert_eq!(usage.output_tokens, 5);
            assert_eq!(usage.cached_input_tokens, 3);
        }
        other => panic!("expected Finished, got {other:?}"),
    }
    assert_eq!(inv.model, "opus");
    let argv = backend.dialect.argv(&inv);
    assert_eq!(argv[0], "-p");
    assert!(argv.iter().any(|a| a == "--disable-slash-commands"));
}

#[test]
fn budget_clamp_truncates_delta_and_flips_stop_reason() {
    let payload = Json::object().with("result", Json::text(&"x".repeat(1000)));
    let mut req = ask("opus", "hi");
    req.max_output_tokens = Some(10);
    let (_, resp) = completed(&claude_cli("c", "agent"), &req, "opus", &payload);
    assert_eq!(resp.text.len(), 40);
    assert_eq!(resp.stop_reason, Some(StopReason::MaxTokens));
}

#[test]
fn text_mode_dialect_through_backend_emits_started_delta_finished() {
    let backend = AgentCliBackend::new(
        "agy_test".into(),
        Capabilities::delegated(200_000, 8_192, true),
        AntigravityDialect::new("agy".into(), 300_000),
    );
    let payload = Json::text("plain text answer\n");
    let (_, events) =
        answered(&backend, &ask("gemini-2.5-pro", "hi"), "gemini-2.5-pro", &payload).unwrap();
    assert!(
        matches!(&events[0], ChatEvent::Started { actual_model, .. } if actual_model == "gemini-2.5-pro")
    );
    assert!(matches!(&events[1], ChatEvent::Delta { text } if text == "plain text answer"));
    assert!(
        matches!(&events[2], ChatEvent::Finished { stop_reason, .. } if *stop_reason == StopReason::EndTurn)
    );
}

#[test]
fn clamp_is_noop_without_budget() {
    let content = vec![
        ChatEvent::Delta { text: "x".repeat(100) },
        ChatEvent::Finished { stop_reason: StopReason::EndTurn, usage: Usage::default() },
    ];
    let out = clamp_to_output_budget(content, None);
    assert!(matches!(&out[0], ChatEvent::Delta { text } if text.len() == 100));
    assert!(
        matches!(&out[1], ChatEvent::Finished { stop_reason, .. } if *stop_reason == StopReason::EndTurn)
    );
}

#[test]
fn clamp_keeps_characters_whole() {
    let content = vec![ChatEvent::Delta { text: format!("x{}", "é".repeat(9)) }];
    let out = clamp_to_output_budget(content, Some(2));
    assert!(matches!(&out[0], ChatEvent::Delta { text } if text == "xééé"));
}

#[test]
fn extract_usage_folds_cache_into_total_input_no_invariant_violation() {
    let payload = json(
        r#"{
            "usage": {
                "input_tokens": 10,
                "output_tokens": 42,
                "cache_read_input_tokens": 23808,
                "cache_creation_input_tokens": 100
            }
        }"#,
    );
    assert!(has_fitting_usage(&payload));
    let usage = extract_usage(&payload);
    assert_eq!(usage.input_tokens, 10 + 23808 + 100);
    assert_eq!(usage.cached_input_tokens, 23808);
    assert_eq!(usage.cache_creation_tokens, 100);
    assert_eq!(usage.output_tokens, 42);
    assert!(usage.cached_input_tokens + usage.cache_creation_tokens <= usage.input_tokens);

    let fresh = usage.input_tokens - usage.cached_input_tokens - usage.cache_creation_tokens;
    let cost = fresh as f64 * 3.0 / 1e6
        + usage.output_tokens as f64 * 15.0 / 1e6
        + usage.cached_input_tokens as f64 * 0.3 / 1e6
        + usage.cache_creation_tokens as f64 * 3.75 / 1e6;
    let expected =
        10.0 * 3.0 / 1e6 + 42.0 * 15.0 / 1e6 + 23808.0 * 0.3 / 1e6 + 100.0 * 3.75 / 1e6;
    assert!((cost - expected).abs() < 1e-12, "cost {cost} != {expected}");
}

#[test]
fn counts_that_cannot_be_held_are_noticed() {
    let payload = json(
        r#"{"usage":{"input_tokens":18446744073709551615,"cache_read_input_tokens":1}}"#,
    );
    assert!(!has_fitting_usage(&payload));
}

fn workspace(roots: &[&str], network: bool) -> SandboxPolicy {
    SandboxPolicy {
        mode: PolicyMode::WorkspaceWrite,
        writable_roots: roots.iter().map(|r| r.to_string()).collect(),
        network,
    }
}

fn nowhere() -> Result<String, String> {
    Err("gone".into())
}

#[test]
fn explicit_workspace_write_fills_cwd_when_roots_empty() {
    let (eff, root) =
        resolve_effective_policy(&workspace(&[], true), Some("/repo/wt"), nowhere()).unwrap();
    assert_eq!(eff.mode, PolicyMode::WorkspaceWrite);
    assert_eq!(eff.writable_roots, vec!["/repo/wt".to_string()]);
    assert_eq!(root, "/repo/wt");
}

#[test]
fn explicit_workspace_write_keeps_configured_roots() {
    let policy = workspace(&["/repo/wt", "/scratch"], false);
    let (eff, _root) = resolve_effective_policy(&policy, Some("/repo/wt"), nowhere()).unwrap();
    assert_eq!(
        eff.writable_roots,
        vec!["/repo/wt".to_string(), "/scratch".to_string()],
        "configured roots are not overwritten"
    );
    assert!(!eff.network, "network toggle carried through");
}

#[test]
fn explicit_read_only_is_honored() {
    let policy = SandboxPolicy {
        mode: PolicyMode::ReadOnly,
        writable_roots: vec![],
        network: true,
    };
    let (eff, root) = resolve_effective_policy(&policy, Some("/repo/wt"), nowhere()).unwrap();
    assert_eq!(eff.mode, PolicyMode::ReadOnly);
    assert!(eff.writable_roots.is_empty());
    assert_eq!(root, "/repo/wt");
}

#[test]
fn confining_policy_without_cwd_falls_back_to_process_cwd() {
    let policy = workspace(&["/x"], false);
    let (eff, root) = resolve_effective_policy(&policy, None, Ok("/here".into())).unwrap();
    assert_eq!(eff.mode, PolicyMode::WorkspaceWrite);
    assert_eq!(eff.writable_roots, vec!["/x".to_string()]);
    assert_eq!(root, "/here");
}

#[test]
fn danger_full_access_downgrades_to_workspace_write_on_worktree() {
    let (eff, root) =
        resolve_effective_policy(&SandboxPolicy::default(), Some("/repo/wt"), nowhere()).unwrap();
    assert_eq!(eff.mode, PolicyMode::WorkspaceWrite);
    assert_eq!(eff.writable_roots, vec!["/repo/wt".to_string()]);
    assert_eq!(root, "/repo/wt");
}

#[test]
fn danger_full_access_without_cwd_confines_to_process_cwd() {
    let (eff, root) =
        resolve_effective_policy(&SandboxPolicy::default(), None, Ok("/here".into())).unwrap();
    assert_eq!(eff.mode, PolicyMode::WorkspaceWrite);
    assert_eq!(eff.writable_roots, vec!["/here".to_string()]);
    assert_eq!(root, "/here");
}

#[test]
fn danger_full_access_carries_network_toggle() {
    let no_net = SandboxPolicy { network: false, ..SandboxPolicy::default() };
    let (eff, _) = resolve_effective_policy(&no_net, Some("/repo/wt"), nowhere()).unwrap();
    assert!(!eff.network, "network=false carried through the downgrade");
}

#[test]
fn without_any_directory_no_program_is_started() {
    let err = resolve_effective_policy(&SandboxPolicy::default(), None, nowhere()).unwrap_err();
    assert!(matches!(&err, ProviderError::Internal(m) if m.contains("(gone)")), "got {err:?}");
}

#[test]
fn widening_adds_each_directory_once() {
    let tmp = vec!["/tmp".to_string(), "/wt".to_string()];
    let state = vec!["/h/.agent".to_string(), "/tmp".to_string()];
    let wide = widen_policy(workspace(&["/wt"], true), &tmp, &state);
    assert_eq!(wide.writable_roots, vec!["/wt", "/tmp", "/h/.agent"]);
    let closed = SandboxPolicy {
        mode: PolicyMode::ReadOnly,
        writable_roots: vec![],
        network: true,
    };
    assert!(widen_policy(closed, &tmp, &state).writable_roots.is_empty());
}

fn var(k: &str, v: &str) -> (String, String) {
    (k.to_string(), v.to_string())
}

#[test]
fn stripped_variables_stay_out_however_they_are_written() {
    let vars = vec![
        var("PATH", "/bin"),
        var("Anthropic_Api_Key", "x"),
        var("ANTHROPIC_API_KEY", "y"),
        var("straße", "z"),
    ];
    assert_eq!(
        kept_env(&vars, &claude_stripped_env()),
        vec![var("PATH", "/bin"), var("straße", "z")]
    );
    assert_eq!(kept_env(&vars, &vec!["STRASSE".to_string()]).len(), 3);
}

#[test]
fn a_program_is_started_confined() {
    let host = Host {
        vars: vec![var("HOME", "/h"), var("anthropic_api_key", "x")],
        process_cwd: Ok("/here".into()),
        tmp_roots: vec!["/tmp".into()],
    };
    let plan = plan_spawn(
        &SandboxPolicy::default(),
        Some("/wt"),
        &claude_stripped_env(),
        &vec!["/h/.agent".to_string()],
        host,
    )
    .unwrap();
    assert_eq!(plan.root, "/wt");
    assert_eq!(plan.policy.mode, PolicyMode::WorkspaceWrite);
    assert_eq!(plan.policy.writable_roots, vec!["/wt", "/tmp", "/h/.agent"]);
    assert_eq!(plan.vars, vec![var("HOME", "/h")]);
    assert_eq!(
        confinement_error("no kernel support"),
        ProviderError::Internal("exec sandbox: no kernel support".into())
    );
}

#[test]
fn a_program_that_cannot_be_started_is_named() {
    let said = |e: ProviderError| match e {
        ProviderError::CliSubprocessDied { exit_code: None, stderr } => stderr,
        other => panic!("got {other:?}"),
    };
    assert_eq!(
        said(spawn_error("agent", SpawnFailure::NotFound, "x")),
        "`agent` not found in PATH"
    );
    assert_eq!(
        said(spawn_error("agent", SpawnFailure::PermissionDenied, "x")),
        "`agent` not executable: x"
    );
    assert_eq!(said(spawn_error("agent", SpawnFailure::Other, "x")), "spawn failed: x");
}

fn runner() -> RealSubprocessRunner {
    RealSubprocessRunner { program: "agent".into() }
}

fn exited(stdout: &str) -> Ended {
    Ended::Exited {
        success: true,
        code: Some(0),
        stdout: stdout.as_bytes().to_vec(),
        stderr: vec![],
    }
}

#[test]
fn the_end_of_a_run_is_read() {
    let inv = make_invocation(|b| b);
    let run = |end: &Ended| runner().conclude(&inv, end);
    let ok = run(&exited(r#"{"result":"yes"}"#)).unwrap();
    assert_eq!(ok.str_at("result"), Some("yes"));
    assert!(matches!(run(&exited("nonsense")), Err(ProviderError::Parse(_))));
    match run(&exited("[1]")) {
        Err(ProviderError::Parse(m)) => {
            assert_eq!(m, "agent CLI returned non-object JSON (Array [Number(1)])")
        }
        other => panic!("got {other:?}"),
    }
    assert_eq!(
        run(&Ended::OutOfTime),
        Err(ProviderError::CliSubprocessDied {
            exit_code: None,
            stderr: "timed out after 300s (model=opus, prompt_chars=9)".into(),
        })
    );
    assert_eq!(
        run(&Ended::WaitFailed { error: "x".into() }),
        Err(ProviderError::CliSubprocessDied {
            exit_code: None,
            stderr: "wait failed: x".into(),
        })
    );
    let failed = Ended::Exited {
        success: false,
        code: Some(2),
        stdout: vec![],
        stderr: vec![b'a', 0xff],
    };
    assert_eq!(
        run(&failed),
        Err(ProviderError::CliSubprocessDied {
            exit_code: Some(2),
            stderr: "a\u{fffd}".into(),
        })
    );
}

#[test]
fn the_output_of_each_program_is_put_together() {
    let inv = make_invocation(|b| b);
    let gemini = SharedCliRunner::new(GeminiCliDialect::new("gemini".into(), 1_000));
    let v = gemini.conclude(&inv, &exited("warning!\n{\"response\":\"r\"}")).unwrap();
    assert_eq!(v.str_at("response"), Some("r"));
    let open = SharedCliRunner::new(OpenCodeDialect::new("opencode".into(), 1_000));
    let v = open.conclude(&inv, &exited("a\nb\n")).unwrap();
    assert_eq!(v.as_arr().unwrap().len(), 2);
    let agy = SharedCliRunner::new(AntigravityDialect::new("agy".into(), 1_000));
    let v = agy.conclude(&inv, &exited("plain")).unwrap();
    assert_eq!(v.as_str(), Some("plain"));
    assert!(gemini.conclude(&inv, &exited("nonsense")).is_err());
}

#[test]
fn a_session_is_followed() {
    let inv = make_invocation(|b| b);
    let mut reader = StreamReader::new();
    let said = reader
        .on_line(r#"{"type":"system","subtype":"init","session_id":"abcdef0123456789","model":"m"}"#)
        .unwrap();
    assert!(said.contains("init model=m"), "{said}");
    assert!(reader.on_line("nonsense").unwrap().contains("non-json"));
    assert_eq!(reader.on_line(r#"{"type":"assistant"}"#), None);
    let said = reader
        .on_line(
            r#"{"type":"result","subtype":"success","duration_ms":5,"total_cost_usd":0.25,"result":"done","usage":{"input_tokens":1}}"#,
        )
        .unwrap();
    assert!(said.contains("cost=$0.2500"), "{said}");
    assert!(said.contains("dur=5ms in=1 out=0"), "{said}");
    let end = StreamEnd::Exited { success: true, code: Some(0), stderr: vec![] };
    let v = reader.conclude("agent", &inv, &end).unwrap();
    assert_eq!(v.str_at("result"), Some("done"));
    assert!(v.get("type").is_none());

    let empty = StreamReader::new();
    assert!(matches!(empty.conclude("agent", &inv, &end), Err(ProviderError::Parse(_))));
    let late = StreamEnd::OutOfTime { stderr: vec![] };
    assert!(matches!(
        empty.conclude("agent", &inv, &late),
        Err(ProviderError::TimedOut { budget_ms: 300_000, .. })
    ));
    let broken = StreamEnd::ReadFailed { error: "x".into() };
    assert!(matches!(
        empty.conclude("agent", &inv, &broken),
        Err(ProviderError::CliSubprocessDied { exit_code: None, .. })
    ));
}

#[test]
fn paths_are_put_together() {
    assert_eq!(join_path("/a", "b"), "/a/b");
    assert_eq!(join_path("/a/", "b"), "/a/b");
    assert_eq!(file_name_of("/usr/bin/agent"), Some("agent".to_string()));
    assert_eq!(file_name_of("/"), None);
    assert_eq!(cli_label("/usr/bin/agent"), "agent");
}

fn codex_payload(lines: &[&str]) -> Json {
    Json::Arr(lines.iter().map(|l| Json::text(l)).collect())
}

#[test]
fn end_to_end_stream_yields_started_delta_finished() {
    let payload = codex_payload(&[
        r#"{"type":"thread.started","thread_id":"t1"}"#,
        r#"{"type":"turn.started"}"#,
        r#"{"type":"item.completed","item":{"id":"i1","type":"agent_message","text":"hi"}}"#,
        r#"{"type":"turn.completed","usage":{"input_tokens":10,"cached_input_tokens":0,"output_tokens":2,"reasoning_output_tokens":0}}"#,
    ]);
    let provider = CodexCliProviderBuilder::new("codex_cli_test").build();
    let (inv, response) = completed(&provider, &ask("gpt-5", "say hi"), "gpt-5", &payload);
    assert_eq!(response.text, "hi");
    assert_eq!(response.usage.input_tokens, 10);
    assert_eq!(response.usage.output_tokens, 2);
    assert!(response.is_finished());
    assert_eq!(inv.model, "gpt-5");
    for k in ["OPENAI_API_KEY", "CODEX_API_KEY", "CODEX_AGENT_IDENTITY"] {
        assert!(has(&inv.stripped_env, k), "stripped_env must contain {k}");
    }
}

#[test]
fn end_to_end_separates_thinking_from_text() {
    let payload = codex_payload(&[
        r#"{"type":"item.completed","item":{"id":"i1","type":"reasoning","text":"thinking…"}}"#,
        r#"{"type":"item.completed","item":{"id":"i2","type":"agent_message","text":"answer"}}"#,
        r#"{"type":"turn.completed","usage":{"input_tokens":1,"cached_input_tokens":0,"output_tokens":1,"reasoning_output_tokens":5}}"#,
    ]);
    let (_, response) = completed(&codex_cli("c"), &ask("gpt-5", "x"), "gpt-5", &payload);
    assert_eq!(response.text, "answer");
    assert_eq!(response.usage.thinking_tokens, 5);
}

#[test]
fn end_to_end_drops_internal_tool_events_and_garbage() {
    let payload = codex_payload(&[
        "",
        "this is not json",
        r#"{"type":"item.completed","item":{"id":"c1","type":"command_execution","command":"ls","aggregated_output":"foo","exit_code":0,"status":"completed"}}"#,
        r#"{"type":"item.completed","item":{"id":"a1","type":"agent_message","text":"done"}}"#,
        r#"{"type":"turn.completed","usage":{"input_tokens":1,"cached_input_tokens":0,"output_tokens":1,"reasoning_output_tokens":0}}"#,
    ]);
    let (_, response) = completed(&codex_cli("c"), &ask("gpt-5", "x"), "gpt-5", &payload);
    assert_eq!(response.text, "done");
}

#[test]
fn end_to_end_turn_failed_surfaces_provider_error() {
    let payload =
        codex_payload(&[r#"{"type":"turn.failed","error":{"message":"context too long"}}"#]);
    match answered(&codex_cli("c"), &ask("gpt-5", "x"), "gpt-5", &payload) {
        Err(ProviderError::CliSubprocessDied { stderr, .. }) => {
            assert!(stderr.contains("context too long"));
        }
        other => panic!("expected CliSubprocessDied, got {other:?}"),
    }
}

fn gemini_provider() -> AgentCliBackend<GeminiCliDialect> {
    GeminiCliProviderBuilder::new("gemini_cli_test").build()
}

fn flash(text: &str) -> ChatRequest {
    ask("gemini-2.5-flash", text)
}

#[test]
fn gemini_cli_happy_path_returns_text_and_usage() {
    let payload = json(
        r#"{
            "session_id": "abc",
            "response": "Hello there!",
            "stats": { "models": { "gemini-2.5-flash": {
                "tokens": { "prompt": 50, "candidates": 4, "cached": 10, "thoughts": 7 }
            } } }
        }"#,
    );
    let (inv, resp) =
        completed(&gemini_provider(), &flash("say hi"), "gemini-2.5-flash", &payload);
    assert_eq!(resp.text, "Hello there!");
    assert_eq!(resp.usage.input_tokens, 50);
    assert_eq!(resp.usage.output_tokens, 4);
    assert_eq!(resp.usage.cached_input_tokens, 10);
    assert_eq!(resp.usage.thinking_tokens, 7);
    assert_eq!(inv.model, "gemini-2.5-flash");
    assert!(has(&inv.stripped_env, "GEMINI_API_KEY"));
    assert!(has(&inv.stripped_env, "GOOGLE_API_KEY"));
    assert!(has(&inv.stripped_env, "GOOGLE_APPLICATION_CREDENTIALS"));
}

#[test]
fn missing_response_field_yields_empty_text() {
    let payload = json(r#"{"session_id": "x", "stats": {}}"#);
    let (_, resp) = completed(&gemini_provider(), &flash("hi"), "gemini-2.5-flash", &payload);
    assert_eq!(resp.text, "");
}

#[test]
fn gemini_cli_oversized_prompt_rejected_with_invalid_request() {
    let big = "x".repeat(MAX_PROMPT_BYTES + 1);
    let err = gemini_provider()
        .prepare(&flash(&big), "gemini-2.5-flash", &CallContext::default())
        .unwrap_err();
    assert!(matches!(err, ProviderError::InvalidRequest(_)));
}

#[test]
fn gemini_cli_truncates_when_max_output_tokens_exceeded() {
    let payload = Json::object().with("response", Json::text(&"x".repeat(1000)));
    let mut req = flash("hi");
    req.max_output_tokens = Some(10);
    let (_, resp) = completed(&gemini_provider(), &req, "gemini-2.5-flash", &payload);
    assert_eq!(resp.text.len(), 40);
    assert_eq!(resp.stop_reason, Some(StopReason::MaxTokens));
}

#[test]
fn system_message_is_embedded_as_prefix_block() {
    let payload = json(r#"{"response": "ok"}"#);
    let req = flash("x").with_system("be precise");
    let (inv, _) = completed(&gemini_provider(), &req, "gemini-2.5-flash", &payload);
    assert!(inv.prompt.starts_with("[system]\nbe precise"));
    assert!(inv.prompt.contains("[user]\nx"));
}

#[test]
fn emits_started_delta_finished_in_order() {
    let payload = json(r#"{"response": "hi"}"#);
    let (_, events) =
        answered(&gemini_provider(), &flash("hi"), "gemini-2.5-flash", &payload).unwrap();
    assert!(
        matches!(&events[0], ChatEvent::Started { actual_model, .. } if actual_model == "gemini-2.5-flash")
    );
    assert!(matches!(&events[1], ChatEvent::Delta { text } if text == "hi"));
    assert!(matches!(&events[2], ChatEvent::Finished { .. }));
}

#[test]
fn values_are_written_compactly() {
    assert_eq!(print_json(&json(r#"{ "b" : [1, 2.5, null], "a": "x" }"#)), r#"{"a":"x","b":[1,2.5,null]}"#);
}

#[test]
fn counts_that_overflow_give_no_stream() {
    let backend = claude_cli("t", "agent");
    let payload = json(
        r#"{"result":"x","usage":{"input_tokens":18446744073709551615,"cache_read_input_tokens":1}}"#,
    );
    assert!(backend.try_respond("m", &payload, None).is_none());
    let fits = json(r#"{"result":"x","usage":{"input_tokens":1,"cache_read_input_tokens":1}}"#);
    assert_eq!(backend.try_respond("m", &fits, None).unwrap().unwrap().len(), 3);
}

#[test]
fn a_root_is_named_once_however_it_is_written() {
    let policy = workspace(&["/tmp/", "/a/./b"], true);
    let tmp = vec!["/tmp".to_string(), "/a//b".to_string(), "/tmpx".to_string()];
    let eff = widen_policy(policy, &tmp, &vec!["/a/../b".to_string()]);
    assert_eq!(eff.writable_roots, vec!["/tmp/", "/a/./b", "/tmpx", "/a/../b"]);
    assert!(same_path("/a/b/", "/a/b"));
    assert!(!same_path("a/b", "/a/b"));
    assert!(!same_path("./a", "a"));
}

#[test]
fn a_prompt_that_does_not_arrive_is_an_error() {
    let inv = make_invocation(|b| b);
    let write = || PromptFailure::Write { error: "broken pipe".into() };
    assert_eq!(
        runner().prompt_error(&inv, PromptFailure::NoPipe),
        ProviderError::Internal("agent child has no stdin pipe (Stdio::piped above)".into())
    );
    assert_eq!(
        runner().prompt_error(&inv, write()),
        ProviderError::CliSubprocessDied {
            exit_code: None,
            stderr: "stdin write failed after 9 prompt bytes: broken pipe".into(),
        }
    );
    let mut other = make_invocation(|b| b);
    other.executable = "/usr/bin/gemini".into();
    let gemini = SharedCliRunner::new(GeminiCliDialect::new("gemini".into(), 1_000));
    assert_eq!(
        gemini.prompt_error(&other, PromptFailure::NoPipe),
        ProviderError::Internal("gemini child has no stdin pipe (piped above)".into())
    );
    assert_eq!(
        gemini.prompt_error(&other, write()),
        ProviderError::CliSubprocessDied {
            exit_code: None,
            stderr: "stdin write failed: broken pipe".into(),
        }
    );
    assert_eq!(
        missing_output(Output::Stderr),
        ProviderError::CliSubprocessDied {
            exit_code: None,
            stderr: "stream-json: stderr pipe missing on spawned child".into(),
        }
    );
}

#[test]
fn a_cost_that_is_no_number_is_none() {
    let mut reader = StreamReader::new();
    let said = reader.on_line(r#"{"type":"result","total_cost_usd":"x"}"#).unwrap();
    assert!(said.contains("cost=$0.0000"), "{said}");
    let said = reader.on_line(r#"{"type":"result","total_cost_usd":1.23456}"#).unwrap();
    assert!(said.contains("cost=$1.2346"), "{said}");
}
