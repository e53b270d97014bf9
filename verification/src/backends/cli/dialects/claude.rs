//! Anthropic's command-line program.

use crate::backends::cli::argv::{
    build_argv_with, claude_argv, claude_stripped, claude_stripped_env, CallContext,
    ClaudeCliEffort, ClaudeCliTools, ContextView, InvocationView, SubprocessInvocation,
};
use crate::backends::cli::dialect::{
    names, reply_with, text_reply, CliDialect, OutputFraming, OutputMode, PromptChannel,
};
use crate::backends::cli::paths::{own_dir, resolve_own_dir};
use crate::backends::cli::prompt::{messages_text, serialize_messages_for_cli};
use crate::backends::cli::spawn::{law_started_programs_are_confined, plan_for, HostView};
use crate::backends::cli::subprocess::{
    cli_usage, extract_result_text, extract_usage, has_fitting_usage, result_text, upper,
    usage_fits,
};
use crate::json::{Json, JsonView};
use crate::text::{copy_opt, copy_texts, opt_str, strs};
use crate::types::{events_result, ChatEvent, ChatRequest, ErrorView, EventView, ProviderError};
use vstd::prelude::*;
use vstd::string::*;

verus! {

/// The error for a request that does not say which model is meant.
pub open spec fn model_unresolved() -> ErrorView {
    ErrorView::InvalidRequest("model must be explicit before reaching CLI provider"@)
}

/// Anthropic's program: its name, how long it may take, and how it is to behave.
#[derive(Debug)]
pub struct ClaudeCliDialect {
    pub executable: String,
    pub timeout_ms: u64,
    pub tools: ClaudeCliTools,
    pub bare: bool,
    pub effort: Option<ClaudeCliEffort>,
    pub exclude_dynamic_sections: bool,
    pub extra_args: Vec<String>,
    pub streaming: bool,
}

impl ClaudeCliDialect {
    /// The program under this name. It does not stream.
    pub fn new(
        executable: String,
        timeout_ms: u64,
        tools: ClaudeCliTools,
        bare: bool,
        effort: Option<ClaudeCliEffort>,
        exclude_dynamic_sections: bool,
        extra_args: Vec<String>,
    ) -> (r: ClaudeCliDialect)
        ensures
            r == (ClaudeCliDialect {
                executable,
                timeout_ms,
                tools,
                bare,
                effort,
                exclude_dynamic_sections,
                extra_args,
                streaming: false,
            }),
    {
        ClaudeCliDialect {
            executable,
            timeout_ms,
            tools,
            bare,
            effort,
            exclude_dynamic_sections,
            extra_args,
            streaming: false,
        }
    }

    /// Lets the program stream, or not.
    pub fn streaming(self, on: bool) -> (r: ClaudeCliDialect)
        ensures
            r == (ClaudeCliDialect { streaming: on, ..self }),
    {
        ClaudeCliDialect { streaming: on, ..self }
    }

    /// Reads an answer.
    pub fn parse_line(&self, raw: &Json) -> (r: Result<Vec<ChatEvent>, ProviderError>)
        requires
            usage_fits(raw@),
        ensures
            events_result(r) == Ok::<Seq<EventView>, ErrorView>(
                text_reply(result_text(raw@), cli_usage(raw@)),
            ),
    {
        Ok(reply_with(extract_result_text(raw), extract_usage(raw)))
    }
}

/// The directory where the program keeps its own state: the one that is named, or the
/// hidden directory below the home directory that is called like the program.
pub fn resolve_claude_state_dirs(
    config_dir: Option<String>,
    home: Option<String>,
    program: &str,
) -> (r: Vec<String>)
    ensures
        strs(r@) == own_dir(opt_str(config_dir), opt_str(home), "."@ + program@),
{
    let mut rel: String = ".".to_owned();
    rel.append(program);
    resolve_own_dir(config_dir, home, rel.as_str())
}

impl CliDialect for ClaudeCliDialect {
    open spec fn argv_of(&self, inv: InvocationView) -> Seq<Seq<char>> {
        claude_argv(inv, self.streaming)
    }

    open spec fn invocation_of(&self, req: ChatRequest, model: Seq<char>, ctx: ContextView) -> Result<
        InvocationView,
        ErrorView,
    > {
        match req.model.explicit_view() {
            None => Err(model_unresolved()),
            Some(m) => Ok(
                InvocationView {
                    executable: self.executable@,
                    model: m,
                    system: opt_str(req.system),
                    prompt: messages_text(req),
                    timeout_ms: self.timeout_ms,
                    stripped_env: claude_stripped(),
                    cwd: ctx.cwd,
                    sandbox: ctx.sandbox,
                    tools: self.tools@,
                    bare: self.bare,
                    effort: self.effort,
                    exclude_dynamic_sections: self.exclude_dynamic_sections,
                    extra_args: strs(self.extra_args@),
                },
            ),
        }
    }

    open spec fn channel_of(&self) -> PromptChannel {
        PromptChannel::Stdin
    }

    open spec fn mode_of(&self) -> OutputMode {
        OutputMode::JsonEvents
    }

    open spec fn framing_of(&self) -> OutputFraming {
        OutputFraming::SingleObject { strip_prefix: false }
    }

    open spec fn counts_fit(&self, payload: JsonView) -> bool {
        usage_fits(payload)
    }

    open spec fn content_of(&self, payload: JsonView) -> Result<Seq<EventView>, ErrorView> {
        Ok(text_reply(result_text(payload), cli_usage(payload)))
    }

    open spec fn env_of(&self) -> Seq<Seq<char>> {
        seq![]
    }

    fn argv(&self, inv: &SubprocessInvocation) -> (r: Vec<String>) {
        build_argv_with(inv, self.streaming)
    }

    fn invocation(&self, req: &ChatRequest, model: &str, ctx: &CallContext) -> (r: Result<
        SubprocessInvocation,
        ProviderError,
    >) {
        let named: String = match req.model.explicit() {
            Some(m) => m.to_owned(),
            None => {
                return Err(
                    ProviderError::InvalidRequest(
                        "model must be explicit before reaching CLI provider".to_owned(),
                    ),
                );
            },
        };
        Ok(
            SubprocessInvocation {
                executable: self.executable.clone(),
                model: named,
                system: copy_opt(&req.system),
                prompt: serialize_messages_for_cli(req),
                timeout_ms: self.timeout_ms,
                stripped_env: claude_stripped_env(),
                cwd: copy_opt(&ctx.cwd),
                sandbox: ctx.sandbox.clone(),
                tools: self.tools.clone(),
                bare: self.bare,
                effort: self.effort,
                exclude_dynamic_sections: self.exclude_dynamic_sections,
                extra_args: copy_texts(&self.extra_args),
            },
        )
    }

    fn prompt_channel(&self) -> (r: PromptChannel) {
        PromptChannel::Stdin
    }

    fn output_mode(&self) -> (r: OutputMode) {
        OutputMode::JsonEvents
    }

    fn output_framing(&self) -> (r: OutputFraming) {
        OutputFraming::SingleObject { strip_prefix: false }
    }

    fn has_fitting_counts(&self, payload: &Json) -> (r: bool) {
        has_fitting_usage(payload)
    }

    fn content(&self, payload: &Json) -> (r: Result<Vec<ChatEvent>, ProviderError>) {
        self.parse_line(payload)
    }

    fn env(&self) -> (r: Vec<&'static str>) {
        let r: Vec<&'static str> = Vec::new();
        assert(names(r@) =~= seq![]);
        r
    }
}

/// No call is billed to another account: whatever the request and the environment of
/// this process, the program sees none of the variables that would change who pays, in
/// upper or in lower case.
pub proof fn law_account_is_kept(
    d: ClaudeCliDialect,
    req: ChatRequest,
    model: Seq<char>,
    ctx: ContextView,
    state_dirs: Seq<Seq<char>>,
    host: HostView,
    kv: (Seq<char>, Seq<char>),
)
    requires
        d.invocation_of(req, model, ctx) is Ok,
        ({
            let inv = d.invocation_of(req, model, ctx)->Ok_0;
            plan_for(inv.sandbox, inv.cwd, inv.stripped_env, state_dirs, host) matches Ok(plan)
                && plan.vars.contains(kv)
        }),
    ensures
        upper(kv.0) != "ANTHROPIC_API_KEY"@,
        upper(kv.0) != "CLAUDE_CODE_USE_BEDROCK"@,
        upper(kv.0) != "CLAUDE_CODE_USE_VERTEX"@,
        upper(kv.0) != "CLAUDE_CODE_USE_FOUNDRY"@,
{
    let inv = d.invocation_of(req, model, ctx)->Ok_0;
    law_started_programs_are_confined(inv.sandbox, inv.cwd, inv.stripped_env, state_dirs, host);
    let stripped = claude_stripped();
    assert(stripped[0] == "ANTHROPIC_API_KEY"@);
    assert(stripped[1] == "CLAUDE_CODE_USE_BEDROCK"@);
    assert(stripped[2] == "CLAUDE_CODE_USE_VERTEX"@);
    assert(stripped[3] == "CLAUDE_CODE_USE_FOUNDRY"@);
    assert(!stripped.contains(upper(kv.0)));
}

} // verus!
