//! The `agy` program. It prints a plain answer.

use crate::backends::cli::argv::{CallContext, ContextView, InvocationView, SubprocessInvocation};
use crate::backends::cli::dialect::{
    names, plain_answer, read_plain_answer, reply_with, text_reply, CliDialect, OutputFraming,
    OutputMode, PromptChannel,
};
use crate::backends::cli::prompt::{
    prompt_text, render_prompt_for_cli, too_long, too_long_error, MAX_PROMPT_BYTES,
};
use crate::json::{Json, JsonView};
use crate::text::{byte_count, byte_len, copy_opt, push_text, strs, trim_end, trimmed_back};
use crate::types::{
    events_result, no_usage, ChatEvent, ChatRequest, ErrorView, EventView, ProviderError, Usage,
};
use vstd::prelude::*;
use vstd::string::*;

verus! {

/// The `agy` program: its name and how long it may take.
#[derive(Debug)]
pub struct AntigravityDialect {
    pub executable: String,
    pub timeout_ms: u64,
}

impl AntigravityDialect {
    /// The program under this name.
    pub fn new(executable: String, timeout_ms: u64) -> (r: AntigravityDialect)
        ensures
            r.executable == executable,
            r.timeout_ms == timeout_ms,
    {
        AntigravityDialect { executable, timeout_ms }
    }

    /// Reads the printed answer: the text without the white space at its end.
    pub fn parse_text(&self, stdout: &str) -> (r: Result<Vec<ChatEvent>, ProviderError>)
        ensures
            events_result(r) == Ok::<Seq<EventView>, ErrorView>(
                text_reply(trimmed_back(stdout@), no_usage()),
            ),
    {
        Ok(reply_with(trim_end(stdout), Usage::default()))
    }
}

/// The arguments of `agy`.
pub open spec fn agy_argv(inv: InvocationView) -> Seq<Seq<char>> {
    let first = seq![
        "-p"@,
        inv.prompt,
        "--model"@,
        inv.model,
        "--dangerously-skip-permissions"@,
    ];
    match inv.cwd {
        Some(dir) => first + seq!["--add-dir"@, dir],
        None => first,
    }
}

/// The arguments of `agy`, without the program itself.
pub fn build_agy_argv(inv: &SubprocessInvocation) -> (r: Vec<String>)
    ensures
        strs(r@) == agy_argv(inv@),
{
    let mut argv: Vec<String> = Vec::new();
    push_text(&mut argv, "-p".to_owned());
    push_text(&mut argv, inv.prompt.clone());
    push_text(&mut argv, "--model".to_owned());
    push_text(&mut argv, inv.model.clone());
    push_text(&mut argv, "--dangerously-skip-permissions".to_owned());
    if let Some(dir) = &inv.cwd {
        push_text(&mut argv, "--add-dir".to_owned());
        push_text(&mut argv, dir.clone());
    }
    assert(strs(argv@) =~= agy_argv(inv@));
    argv
}

impl CliDialect for AntigravityDialect {
    open spec fn argv_of(&self, inv: InvocationView) -> Seq<Seq<char>> {
        agy_argv(inv)
    }

    open spec fn invocation_of(&self, req: ChatRequest, model: Seq<char>, ctx: ContextView) -> Result<
        InvocationView,
        ErrorView,
    > {
        if byte_len(prompt_text(req)) > MAX_PROMPT_BYTES {
            Err(too_long(byte_len(prompt_text(req)), "agy"@))
        } else {
            Ok(
                InvocationView::neutral(
                    self.executable@,
                    model,
                    prompt_text(req),
                    ctx.call_budget(self.timeout_ms),
                    seq![],
                    ctx.cwd,
                    ctx.sandbox,
                ),
            )
        }
    }

    open spec fn channel_of(&self) -> PromptChannel {
        PromptChannel::Arg
    }

    open spec fn mode_of(&self) -> OutputMode {
        OutputMode::Text
    }

    open spec fn framing_of(&self) -> OutputFraming {
        OutputFraming::RawText
    }

    open spec fn counts_fit(&self, payload: JsonView) -> bool {
        true
    }

    open spec fn content_of(&self, payload: JsonView) -> Result<Seq<EventView>, ErrorView> {
        match plain_answer(payload) {
            Ok(s) => Ok(text_reply(trimmed_back(s), no_usage())),
            Err(e) => Err(e),
        }
    }

    open spec fn env_of(&self) -> Seq<Seq<char>> {
        seq!["GEMINI_API_KEY"@, "ANTIGRAVITY_API_KEY"@]
    }

    fn argv(&self, inv: &SubprocessInvocation) -> (r: Vec<String>) {
        build_agy_argv(inv)
    }

    fn invocation(&self, req: &ChatRequest, model: &str, ctx: &CallContext) -> (r: Result<
        SubprocessInvocation,
        ProviderError,
    >) {
        let prompt: String = render_prompt_for_cli(req);
        let size: usize = byte_count(prompt.as_str());
        if size > MAX_PROMPT_BYTES {
            return Err(too_long_error(size, "agy"));
        }
        let none: Vec<String> = Vec::new();
        assert(strs(none@) =~= seq![]);
        Ok(
            SubprocessInvocation::neutral(
                self.executable.clone(),
                model.to_owned(),
                prompt,
                ctx.call_budget(self.timeout_ms),
                none,
                copy_opt(&ctx.cwd),
                ctx.sandbox.clone(),
            ),
        )
    }

    fn prompt_channel(&self) -> (r: PromptChannel) {
        PromptChannel::Arg
    }

    fn output_mode(&self) -> (r: OutputMode) {
        OutputMode::Text
    }

    fn output_framing(&self) -> (r: OutputFraming) {
        OutputFraming::RawText
    }

    fn has_fitting_counts(&self, payload: &Json) -> (r: bool) {
        true
    }

    fn content(&self, payload: &Json) -> (r: Result<Vec<ChatEvent>, ProviderError>) {
        match read_plain_answer(payload) {
            Ok(s) => self.parse_text(s),
            Err(e) => Err(e),
        }
    }

    fn env(&self) -> (r: Vec<&'static str>) {
        let r: Vec<&'static str> = vec!["GEMINI_API_KEY", "ANTIGRAVITY_API_KEY"];
        assert(names(r@) =~= seq!["GEMINI_API_KEY"@, "ANTIGRAVITY_API_KEY"@]);
        r
    }
}

} // verus!
