//! The `gemini` program.

use crate::backends::cli::argv::{CallContext, ContextView, InvocationView, SubprocessInvocation};
use crate::backends::cli::dialect::{
    names, reply_with, text_reply, CliDialect, OutputFraming, OutputMode, PromptChannel,
};
use crate::backends::cli::dialects::claude::model_unresolved;
use crate::backends::cli::prompt::{
    prompt_text, render_prompt_for_cli, too_long, too_long_error, MAX_PROMPT_BYTES,
};
use crate::json::{at, first_key, Json, JsonView};
use crate::text::{byte_count, byte_len, copy_opt, push_text, strs};
use crate::types::{
    events_result, no_usage, ChatEvent, ChatRequest, ErrorView, EventView, ProviderError, Usage,
};
use vstd::prelude::*;
use vstd::string::*;

verus! {

/// The environment variables that must not reach `gemini`, in upper case: with any
/// of them it would use an API key in place of the subscription.
pub open spec fn gemini_stripped() -> Seq<Seq<char>> {
    seq![
        "GEMINI_API_KEY"@,
        "GOOGLE_API_KEY"@,
        "GOOGLE_APPLICATION_CREDENTIALS"@,
        "GOOGLE_GENAI_USE_VERTEXAI"@,
    ]
}

/// The environment variables that must not reach `gemini`, in upper case.
pub fn gemini_stripped_env() -> (r: Vec<String>)
    ensures
        strs(r@) == gemini_stripped(),
{
    let mut out: Vec<String> = Vec::new();
    push_text(&mut out, "GEMINI_API_KEY".to_owned());
    push_text(&mut out, "GOOGLE_API_KEY".to_owned());
    push_text(&mut out, "GOOGLE_APPLICATION_CREDENTIALS".to_owned());
    push_text(&mut out, "GOOGLE_GENAI_USE_VERTEXAI".to_owned());
    assert(strs(out@) =~= gemini_stripped());
    out
}

/// The `gemini` program: its name and how long it may take.
#[derive(Debug)]
pub struct GeminiCliDialect {
    pub executable: String,
    pub timeout_ms: u64,
}

/// The answer of `gemini`: its `response`, or nothing.
pub open spec fn response_text(payload: JsonView) -> Seq<char> {
    payload.str_or("response"@, ""@)
}

/// The token counts of an answer of `gemini`: those of the first model in its
/// statistics.
pub open spec fn gemini_usage(payload: JsonView) -> Usage {
    let models = payload.at("stats"@).at("models"@);
    match first_key(models) {
        None => no_usage(),
        Some(model) => {
            let tokens = models.at(model).at("tokens"@);
            if tokens is Obj {
                Usage {
                    input_tokens: tokens.u64_or_zero("prompt"@),
                    output_tokens: tokens.u64_or_zero("candidates"@),
                    cached_input_tokens: tokens.u64_or_zero("cached"@),
                    cache_creation_tokens: 0,
                    thinking_tokens: tokens.u64_or_zero("thoughts"@),
                }
            } else {
                no_usage()
            }
        },
    }
}

/// The token counts of an answer of `gemini`.
pub fn extract_gemini_usage(payload: &Json) -> (r: Usage)
    ensures
        r == gemini_usage(payload@),
{
    let null: Json = Json::Null;
    let models: &Json = at(at(payload, "stats", &null), "models", &null);
    match models.first_key() {
        None => Usage::default(),
        Some(model) => {
            let tokens: &Json = at(at(models, model, &null), "tokens", &null);
            if tokens.is_object() {
                Usage {
                    input_tokens: tokens.u64_or_zero("prompt"),
                    output_tokens: tokens.u64_or_zero("candidates"),
                    cached_input_tokens: tokens.u64_or_zero("cached"),
                    cache_creation_tokens: 0,
                    thinking_tokens: tokens.u64_or_zero("thoughts"),
                }
            } else {
                Usage::default()
            }
        },
    }
}

impl GeminiCliDialect {
    /// The program under this name.
    pub fn new(executable: String, timeout_ms: u64) -> (r: GeminiCliDialect)
        ensures
            r.executable == executable,
            r.timeout_ms == timeout_ms,
    {
        GeminiCliDialect { executable, timeout_ms }
    }

    /// Reads an answer.
    pub fn parse_line(&self, raw: &Json) -> (r: Result<Vec<ChatEvent>, ProviderError>)
        ensures
            events_result(r) == Ok::<Seq<EventView>, ErrorView>(
                text_reply(response_text(raw@), gemini_usage(raw@)),
            ),
    {
        Ok(reply_with(raw.str_or("response", ""), extract_gemini_usage(raw)))
    }
}

/// The arguments of `gemini`.
pub open spec fn gemini_argv(inv: InvocationView) -> Seq<Seq<char>> {
    seq!["-p"@, inv.prompt, "-m"@, inv.model, "-o"@, "json"@]
}

/// The arguments of `gemini`, without the program itself.
pub fn build_gemini_argv(inv: &SubprocessInvocation) -> (r: Vec<String>)
    ensures
        strs(r@) == gemini_argv(inv@),
{
    let mut argv: Vec<String> = Vec::new();
    push_text(&mut argv, "-p".to_owned());
    push_text(&mut argv, inv.prompt.clone());
    push_text(&mut argv, "-m".to_owned());
    push_text(&mut argv, inv.model.clone());
    push_text(&mut argv, "-o".to_owned());
    push_text(&mut argv, "json".to_owned());
    assert(strs(argv@) =~= gemini_argv(inv@));
    argv
}

impl CliDialect for GeminiCliDialect {
    open spec fn argv_of(&self, inv: InvocationView) -> Seq<Seq<char>> {
        gemini_argv(inv)
    }

    open spec fn invocation_of(&self, req: ChatRequest, model: Seq<char>, ctx: ContextView) -> Result<
        InvocationView,
        ErrorView,
    > {
        match req.model.explicit_view() {
            None => Err(model_unresolved()),
            Some(m) => if byte_len(prompt_text(req)) > MAX_PROMPT_BYTES {
                Err(too_long(byte_len(prompt_text(req)), "gemini"@))
            } else {
                Ok(
                    InvocationView::neutral(
                        self.executable@,
                        m,
                        prompt_text(req),
                        self.timeout_ms,
                        gemini_stripped(),
                        ctx.cwd,
                        ctx.sandbox,
                    ),
                )
            },
        }
    }

    open spec fn channel_of(&self) -> PromptChannel {
        PromptChannel::Arg
    }

    open spec fn mode_of(&self) -> OutputMode {
        OutputMode::JsonEvents
    }

    open spec fn framing_of(&self) -> OutputFraming {
        OutputFraming::SingleObject { strip_prefix: true }
    }

    open spec fn counts_fit(&self, payload: JsonView) -> bool {
        true
    }

    open spec fn content_of(&self, payload: JsonView) -> Result<Seq<EventView>, ErrorView> {
        Ok(text_reply(response_text(payload), gemini_usage(payload)))
    }

    open spec fn env_of(&self) -> Seq<Seq<char>> {
        seq![]
    }

    fn argv(&self, inv: &SubprocessInvocation) -> (r: Vec<String>) {
        build_gemini_argv(inv)
    }

    fn invocation(&self, req: &ChatRequest, model: &str, ctx: &CallContext) -> (r: Result<
        SubprocessInvocation,
        ProviderError,
    >) {
        let named: String = match req.model.explicit() {
            Some(m) => m.to_owned(),
            None => {
                return Err(
                    ProviderError::InvalidRequest(
                        "model must be explicit before reaching CLI provider".to_owned(),
                    ),
                );
            },
        };
        let prompt: String = render_prompt_for_cli(req);
        let size: usize = byte_count(prompt.as_str());
        if size > MAX_PROMPT_BYTES {
            return Err(too_long_error(size, "gemini"));
        }
        Ok(
            SubprocessInvocation::neutral(
                self.executable.clone(),
                named,
                prompt,
                self.timeout_ms,
                gemini_stripped_env(),
                copy_opt(&ctx.cwd),
                ctx.sandbox.clone(),
            ),
        )
    }

    fn prompt_channel(&self) -> (r: PromptChannel) {
        PromptChannel::Arg
    }

    fn output_mode(&self) -> (r: OutputMode) {
        OutputMode::JsonEvents
    }

    fn output_framing(&self) -> (r: OutputFraming) {
        OutputFraming::SingleObject { strip_prefix: true }
    }

    fn has_fitting_counts(&self, payload: &Json) -> (r: bool) {
        true
    }

    fn content(&self, payload: &Json) -> (r: Result<Vec<ChatEvent>, ProviderError>) {
        self.parse_line(payload)
    }

    fn env(&self) -> (r: Vec<&'static str>) {
        let r: Vec<&'static str> = Vec::new();
        assert(names(r@) =~= seq![]);
        r
    }
}

} // verus!
