//! What differs from one command-line program to the other.

use crate::backends::cli::argv::{CallContext, ContextView, InvocationView, SubprocessInvocation};
use crate::http_base::{fitting, truncate_utf8};
use crate::json::{print_json, serde_print, Json, JsonView};
use crate::text::strs;
use crate::types::{
    emit, events, events_result, ChatEvent, ChatRequest, ErrorView, EventView, ProviderError,
    StopReason, Usage,
};
use vstd::prelude::*;
use vstd::string::*;

verus! {

/// How a program gets the prompt.
#[derive(Debug, Clone, Copy, PartialEq, Eq, Structural)]
pub enum PromptChannel {
    /// On its standard input.
    Stdin,
    /// Among its arguments.
    Arg,
    /// In a file that is named among its arguments.
    PromptFile,
}

/// What a program answers with.
#[derive(Debug, Clone, Copy, PartialEq, Eq, Structural)]
pub enum OutputMode {
    /// With JSON.
    JsonEvents,
    /// With plain text.
    Text,
}

/// How the output of a program is put together to one JSON value.
#[derive(Debug, Clone, Copy, PartialEq, Eq, Structural)]
pub enum OutputFraming {
    /// It is one object; with `strip_prefix`, from the first opening brace on.
    SingleObject { strip_prefix: bool },
    /// Each line is a string of an array.
    JsonLinesArray,
    /// It is one string.
    RawText,
}

/// What names say.
pub open spec fn names(s: Seq<&'static str>) -> Seq<Seq<char>> {
    s.map_values(|x: &'static str| x@)
}

/// What a call says, or why there is none.
pub open spec fn invocation_result(r: Result<SubprocessInvocation, ProviderError>) -> Result<
    InvocationView,
    ErrorView,
> {
    match r {
        Ok(inv) => Ok(inv@),
        Err(e) => Err(e@),
    }
}

/// A command-line program: how it is called, and what its answer means.
pub trait CliDialect {
    /// The arguments.
    spec fn argv_of(&self, inv: InvocationView) -> Seq<Seq<char>>;

    /// The call for a request.
    spec fn invocation_of(&self, req: ChatRequest, model: Seq<char>, ctx: ContextView) -> Result<
        InvocationView,
        ErrorView,
    >;

    /// How the program gets the prompt.
    spec fn channel_of(&self) -> PromptChannel;

    /// What the program answers with.
    spec fn mode_of(&self) -> OutputMode;

    /// How the output is put together.
    spec fn framing_of(&self) -> OutputFraming;

    /// Whether the token counts in an answer add up to numbers that can be held.
    spec fn counts_fit(&self, payload: JsonView) -> bool;

    /// The events that an answer means.
    spec fn content_of(&self, payload: JsonView) -> Result<Seq<EventView>, ErrorView>;

    /// The environment variables that the program needs.
    spec fn env_of(&self) -> Seq<Seq<char>>;

    /// The arguments, without the program itself.
    fn argv(&self, inv: &SubprocessInvocation) -> (r: Vec<String>)
        ensures
            strs(r@) == self.argv_of(inv@),
    ;

    /// The call for a request.
    fn invocation(&self, req: &ChatRequest, model: &str, ctx: &CallContext) -> (r: Result<
        SubprocessInvocation,
        ProviderError,
    >)
        ensures
            invocation_result(r) == self.invocation_of(*req, model@, ctx@),
    ;

    /// How the program gets the prompt.
    fn prompt_channel(&self) -> (r: PromptChannel)
        ensures
            r == self.channel_of(),
    ;

    /// What the program answers with.
    fn output_mode(&self) -> (r: OutputMode)
        ensures
            r == self.mode_of(),
    ;

    /// How the output is put together.
    fn output_framing(&self) -> (r: OutputFraming)
        ensures
            r == self.framing_of(),
    ;

    /// Whether the token counts in an answer add up to numbers that can be held.
    fn has_fitting_counts(&self, payload: &Json) -> (r: bool)
        ensures
            r == self.counts_fit(payload@),
    ;

    /// The events that an answer means.
    fn content(&self, payload: &Json) -> (r: Result<Vec<ChatEvent>, ProviderError>)
        requires
            self.counts_fit(payload@),
        ensures
            events_result(r) == self.content_of(payload@),
    ;

    /// The environment variables that the program needs.
    fn env(&self) -> (r: Vec<&'static str>)
        ensures
            names(r@) == self.env_of(),
    ;
}

/// A reply that is a text.
pub open spec fn text_reply(text: Seq<char>, usage: Usage) -> Seq<EventView> {
    seq![
        EventView::Delta { text },
        EventView::Finished { stop_reason: StopReason::EndTurn, usage },
    ]
}

/// A reply that is a text.
pub fn reply_with(text: String, usage: Usage) -> (r: Vec<ChatEvent>)
    ensures
        events(r@) == text_reply(text@, usage),
{
    let mut out: Vec<ChatEvent> = Vec::new();
    assert(events(out@) =~= seq![]);
    emit(&mut out, ChatEvent::Delta { text });
    emit(&mut out, ChatEvent::Finished { stop_reason: StopReason::EndTurn, usage });
    assert(events(out@) =~= text_reply(text@, usage));
    out
}

/// The plain text that a program answered with.
pub open spec fn plain_answer(payload: JsonView) -> Result<Seq<char>, ErrorView> {
    match payload.as_str() {
        Some(s) => Ok(s),
        None => Err(
            ErrorView::Internal(
                "AgentCliBackend: OutputMode::Text runner must return a JSON string of raw stdout, got: "@
                    + fitting(serde_print(payload), 200),
            ),
        ),
    }
}

/// The plain text that a program answered with.
pub fn read_plain_answer<'a>(payload: &'a Json) -> (r: Result<&'a str, ProviderError>)
    ensures
        match r {
            Ok(s) => plain_answer(payload@) == Ok::<Seq<char>, ErrorView>(s@),
            Err(e) => plain_answer(payload@) == Err::<Seq<char>, ErrorView>(e@),
        },
{
    match payload.as_str() {
        Some(s) => Ok(s),
        None => {
            let mut msg: String =
                "AgentCliBackend: OutputMode::Text runner must return a JSON string of raw stdout, got: ".to_owned();
            msg.append(truncate_utf8(print_json(payload).as_str(), 200));
            Err(ProviderError::Internal(msg))
        },
    }
}

} // verus!
