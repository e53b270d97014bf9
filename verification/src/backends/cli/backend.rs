//! The provider that all command-line programs share.

use crate::backends::cli::argv::{CallContext, SubprocessInvocation};
use crate::backends::cli::dialect::{invocation_result, CliDialect};
use crate::capabilities::Capabilities;
use crate::http_base::{fitting, law_cut_is_tight, truncate_utf8};
use crate::json::Json;
use crate::text::{byte_count, byte_len};
use crate::types::{
    emit, events, events_result, started_event, ChatEvent, ChatRequest, ErrorView, EventView,
    ProviderError, StopReason,
};
use vstd::prelude::*;
use vstd::string::*;

verus! {

/// Whether an event holds a text that is over the limit.
pub open spec fn is_over(e: EventView, cap: nat) -> bool {
    e matches EventView::Delta { text } && byte_len(text) > cap
}

/// Whether some event is over the limit.
pub open spec fn any_over(s: Seq<EventView>, cap: nat) -> bool {
    exists|i: int| 0 <= i < s.len() && is_over(#[trigger] s[i], cap)
}

/// An event of a reply that was cut: its text is within the limit, and where it
/// ends the reply it says so.
pub open spec fn capped(e: EventView, cap: nat) -> EventView {
    match e {
        EventView::Delta { text } => if byte_len(text) > cap {
            EventView::Delta { text: fitting(text, cap) }
        } else {
            e
        },
        EventView::Finished { stop_reason, usage } => EventView::Finished {
            stop_reason: StopReason::MaxTokens,
            usage,
        },
        _ => e,
    }
}

/// A reply within the number of tokens that the caller admits, at four bytes for
/// each.
pub open spec fn clamped(s: Seq<EventView>, max_output_tokens: Option<u32>) -> Seq<EventView> {
    match max_output_tokens {
        None => s,
        Some(t) => if any_over(s, t as nat * 4) {
            s.map_values(|e: EventView| capped(e, t as nat * 4))
        } else {
            s
        },
    }
}

/// The stream for what a program answered.
pub open spec fn backend_reply(
    content: Result<Seq<EventView>, ErrorView>,
    model: Seq<char>,
    max_output_tokens: Option<u32>,
) -> Result<Seq<EventView>, ErrorView> {
    match content {
        Ok(s) => Ok(seq![started_event(model)] + clamped(s, max_output_tokens)),
        Err(e) => Err(e),
    }
}

/// Whether some event is over the limit.
fn has_over(s: &Vec<ChatEvent>, cap: u64) -> (r: bool)
    ensures
        r == any_over(events(s@), cap as nat),
{
    let mut i: usize = 0;
    while i < s.len()
        invariant
            i <= s@.len(),
            forall|j: int| 0 <= j < i ==> !is_over(#[trigger] events(s@)[j], cap as nat),
        decreases s@.len() - i,
    {
        assert(events(s@)[i as int] == s@[i as int]@);
        if let ChatEvent::Delta { text } = &s[i] {
            if byte_count(text.as_str()) as u64 > cap {
                assert(is_over(events(s@)[i as int], cap as nat));
                return true;
            }
        }
        i += 1;
    }
    false
}

/// An event of a reply that was cut.
fn cap_event(e: &ChatEvent, cap: u64) -> (r: ChatEvent)
    ensures
        r@ == capped(e@, cap as nat),
{
    match e {
        ChatEvent::Delta { text } => {
            let n: usize = byte_count(text.as_str());
            if n as u64 > cap {
                ChatEvent::Delta { text: truncate_utf8(text.as_str(), cap as usize).to_owned() }
            } else {
                e.clone()
            }
        },
        ChatEvent::Finished { stop_reason: _, usage } => ChatEvent::Finished {
            stop_reason: StopReason::MaxTokens,
            usage: *usage,
        },
        _ => e.clone(),
    }
}

/// Cuts a reply to the number of tokens that the caller admits.
pub fn clamp_to_output_budget(content: Vec<ChatEvent>, max_output_tokens: Option<u32>) -> (r: Vec<
    ChatEvent,
>)
    ensures
        events(r@) == clamped(events(content@), max_output_tokens),
{
    let cap: u64 = match max_output_tokens {
        None => {
            return content;
        },
        Some(t) => t as u64 * 4,
    };
    if !has_over(&content, cap) {
        return content;
    }
    let ghost whole = clamped(events(content@), max_output_tokens);
    let mut out: Vec<ChatEvent> = Vec::new();
    let mut i: usize = 0;
    assert(events(out@) =~= whole.take(0));
    while i < content.len()
        invariant
            i <= content@.len(),
            whole.len() == content@.len(),
            whole == events(content@).map_values(|e: EventView| capped(e, cap as nat)),
            events(out@) == whole.take(i as int),
        decreases content@.len() - i,
    {
        emit(&mut out, cap_event(&content[i], cap));
        assert(whole.take(i + 1) =~= whole.take(i as int).push(
            capped(content@[i as int]@, cap as nat),
        ));
        i += 1;
    }
    assert(whole.take(content@.len() as int) =~= whole);
    out
}

/// A provider that hands the prompt to a command-line program. It knows nothing of
/// the program but what its dialect says.
pub struct AgentCliBackend<D> {
    pub id: String,
    pub capabilities: Capabilities,
    pub dialect: D,
}

impl<D: CliDialect> AgentCliBackend<D> {
    /// A provider for a program.
    pub fn new(id: String, capabilities: Capabilities, dialect: D) -> (r: AgentCliBackend<D>)
        ensures
            r.id == id,
            r.capabilities == capabilities,
            r.dialect == dialect,
    {
        AgentCliBackend { id, capabilities, dialect }
    }

    /// The call for a request.
    pub fn prepare(&self, req: &ChatRequest, model: &str, ctx: &CallContext) -> (r: Result<
        SubprocessInvocation,
        ProviderError,
    >)
        ensures
            invocation_result(r) == self.dialect.invocation_of(*req, model@, ctx@),
    {
        self.dialect.invocation(req, model, ctx)
    }

    /// The stream for what the program answered to a call for this model.
    pub fn respond(&self, model: &str, payload: &Json, max_output_tokens: Option<u32>) -> (r:
        Result<Vec<ChatEvent>, ProviderError>)
        requires
            self.dialect.counts_fit(payload@),
        ensures
            events_result(r) == backend_reply(
                self.dialect.content_of(payload@),
                model@,
                max_output_tokens,
            ),
    {
        match self.dialect.content(payload) {
            Err(e) => Err(e),
            Ok(content) => {
                let content: Vec<ChatEvent> = clamp_to_output_budget(content, max_output_tokens);
                let mut out: Vec<ChatEvent> = Vec::new();
                assert(events(out@) =~= seq![]);
                emit(&mut out, ChatEvent::started(model));
                assert(events(out@) =~= seq![started_event(model@)]);
                append_events(&mut out, content);
                Ok(out)
            },
        }
    }

    /// The stream for what the program answered to a call for this model. There is none
    /// where the token counts in the answer do not add up to numbers that can be held.
    pub fn try_respond(&self, model: &str, payload: &Json, max_output_tokens: Option<u32>) -> (r:
        Option<Result<Vec<ChatEvent>, ProviderError>>)
        ensures
            r is Some <==> self.dialect.counts_fit(payload@),
            r matches Some(x) ==> events_result(x) == backend_reply(
                self.dialect.content_of(payload@),
                model@,
                max_output_tokens,
            ),
    {
        if self.dialect.has_fitting_counts(payload) {
            Some(self.respond(model, payload, max_output_tokens))
        } else {
            None
        }
    }
}

/// Appends events.
fn append_events(out: &mut Vec<ChatEvent>, more: Vec<ChatEvent>)
    ensures
        events(final(out)@) == events(old(out)@) + events(more@),
{
    let ghost added = more@;
    let mut rest: Vec<ChatEvent> = more;
    out.append(&mut rest);
    assert(events(out@) =~= events(old(out)@) + events(added));
}

/// A reply is kept within what the caller admits: no text in it is over the limit,
/// and where one was cut, the reply does not look as if it had ended by itself.
pub proof fn law_reply_within_budget(s: Seq<EventView>, tokens: u32, i: int)
    requires
        0 <= i < s.len(),
    ensures
        clamped(s, Some(tokens)).len() == s.len(),
        !is_over(clamped(s, Some(tokens))[i], tokens as nat * 4),
        any_over(s, tokens as nat * 4) ==> (clamped(s, Some(tokens))[i] matches EventView::Finished {
            stop_reason,
            ..
        } ==> stop_reason == StopReason::MaxTokens),
        !any_over(s, tokens as nat * 4) ==> clamped(s, Some(tokens)) == s,
{
    if let EventView::Delta { text } = s[i] {
        law_cut_is_tight(text, tokens as nat * 4);
    }
}

} // verus!
