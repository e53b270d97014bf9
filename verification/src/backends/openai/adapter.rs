//! Translation to and from OpenAI's wire format.

use crate::auth::{AuthView, ResolvedAuth};
use crate::http_base::{
    check_header, ellipsized, error_message, failure_message, header_text, header_views,
    headers_result, http_status_text, lowercase, no_end_slash, parse_retry_after, parse_url,
    retry_after, status_message, status_text, to_lowercase, trim_end_slashes, truncate,
    url_or_error, url_outcome, url_parse, HttpProviderExtras, SseEvent,
};
use crate::json::{
    at, items_view, jint, jstr, lemma_items, number_view, one_item, parse_json, print_json,
    push_item, serde_parse, serde_print, str_array, str_items, Json, JsonView,
};
use crate::stream::{step, Step};
use crate::text::{chars_of, contains_text, has_part, is_part_at, part_at, same, trim, trimmed};
use crate::tool_buffer::{BufferView, ToolCallBuffer};
use crate::types::{
    emit, events, events_result, json_result, no_usage, started_event, text_result, ChatEvent,
    ChatRequest, ContentBlock, ErrorView, EventView, ImageData, Message, ProviderError, StopReason,
    ToolCall, ToolChoice, ToolSpec, Usage,
};
use vstd::prelude::*;
use vstd::string::*;

verus! {

/// How many parallel tool calls are looked for at the end of a reply.
pub const MAX_PARALLEL_CALLS: usize = 32;

/// The state after the calls with an index below `n` have been taken out of the
/// buffer. An index that no call has is passed over.
pub open spec fn drained(st: Step, n: nat) -> Step
    decreases n,
{
    if n == 0 {
        st
    } else {
        let before = drained(st, (n - 1) as nat);
        let index = (n - 1) as usize;
        if before.err is Some || !before.buf.calls.dom().contains(index) {
            before
        } else {
            let after = Step { buf: before.buf.without(index), ..before };
            match before.buf.finalized(index) {
                Ok((id, name, args)) => after.push(
                    EventView::ToolCallEnd { index, id, parsed_args: args },
                ),
                Err(e) => after.fail(e),
            }
        }
    }
}

/// The token counts of a `usage` object.
pub open spec fn usage_of(u: JsonView) -> Usage {
    Usage {
        input_tokens: u.u64_or_zero("prompt_tokens"@),
        output_tokens: u.u64_or_zero("completion_tokens"@),
        cached_input_tokens: u.at("prompt_tokens_details"@).u64_or_zero("cached_tokens"@),
        cache_creation_tokens: 0,
        thinking_tokens: 0,
    }
}

/// What OpenAI's name of a finish reason means.
pub open spec fn stop_reason(s: Seq<char>) -> StopReason {
    if s == "stop"@ {
        StopReason::EndTurn
    } else if s == "length"@ {
        StopReason::MaxTokens
    } else if s == "tool_calls"@ || s == "function_call"@ {
        StopReason::ToolUse
    } else if s == "content_filter"@ {
        StopReason::ContentFilter
    } else {
        StopReason::Other
    }
}

/// The index of a tool call: the one that it carries, or its place in the chunk.
pub open spec fn call_index(tc: JsonView, pos: int) -> usize {
    match tc.at("index"@).as_u64() {
        Some(n) if n <= usize::MAX => n as usize,
        _ => pos as usize,
    }
}

/// The state after the start of a tool call has been read. One that carries an id
/// begins a call and has to name the function; one that names a function without
/// an id is malformed.
pub open spec fn call_opened(st: Step, tc: JsonView, pos: int) -> Step {
    let index = call_index(tc, pos);
    let id = tc.str_or("id"@, ""@);
    let name = tc.at("function"@).str_or("name"@, ""@);
    if id.len() > 0 {
        if name.len() == 0 {
            st.fail(
                ErrorView::Parse(
                    "openai tool_call delta has id `"@ + id + "` but missing function.name"@,
                ),
            )
        } else {
            Step {
                out: st.out.push(EventView::ToolCallStart { index, id, name }),
                buf: st.buf.on_start(index, id, name),
                ..st
            }
        }
    } else if name.len() > 0 {
        st.fail(
            ErrorView::Parse(
                "openai tool_call delta has function.name `"@ + name + "` but missing id"@,
            ),
        )
    } else {
        st
    }
}

/// The state after one tool call of a chunk has been read.
pub open spec fn call_read(st: Step, tc: JsonView, pos: int) -> Step {
    let opened = call_opened(st, tc, pos);
    let args = tc.at("function"@).str_or("arguments"@, ""@);
    if opened.err is Some || args.len() == 0 {
        opened
    } else {
        let index = call_index(tc, pos);
        Step {
            out: opened.out.push(EventView::ToolCallArgsDelta { index, args_delta: args }),
            buf: opened.buf.on_delta(index, args),
            ..opened
        }
    }
}

/// The state after the tool calls of a chunk have been read.
pub open spec fn calls_read(st: Step, tcs: Seq<JsonView>) -> Step
    decreases tcs.len(),
{
    if tcs.len() == 0 {
        st
    } else {
        let before = calls_read(st, tcs.drop_last());
        if before.err is Some {
            before
        } else {
            call_read(before, tcs.last(), tcs.len() - 1)
        }
    }
}

/// The reasoning in a delta, under either of the names that are in use.
pub open spec fn reasoning_of(delta: JsonView) -> Seq<char> {
    match delta.at("reasoning_content"@).as_str() {
        Some(s) => s,
        None => delta.str_or("reasoning"@, ""@),
    }
}

/// The state after the texts of a delta have been read: first the reasoning.
pub open spec fn texts_read(st: Step, delta: JsonView) -> Step {
    let thought = reasoning_of(delta);
    let content = delta.str_or("content"@, ""@);
    let s1 = if thought.len() > 0 {
        st.push(EventView::ThinkingDelta { text: thought })
    } else {
        st
    };
    if content.len() > 0 {
        s1.push(EventView::Delta { text: content })
    } else {
        s1
    }
}

/// The state after the finish reason of a choice has been read: the tool calls
/// are complete, and the stream ends now if the usage is in the same chunk, or
/// else when it comes.
pub open spec fn finish_read(st: Step, choice: JsonView, v: JsonView) -> Step {
    match choice.at("finish_reason"@).as_str() {
        None => st,
        Some(reason) => {
            let d = drained(st, MAX_PARALLEL_CALLS as nat);
            if d.err is Some {
                d
            } else if v.at("usage"@) is Obj {
                d.push(
                    EventView::Finished {
                        stop_reason: stop_reason(reason),
                        usage: usage_of(v.at("usage"@)),
                    },
                )
            } else {
                Step {
                    buf: BufferView { pending_stop: Some(stop_reason(reason)), ..d.buf },
                    ..d
                }
            }
        },
    }
}

/// The state after one choice of a chunk has been read.
pub open spec fn choice_read(st: Step, choice: JsonView, v: JsonView) -> Step {
    let delta = choice.at("delta"@);
    let s1 = texts_read(st, delta);
    let s2 = match delta.at("tool_calls"@).as_arr() {
        Some(tcs) => calls_read(s1, tcs),
        None => s1,
    };
    if s2.err is Some {
        s2
    } else {
        finish_read(s2, choice, v)
    }
}

/// The state after the choices of a chunk have been read.
pub open spec fn choices_read(st: Step, choices: Seq<JsonView>, v: JsonView) -> Step
    decreases choices.len(),
{
    if choices.len() == 0 {
        st
    } else {
        let before = choices_read(st, choices.drop_last(), v);
        if before.err is Some {
            before
        } else {
            choice_read(before, choices.last(), v)
        }
    }
}

/// The outcome of the line that ends a stream: what is still in the buffer is
/// handed out, and the stream is ended if it was waiting for the usage.
pub open spec fn done_read(buf: BufferView) -> Step {
    let d = drained(Step { out: seq![], buf, err: None }, MAX_PARALLEL_CALLS as nat);
    if d.err is Some {
        d
    } else {
        let next = Step { buf: BufferView { pending_stop: None, ..d.buf }, ..d };
        match d.buf.pending_stop {
            Some(stop) => next.push(EventView::Finished { stop_reason: stop, usage: no_usage() }),
            None => next,
        }
    }
}

/// The outcome of a chunk.
pub open spec fn chunk_read(v: JsonView, buf: BufferView) -> Step {
    let choices = v.at("choices"@).as_arr();
    let no_choice = choices is None || choices->0.len() == 0;
    if v.at("usage"@) is Obj && no_choice {
        Step {
            out: seq![
                EventView::Finished {
                    stop_reason: match buf.pending_stop {
                        Some(s) => s,
                        None => StopReason::EndTurn,
                    },
                    usage: usage_of(v.at("usage"@)),
                },
            ],
            buf: BufferView { pending_stop: None, ..buf },
            err: None,
        }
    } else if choices is None {
        Step { out: seq![], buf, err: None }
    } else {
        let model = v.str_or("model"@, ""@);
        let opened = if model.len() > 0 && !buf.started {
            seq![started_event(model)]
        } else {
            seq![]
        };
        let next = if model.len() > 0 {
            BufferView { started: true, ..buf }
        } else {
            buf
        };
        choices_read(Step { out: opened, buf: next, err: None }, choices->0, v)
    }
}

/// The outcome of one server-sent event, and the buffer after it.
pub open spec fn event_outcome(data: Seq<char>, buf: BufferView) -> (
    Result<Seq<EventView>, ErrorView>,
    BufferView,
) {
    if trimmed(data) == "[DONE]"@ {
        done_read(buf).outcome()
    } else {
        match serde_parse(data) {
            Err(e) => (
                Err(
                    ErrorView::Parse(
                        "openai sse json: "@ + e + " (raw: "@ + ellipsized(data, 200) + ")"@,
                    ),
                ),
                buf,
            ),
            Ok(v) => chunk_read(v, buf).outcome(),
        }
    }
}

/// Reads the token counts of a `usage` object.
pub fn parse_openai_usage(u: &Json) -> (r: Usage)
    ensures
        r == usage_of(u@),
{
    let null: Json = Json::Null;
    Usage {
        input_tokens: u.u64_or_zero("prompt_tokens"),
        output_tokens: u.u64_or_zero("completion_tokens"),
        cached_input_tokens: at(u, "prompt_tokens_details", &null).u64_or_zero("cached_tokens"),
        cache_creation_tokens: 0,
        thinking_tokens: 0,
    }
}

/// Maps OpenAI's name of a finish reason.
pub fn map_stop_reason(s: &str) -> (r: StopReason)
    ensures
        r == stop_reason(s@),
{
    if same(s, "stop") {
        StopReason::EndTurn
    } else if same(s, "length") {
        StopReason::MaxTokens
    } else if same(s, "tool_calls") || same(s, "function_call") {
        StopReason::ToolUse
    } else if same(s, "content_filter") {
        StopReason::ContentFilter
    } else {
        StopReason::Other
    }
}

/// The state that a prefix of the drain leaves when it fails is the final one.
proof fn lemma_drain_stops(st: Step, k: nat, n: nat)
    requires
        k <= n,
        drained(st, k).err is Some,
    ensures
        drained(st, n) == drained(st, k),
    decreases n - k,
{
    if k < n {
        lemma_drain_stops(st, k, (n - 1) as nat);
    }
}

/// Hands out the calls that are in the buffer.
fn drain_buffer_into(buf: &mut ToolCallBuffer, out: &mut Vec<ChatEvent>) -> (r: Result<
    (),
    ProviderError,
>)
    ensures
        step(final(out)@, final(buf)@, r) == drained(
            step(old(out)@, old(buf)@, Ok(())),
            MAX_PARALLEL_CALLS as nat,
        ),
{
    let ghost st = step(out@, buf@, Ok(()));
    let mut i: usize = 0;
    while i < MAX_PARALLEL_CALLS
        invariant
            i <= MAX_PARALLEL_CALLS,
            st == step(old(out)@, old(buf)@, Ok(())),
            step(out@, buf@, Ok(())) == drained(st, i as nat),
        decreases MAX_PARALLEL_CALLS - i,
    {
        if buf.holds(i) {
            match buf.finalize(i) {
                Ok((id, _name, args)) => {
                    emit(out, ChatEvent::ToolCallEnd { index: i, id, parsed_args: args });
                },
                Err(e) => {
                    proof {
                        lemma_drain_stops(st, (i + 1) as nat, MAX_PARALLEL_CALLS as nat);
                    }
                    return Err(e);
                },
            }
        }
        i += 1;
    }
    Ok(())
}

/// Reads one tool call of a chunk.
fn read_call(tc: &Json, pos: usize, buf: &mut ToolCallBuffer, out: &mut Vec<ChatEvent>) -> (r:
    Result<(), ProviderError>)
    ensures
        step(final(out)@, final(buf)@, r) == call_read(
            step(old(out)@, old(buf)@, Ok(())),
            tc@,
            pos as int,
        ),
{
    proof {
        reveal_strlit("");
    }
    let null: Json = Json::Null;
    let index: usize = match tc.get("index") {
        Some(j) => match j.as_u64() {
            Some(n) => if n <= usize::MAX as u64 {
                n as usize
            } else {
                pos
            },
            None => pos,
        },
        None => pos,
    };
    let function: &Json = at(tc, "function", &null);
    let id: String = tc.str_or("id", "");
    let name: String = function.str_or("name", "");
    if !id.as_str().is_empty() {
        if name.as_str().is_empty() {
            let mut msg: String = "openai tool_call delta has id `".to_owned();
            msg.append(id.as_str());
            msg.append("` but missing function.name");
            return Err(ProviderError::Parse(msg));
        }
        emit(out, ChatEvent::ToolCallStart { index, id: id.clone(), name: name.clone() });
        buf.on_start(index, id, name);
    } else if !name.as_str().is_empty() {
        let mut msg: String = "openai tool_call delta has function.name `".to_owned();
        msg.append(name.as_str());
        msg.append("` but missing id");
        return Err(ProviderError::Parse(msg));
    }
    let args: String = function.str_or("arguments", "");
    if !args.as_str().is_empty() {
        buf.on_delta(index, args.as_str());
        emit(out, ChatEvent::ToolCallArgsDelta { index, args_delta: args });
    }
    Ok(())
}

/// The calls after one that failed are not read.
proof fn lemma_calls_stop(st: Step, tcs: Seq<JsonView>, k: int)
    requires
        0 <= k <= tcs.len(),
        calls_read(st, tcs.take(k)).err is Some,
    ensures
        calls_read(st, tcs) == calls_read(st, tcs.take(k)),
    decreases tcs.len() - k,
{
    if k < tcs.len() {
        assert(tcs.take(k + 1).drop_last() =~= tcs.take(k));
        lemma_calls_stop(st, tcs, k + 1);
    } else {
        assert(tcs.take(k) =~= tcs);
    }
}

/// Reads the tool calls of a chunk.
fn read_calls(tcs: &Vec<Json>, buf: &mut ToolCallBuffer, out: &mut Vec<ChatEvent>) -> (r: Result<
    (),
    ProviderError,
>)
    ensures
        step(final(out)@, final(buf)@, r) == calls_read(
            step(old(out)@, old(buf)@, Ok(())),
            items_view(tcs@),
        ),
{
    let ghost st = step(out@, buf@, Ok(()));
    let ghost all = items_view(tcs@);
    let mut i: usize = 0;
    assert(all.take(0) =~= seq![]);
    while i < tcs.len()
        invariant
            i <= tcs@.len(),
            all == items_view(tcs@),
            st == step(old(out)@, old(buf)@, Ok(())),
            step(out@, buf@, Ok(())) == calls_read(st, all.take(i as int)),
        decreases tcs@.len() - i,
    {
        proof {
            lemma_items(tcs@);
            assert(all.take(i + 1).drop_last() =~= all.take(i as int));
            assert(all.take(i + 1).last() == tcs@[i as int]@);
        }
        if let Err(e) = read_call(&tcs[i], i, buf, out) {
            proof {
                lemma_calls_stop(st, all, i + 1);
            }
            return Err(e);
        }
        i += 1;
    }
    proof {
        lemma_items(tcs@);
        assert(all.take(all.len() as int) =~= all);
    }
    Ok(())
}

/// Reads the texts of a delta.
fn read_texts(delta: &Json, out: &mut Vec<ChatEvent>, Ghost(buf): Ghost<BufferView>)
    ensures
        step(final(out)@, buf, Ok(())) == texts_read(step(old(out)@, buf, Ok(())), delta@),
{
    proof {
        reveal_strlit("");
    }
    let thought: String = match delta.str_at("reasoning_content") {
        Some(s) => s.to_owned(),
        None => delta.str_or("reasoning", ""),
    };
    if !thought.as_str().is_empty() {
        emit(out, ChatEvent::ThinkingDelta { text: thought });
    }
    let content: String = delta.str_or("content", "");
    if !content.as_str().is_empty() {
        emit(out, ChatEvent::Delta { text: content });
    }
}

/// Reads one choice of a chunk.
fn read_choice(choice: &Json, v: &Json, buf: &mut ToolCallBuffer, out: &mut Vec<ChatEvent>) -> (r:
    Result<(), ProviderError>)
    ensures
        step(final(out)@, final(buf)@, r) == choice_read(
            step(old(out)@, old(buf)@, Ok(())),
            choice@,
            v@,
        ),
{
    let null: Json = Json::Null;
    let delta: &Json = at(choice, "delta", &null);
    read_texts(delta, out, Ghost(buf@));
    if let Some(tcs) = at(delta, "tool_calls", &null).as_arr() {
        if let Err(e) = read_calls(tcs, buf, out) {
            return Err(e);
        }
    }
    if let Some(reason) = choice.str_at("finish_reason") {
        if let Err(e) = drain_buffer_into(buf, out) {
            return Err(e);
        }
        let stop: StopReason = map_stop_reason(reason);
        let usage: &Json = at(v, "usage", &null);
        if usage.is_object() {
            emit(out, ChatEvent::Finished { stop_reason: stop, usage: parse_openai_usage(usage) });
        } else {
            buf.record_pending_stop(stop);
        }
    }
    Ok(())
}

/// The choices after one that failed are not read.
proof fn lemma_choices_stop(st: Step, choices: Seq<JsonView>, v: JsonView, k: int)
    requires
        0 <= k <= choices.len(),
        choices_read(st, choices.take(k), v).err is Some,
    ensures
        choices_read(st, choices, v) == choices_read(st, choices.take(k), v),
    decreases choices.len() - k,
{
    if k < choices.len() {
        assert(choices.take(k + 1).drop_last() =~= choices.take(k));
        lemma_choices_stop(st, choices, v, k + 1);
    } else {
        assert(choices.take(k) =~= choices);
    }
}

/// Reads a chunk whose JSON has been parsed.
pub fn parse_chunk(v: &Json, buf: &mut ToolCallBuffer) -> (r: Result<
    Vec<ChatEvent>,
    ProviderError,
>)
    ensures
        (events_result(r), final(buf)@) == chunk_read(v@, old(buf)@).outcome(),
{
    proof {
        reveal_strlit("");
    }
    let null: Json = Json::Null;
    let usage: &Json = at(v, "usage", &null);
    let choices: Option<&Vec<Json>> = at(v, "choices", &null).as_arr();
    let mut out: Vec<ChatEvent> = Vec::new();
    assert(events(out@) =~= seq![]);
    let no_choice: bool = match choices {
        Some(c) => {
            proof {
                lemma_items(c@);
            }
            c.len() == 0
        },
        None => true,
    };
    if usage.is_object() && no_choice {
        let stop: StopReason = match buf.take_pending_stop() {
            Some(s) => s,
            None => StopReason::EndTurn,
        };
        emit(&mut out, ChatEvent::Finished { stop_reason: stop, usage: parse_openai_usage(usage) });
        return Ok(out);
    }
    let list: &Vec<Json> = match choices {
        Some(c) => c,
        None => {
            return Ok(out);
        },
    };
    let model: String = v.str_or("model", "");
    if !model.as_str().is_empty() && buf.take_started() {
        emit(&mut out, ChatEvent::started(model.as_str()));
    }
    let ghost st = step(out@, buf@, Ok(()));
    let ghost all = items_view(list@);
    let mut i: usize = 0;
    assert(all.take(0) =~= seq![]);
    while i < list.len()
        invariant
            i <= list@.len(),
            all == items_view(list@),
            chunk_read(v@, old(buf)@) == choices_read(st, all, v@),
            step(out@, buf@, Ok(())) == choices_read(st, all.take(i as int), v@),
        decreases list@.len() - i,
    {
        proof {
            lemma_items(list@);
            assert(all.take(i + 1).drop_last() =~= all.take(i as int));
            assert(all.take(i + 1).last() == list@[i as int]@);
        }
        if let Err(e) = read_choice(&list[i], v, buf, &mut out) {
            proof {
                lemma_choices_stop(st, all, v@, i + 1);
            }
            return Err(e);
        }
        i += 1;
    }
    proof {
        lemma_items(list@);
        assert(all.take(all.len() as int) =~= all);
    }
    Ok(out)
}

/// Reads the line that ends a stream.
pub fn parse_done(buf: &mut ToolCallBuffer) -> (r: Result<Vec<ChatEvent>, ProviderError>)
    ensures
        (events_result(r), final(buf)@) == done_read(old(buf)@).outcome(),
{
    let mut out: Vec<ChatEvent> = Vec::new();
    assert(events(out@) =~= seq![]);
    if let Err(e) = drain_buffer_into(buf, &mut out) {
        return Err(e);
    }
    if let Some(stop) = buf.take_pending_stop() {
        emit(&mut out, ChatEvent::Finished { stop_reason: stop, usage: Usage::default() });
    }
    Ok(out)
}

/// Whether an event opens a stream.
pub open spec fn opens(e: EventView) -> bool {
    e is Started
}

/// No event opens a stream.
pub open spec fn none_opens(s: Seq<EventView>) -> bool {
    forall|i: int| 0 <= i < s.len() ==> !opens(#[trigger] s[i])
}

proof fn lemma_drain_opens_nothing(st: Step, n: nat)
    requires
        none_opens(st.out),
    ensures
        none_opens(drained(st, n).out),
    decreases n,
{
    if n > 0 {
        lemma_drain_opens_nothing(st, (n - 1) as nat);
    }
}

proof fn lemma_calls_open_nothing(st: Step, tcs: Seq<JsonView>)
    requires
        none_opens(st.out),
    ensures
        none_opens(calls_read(st, tcs).out),
    decreases tcs.len(),
{
    if tcs.len() > 0 {
        lemma_calls_open_nothing(st, tcs.drop_last());
    }
}

proof fn lemma_choices_open_nothing(st: Step, choices: Seq<JsonView>, v: JsonView)
    requires
        none_opens(st.out),
    ensures
        none_opens(choices_read(st, choices, v).out),
    decreases choices.len(),
{
    if choices.len() > 0 {
        lemma_choices_open_nothing(st, choices.drop_last(), v);
        let before = choices_read(st, choices.drop_last(), v);
        if before.err is None {
            let delta = choices.last().at("delta"@);
            let s1 = texts_read(before, delta);
            assert(none_opens(s1.out));
            let s2 = match delta.at("tool_calls"@).as_arr() {
                Some(tcs) => calls_read(s1, tcs),
                None => s1,
            };
            if let Some(tcs) = delta.at("tool_calls"@).as_arr() {
                lemma_calls_open_nothing(s1, tcs);
            }
            lemma_drain_opens_nothing(s2, MAX_PARALLEL_CALLS as nat);
        }
    }
}

proof fn lemma_drain_keeps_started(st: Step, n: nat)
    ensures
        drained(st, n).buf.started == st.buf.started,
    decreases n,
{
    if n > 0 {
        lemma_drain_keeps_started(st, (n - 1) as nat);
    }
}

proof fn lemma_calls_keep_started(st: Step, tcs: Seq<JsonView>)
    ensures
        calls_read(st, tcs).buf.started == st.buf.started,
    decreases tcs.len(),
{
    if tcs.len() > 0 {
        lemma_calls_keep_started(st, tcs.drop_last());
    }
}

proof fn lemma_choices_keep_started(st: Step, choices: Seq<JsonView>, v: JsonView)
    ensures
        choices_read(st, choices, v).buf.started == st.buf.started,
    decreases choices.len(),
{
    if choices.len() > 0 {
        lemma_choices_keep_started(st, choices.drop_last(), v);
        let before = choices_read(st, choices.drop_last(), v);
        if before.err is None {
            let delta = choices.last().at("delta"@);
            let s1 = texts_read(before, delta);
            let s2 = match delta.at("tool_calls"@).as_arr() {
                Some(tcs) => calls_read(s1, tcs),
                None => s1,
            };
            if let Some(tcs) = delta.at("tool_calls"@).as_arr() {
                lemma_calls_keep_started(s1, tcs);
            }
            lemma_drain_keeps_started(s2, MAX_PARALLEL_CALLS as nat);
        }
    }
}

/// A stream is opened once: a chunk that opens it leaves the buffer marked, a
/// marked buffer stays marked, and no chunk opens a stream whose buffer is marked.
pub proof fn law_started_once(v: JsonView, buf: BufferView)
    ensures
        buf.started ==> none_opens(chunk_read(v, buf).out) && none_opens(done_read(buf).out),
        buf.started ==> chunk_read(v, buf).buf.started && done_read(buf).buf.started,
        !none_opens(chunk_read(v, buf).out) ==> chunk_read(v, buf).buf.started,
{
    let start = Step { out: seq![], buf, err: None };
    lemma_drain_opens_nothing(start, MAX_PARALLEL_CALLS as nat);
    lemma_drain_keeps_started(start, MAX_PARALLEL_CALLS as nat);
    if let Some(choices) = v.at("choices"@).as_arr() {
        let model = v.str_or("model"@, ""@);
        let opened = if model.len() > 0 && !buf.started {
            seq![started_event(model)]
        } else {
            seq![]
        };
        let next = if model.len() > 0 {
            BufferView { started: true, ..buf }
        } else {
            buf
        };
        let st = Step { out: opened, buf: next, err: None };
        lemma_choices_keep_started(st, choices, v);
        if none_opens(opened) {
            lemma_choices_open_nothing(st, choices, v);
        }
    }
}

/// Models that take `max_completion_tokens` in place of `max_tokens`.
pub open spec fn takes_completion_tokens(model: Seq<char>) -> bool {
    part_at(model, "gpt-5"@, 0) || part_at(model, "o1"@, 0) || part_at(model, "o3"@, 0) || part_at(
        model,
        "o4"@,
        0,
    )
}

/// Whether a text begins with another.
fn begins_with(s: &str, prefix: &str) -> (r: bool)
    ensures
        r == part_at(s@, prefix@, 0),
{
    is_part_at(&chars_of(s), &chars_of(prefix), 0)
}

/// A content block on the wire.
pub open spec fn block_json(b: ContentBlock) -> JsonView {
    match b {
        ContentBlock::Text { text } => text_block(text@),
        ContentBlock::Image { mime, data } => {
            let url = match data {
                ImageData::Url(u) => u@,
                ImageData::Base64(d) => "data:"@ + mime@ + ";base64,"@ + d@,
            };
            JsonView::Obj(
                map![
                    "type"@ => jstr("image_url"@),
                    "image_url"@ => JsonView::Obj(map!["url"@ => jstr(url)]),
                ],
            )
        },
    }
}

/// A block of text on the wire.
pub open spec fn text_block(s: Seq<char>) -> JsonView {
    JsonView::Obj(map!["type"@ => jstr("text"@), "text"@ => jstr(s)])
}

/// Content blocks on the wire.
pub open spec fn content_json(s: Seq<ContentBlock>) -> Seq<JsonView> {
    s.map_values(|b: ContentBlock| block_json(b))
}

/// A tool call on the wire: its arguments are a JSON text.
pub open spec fn call_json(tc: ToolCall) -> JsonView {
    JsonView::Obj(
        map![
            "id"@ => jstr(tc.id@),
            "type"@ => jstr("function"@),
            "function"@ => JsonView::Obj(
                map!["name"@ => jstr(tc.name@), "arguments"@ => jstr(serde_print(tc.arguments@))],
            ),
        ],
    )
}

/// Tool calls on the wire.
pub open spec fn calls_json(s: Seq<ToolCall>) -> Seq<JsonView> {
    s.map_values(|tc: ToolCall| call_json(tc))
}

/// A turn on the wire.
pub open spec fn turn(role: Seq<char>, content: Seq<JsonView>) -> Map<Seq<char>, JsonView> {
    map!["role"@ => jstr(role), "content"@ => JsonView::Arr(content)]
}

/// A message on the wire. The result of a tool that failed is marked in its text.
pub open spec fn message_json(m: Message) -> JsonView {
    match m {
        Message::User { content } => JsonView::Obj(turn("user"@, content_json(content@))),
        Message::Assistant { content, tool_calls } => {
            let base = turn("assistant"@, content_json(content@));
            JsonView::Obj(
                if tool_calls@.len() > 0 {
                    base.insert("tool_calls"@, JsonView::Arr(calls_json(tool_calls@)))
                } else {
                    base
                },
            )
        },
        Message::Tool { tool_call_id, content, is_error } => JsonView::Obj(
            map![
                "role"@ => jstr("tool"@),
                "tool_call_id"@ => jstr(tool_call_id@),
                "content"@ => JsonView::Arr(
                    if is_error {
                        seq![text_block("[tool execution failed]\n"@)] + content_json(content@)
                    } else {
                        content_json(content@)
                    },
                ),
            ],
        ),
        Message::System { content } => JsonView::Obj(turn("system"@, content_json(content@))),
    }
}

/// Messages on the wire. A system prompt of the request replaces the system
/// messages among the turns.
pub open spec fn messages_json(s: Seq<Message>, has_system: bool) -> Seq<JsonView>
    decreases s.len(),
{
    if s.len() == 0 {
        seq![]
    } else {
        let before = messages_json(s.drop_last(), has_system);
        if has_system && s.last() is System {
            before
        } else {
            before.push(message_json(s.last()))
        }
    }
}

/// A tool on the wire.
pub open spec fn tool_json(t: ToolSpec) -> JsonView {
    JsonView::Obj(
        map![
            "type"@ => jstr("function"@),
            "function"@ => JsonView::Obj(
                map![
                    "name"@ => jstr(t.name@),
                    "description"@ => jstr(t.description@),
                    "parameters"@ => t.input_schema.schema@,
                    "strict"@ => JsonView::Bool(t.input_schema.strict),
                ],
            ),
        ],
    )
}

/// Tools on the wire.
pub open spec fn tools_json(s: Seq<ToolSpec>) -> Seq<JsonView> {
    s.map_values(|t: ToolSpec| tool_json(t))
}

/// The `tool_choice` of a request.
pub open spec fn choice_json(c: ToolChoice) -> JsonView {
    match c {
        ToolChoice::Auto => jstr("auto"@),
        ToolChoice::NoTool => jstr("none"@),
        ToolChoice::Required => jstr("required"@),
        ToolChoice::Specific(name) => JsonView::Obj(
            map![
                "type"@ => jstr("function"@),
                "function"@ => JsonView::Obj(map!["name"@ => jstr(name@)]),
            ],
        ),
    }
}

/// Whether a user turn has no content.
pub open spec fn has_empty_user_turn(s: Seq<Message>) -> bool {
    exists|i: int| 0 <= i < s.len() && empty_user_turn(#[trigger] s[i])
}

/// Whether a message is a user turn without content.
pub open spec fn empty_user_turn(m: Message) -> bool {
    m matches Message::User { content } && content@.len() == 0
}

/// Whether a tool asks for a strict schema.
pub open spec fn has_strict_tool(s: Seq<ToolSpec>) -> bool {
    exists|i: int| 0 <= i < s.len() && (#[trigger] s[i]).input_schema.strict
}

/// All messages of a request on the wire.
pub open spec fn request_messages(req: ChatRequest) -> Seq<JsonView> {
    match req.system {
        Some(s) => seq![JsonView::Obj(turn("system"@, seq![text_block(s@)]))] + messages_json(
            req.messages@,
            true,
        ),
        None => messages_json(req.messages@, false),
    }
}

/// The body of a request for a model.
pub open spec fn request_body(req: ChatRequest, model: Seq<char>) -> JsonView {
    let b0 = map![
        "model"@ => jstr(model),
        "messages"@ => JsonView::Arr(request_messages(req)),
        "stream"@ => JsonView::Bool(true),
        "stream_options"@ => JsonView::Obj(map!["include_usage"@ => JsonView::Bool(true)]),
    ];
    let b1 = match req.max_output_tokens {
        Some(n) => b0.insert(
            if takes_completion_tokens(model) {
                "max_completion_tokens"@
            } else {
                "max_tokens"@
            },
            jint(n as int),
        ),
        None => b0,
    };
    let b2 = match req.temperature {
        Some(t) => b1.insert("temperature"@, JsonView::Num(number_view(t))),
        None => b1,
    };
    let b3 = if req.stop_sequences@.len() > 0 {
        b2.insert("stop"@, JsonView::Arr(str_items(req.stop_sequences@)))
    } else {
        b2
    };
    let b4 = match req.seed {
        Some(n) => b3.insert("seed"@, jint(n as int)),
        None => b3,
    };
    let b5 = if req.tools@.len() > 0 {
        let t = b4.insert("tools"@, JsonView::Arr(tools_json(req.tools@))).insert(
            "tool_choice"@,
            choice_json(req.tool_choice),
        );
        if has_strict_tool(req.tools@) {
            t.insert("parallel_tool_calls"@, JsonView::Bool(true))
        } else {
            t
        }
    } else {
        b4
    };
    let b6 = match req.structured_output {
        Some(schema) => b5.insert(
            "response_format"@,
            JsonView::Obj(
                map![
                    "type"@ => jstr("json_schema"@),
                    "json_schema"@ => JsonView::Obj(
                        map![
                            "name"@ => jstr(
                                match schema.name {
                                    Some(n) => n@,
                                    None => "Response"@,
                                },
                            ),
                            "schema"@ => schema.schema@,
                            "strict"@ => JsonView::Bool(schema.strict),
                        ],
                    ),
                ],
            ),
        ),
        None => b5,
    };
    let b7 = match req.enable_chat_template_thinking {
        Some(on) => b6.insert(
            "chat_template_kwargs"@,
            JsonView::Obj(map!["enable_thinking"@ => JsonView::Bool(on)]),
        ),
        None => b6,
    };
    JsonView::Obj(b7)
}

/// The body of a request, or why there is none.
pub open spec fn translated(req: ChatRequest) -> Result<JsonView, ErrorView> {
    match req.model.explicit_view() {
        None => Err(ErrorView::InvalidRequest("model must be explicit"@)),
        Some(model) => if has_empty_user_turn(req.messages@) {
            Err(ErrorView::InvalidRequest("Message::User content must not be empty"@))
        } else {
            Ok(request_body(req, model))
        },
    }
}

/// Writes a content block.
fn translate_block(b: &ContentBlock) -> (r: Json)
    ensures
        r@ == block_json(*b),
{
    match b {
        ContentBlock::Text { text } => translate_text(text.as_str()),
        ContentBlock::Image { mime, data } => {
            let url: String = match data {
                ImageData::Url(u) => u.clone(),
                ImageData::Base64(d) => {
                    let mut s: String = "data:".to_owned();
                    s.append(mime.as_str());
                    s.append(";base64,");
                    s.append(d.as_str());
                    s
                },
            };
            Json::object().with("type", Json::text("image_url")).with(
                "image_url",
                Json::object().with("url", Json::Str(url)),
            )
        },
    }
}

/// Writes a block of text.
fn translate_text(s: &str) -> (r: Json)
    ensures
        r@ == text_block(s@),
{
    Json::object().with("type", Json::text("text")).with("text", Json::text(s))
}

/// Writes content blocks behind those that are there.
fn append_content(out: &mut Vec<Json>, blocks: &Vec<ContentBlock>)
    ensures
        items_view(final(out)@) == items_view(old(out)@) + content_json(blocks@),
{
    let ghost before = items_view(out@);
    let mut i: usize = 0;
    assert(before + content_json(blocks@).take(0) =~= before);
    while i < blocks.len()
        invariant
            i <= blocks@.len(),
            items_view(out@) == before + content_json(blocks@).take(i as int),
        decreases blocks@.len() - i,
    {
        push_item(out, translate_block(&blocks[i]));
        assert((before + content_json(blocks@).take(i as int)).push(block_json(blocks@[i as int]))
            =~= before + content_json(blocks@).take(i + 1));
        i += 1;
    }
    assert(content_json(blocks@).take(blocks@.len() as int) =~= content_json(blocks@));
}

/// The adapter for OpenAI's chat completions API.
pub struct OpenAiAdapter {
    pub base_url: String,
    pub extras: HttpProviderExtras,
}

/// The headers of a request, or why there are none.
pub open spec fn auth_headers(auth: AuthView) -> Result<Seq<(Seq<char>, Seq<char>)>, ErrorView> {
    match auth {
        AuthView::Absent => Ok(seq![]),
        AuthView::Bearer(t) | AuthView::ApiKey(t) => if header_text("Bearer "@ + t) {
            Ok(seq![("authorization"@, "Bearer "@ + t)])
        } else {
            Err(ErrorView::Internal("bad auth header: "@ + "failed to parse header value"@))
        },
    }
}

/// The headers of a request with a JSON body, or why there are none.
pub open spec fn request_headers(auth: AuthView) -> Result<
    Seq<(Seq<char>, Seq<char>)>,
    ErrorView,
> {
    match auth_headers(auth) {
        Ok(h) => Ok(seq![("content-type"@, "application/json"@)] + h),
        Err(e) => Err(e),
    }
}

/// The value of the authorization header.
fn bearer_value(t: &str) -> (r: Result<String, ProviderError>)
    ensures
        match r {
            Ok(v) => header_text("Bearer "@ + t@) && v@ == "Bearer "@ + t@,
            Err(e) => !header_text("Bearer "@ + t@) && e@ == ErrorView::Internal(
                "bad auth header: "@ + "failed to parse header value"@,
            ),
        },
{
    let mut value: String = "Bearer ".to_owned();
    value.append(t);
    if let Err(e) = check_header(value.as_str()) {
        let mut msg: String = "bad auth header: ".to_owned();
        msg.append(e.as_str());
        return Err(ProviderError::Internal(msg));
    }
    Ok(value)
}

/// The authorization header alone, for a body that brings its own content type.
pub fn openai_auth_only_headers(auth: &ResolvedAuth) -> (r: Result<
    Vec<(String, String)>,
    ProviderError,
>)
    ensures
        headers_result(r) == auth_headers(auth@),
{
    let mut h: Vec<(String, String)> = Vec::new();
    let token: &String = match auth {
        ResolvedAuth::Bearer(t) => t,
        ResolvedAuth::ApiKey(t) => t,
        ResolvedAuth::Absent => {
            assert(header_views(h@) =~= seq![]);
            return Ok(h);
        },
    };
    match bearer_value(token.as_str()) {
        Err(e) => Err(e),
        Ok(value) => {
            h.push(("authorization".to_owned(), value));
            assert(header_views(h@) =~= seq![("authorization"@, "Bearer "@ + token@)]);
            Ok(h)
        },
    }
}

/// What a failed HTTP exchange means, from the status, the delay that the server
/// asks for, its message, the message in lower case and the status written out.
pub open spec fn failure(
    status: u16,
    retry: Option<u64>,
    message: Seq<char>,
    lower: Seq<char>,
    line: Seq<char>,
) -> ErrorView {
    if status == 401 || status == 403 {
        ErrorView::Auth(message)
    } else if status == 429 {
        ErrorView::RateLimited { retry_after_ms: retry }
    } else if status == 413 {
        ErrorView::ContextTooLong { limit: 0, requested: 0 }
    } else if status == 400 || status == 422 {
        if has_part(lower, "context_length"@) || has_part(lower, "maximum context length"@)
            || has_part(lower, "too many tokens"@) {
            ErrorView::ContextTooLong { limit: 0, requested: 0 }
        } else {
            ErrorView::InvalidRequest(message)
        }
    } else if status == 503 || status == 504 {
        ErrorView::ModelOverloaded
    } else if 500 <= status < 600 {
        ErrorView::Internal("status "@ + line + ": "@ + message)
    } else {
        ErrorView::InvalidRequest("status "@ + line + ": "@ + message)
    }
}

/// Classifies a failed HTTP exchange.
pub fn classify(
    status: u16,
    retry: Option<u64>,
    message: String,
    lower: &str,
    line: &str,
) -> (r: ProviderError)
    ensures
        r@ == failure(status, retry, message@, lower@, line@),
{
    if status == 401 || status == 403 {
        ProviderError::Auth(message)
    } else if status == 429 {
        ProviderError::RateLimited { retry_after_ms: retry }
    } else if status == 413 {
        ProviderError::ContextTooLong { limit: 0, requested: 0 }
    } else if status == 400 || status == 422 {
        if contains_text(lower, "context_length") || contains_text(lower, "maximum context length")
            || contains_text(lower, "too many tokens") {
            ProviderError::ContextTooLong { limit: 0, requested: 0 }
        } else {
            ProviderError::InvalidRequest(message)
        }
    } else if status == 503 || status == 504 {
        ProviderError::ModelOverloaded
    } else {
        let text: String = status_message(line, message.as_str());
        if 500 <= status && status < 600 {
            ProviderError::Internal(text)
        } else {
            ProviderError::InvalidRequest(text)
        }
    }
}

impl OpenAiAdapter {
    /// The parameter by which a model takes its output limit.
    pub fn max_tokens_field(model: &str) -> (r: &'static str)
        ensures
            r@ == (if takes_completion_tokens(model@) {
                "max_completion_tokens"@
            } else {
                "max_tokens"@
            }),
    {
        if begins_with(model, "gpt-5") || begins_with(model, "o1") || begins_with(model, "o3")
            || begins_with(model, "o4") {
            "max_completion_tokens"
        } else {
            "max_tokens"
        }
    }

    /// Writes content blocks.
    pub fn translate_content(blocks: &Vec<ContentBlock>) -> (r: Json)
        ensures
            r@ == JsonView::Arr(content_json(blocks@)),
    {
        let mut out: Vec<Json> = Vec::new();
        append_content(&mut out, blocks);
        assert(items_view(out@) =~= content_json(blocks@));
        Json::Arr(out)
    }

    /// Writes a message.
    pub fn translate_message(m: &Message) -> (r: Json)
        ensures
            r@ == message_json(*m),
    {
        match m {
            Message::User { content } => Json::object().with("role", Json::text("user")).with(
                "content",
                Self::translate_content(content),
            ),
            Message::Assistant { content, tool_calls } => {
                let mut out: Json = Json::object().with("role", Json::text("assistant")).with(
                    "content",
                    Self::translate_content(content),
                );
                if tool_calls.len() > 0 {
                    let mut calls: Vec<Json> = Vec::new();
                    let mut i: usize = 0;
                    assert(items_view(calls@) =~= calls_json(tool_calls@).take(0));
                    while i < tool_calls.len()
                        invariant
                            i <= tool_calls@.len(),
                            items_view(calls@) == calls_json(tool_calls@).take(i as int),
                        decreases tool_calls@.len() - i,
                    {
                        let tc: &ToolCall = &tool_calls[i];
                        push_item(
                            &mut calls,
                            Json::object().with("id", Json::Str(tc.id.clone())).with(
                                "type",
                                Json::text("function"),
                            ).with(
                                "function",
                                Json::object().with("name", Json::Str(tc.name.clone())).with(
                                    "arguments",
                                    Json::Str(print_json(&tc.arguments)),
                                ),
                            ),
                        );
                        assert(calls_json(tool_calls@).take(i + 1) =~= calls_json(
                            tool_calls@,
                        ).take(i as int).push(call_json(tool_calls@[i as int])));
                        i += 1;
                    }
                    assert(calls_json(tool_calls@).take(tool_calls@.len() as int) =~= calls_json(
                        tool_calls@,
                    ));
                    out.set("tool_calls", Json::Arr(calls));
                }
                out
            },
            Message::Tool { tool_call_id, content, is_error } => {
                let mut blocks: Vec<Json> = Vec::new();
                assert(items_view(blocks@) =~= seq![]);
                if *is_error {
                    push_item(&mut blocks, translate_text("[tool execution failed]\n"));
                    assert(items_view(blocks@) =~= seq![text_block("[tool execution failed]\n"@)]);
                }
                append_content(&mut blocks, content);
                assert(seq![] + content_json(content@) =~= content_json(content@));
                Json::object().with("role", Json::text("tool")).with(
                    "tool_call_id",
                    Json::Str(tool_call_id.clone()),
                ).with("content", Json::Arr(blocks))
            },
            Message::System { content } => Json::object().with("role", Json::text("system")).with(
                "content",
                Self::translate_content(content),
            ),
        }
    }

    /// Writes the tools of a request.
    pub fn translate_tools(tools: &Vec<ToolSpec>) -> (r: Json)
        ensures
            r@ == JsonView::Arr(tools_json(tools@)),
    {
        let mut out: Vec<Json> = Vec::new();
        let mut i: usize = 0;
        assert(items_view(out@) =~= tools_json(tools@).take(0));
        while i < tools.len()
            invariant
                i <= tools@.len(),
                items_view(out@) == tools_json(tools@).take(i as int),
            decreases tools@.len() - i,
        {
            let t: &ToolSpec = &tools[i];
            push_item(
                &mut out,
                Json::object().with("type", Json::text("function")).with(
                    "function",
                    Json::object().with("name", Json::Str(t.name.clone())).with(
                        "description",
                        Json::Str(t.description.clone()),
                    ).with("parameters", t.input_schema.schema.clone()).with(
                        "strict",
                        Json::Bool(t.input_schema.strict),
                    ),
                ),
            );
            assert(tools_json(tools@).take(i + 1) =~= tools_json(tools@).take(i as int).push(
                tool_json(tools@[i as int]),
            ));
            i += 1;
        }
        assert(tools_json(tools@).take(tools@.len() as int) =~= tools_json(tools@));
        Json::Arr(out)
    }

    /// Writes the messages of a request.
    fn translate_messages(req: &ChatRequest) -> (r: Json)
        ensures
            r@ == JsonView::Arr(request_messages(*req)),
    {
        let mut out: Vec<Json> = Vec::new();
        assert(items_view(out@) =~= seq![]);
        let has_system: bool = req.system.is_some();
        if let Some(s) = &req.system {
            push_item(
                &mut out,
                Json::object().with("role", Json::text("system")).with(
                    "content",
                    one_item(translate_text(s.as_str())),
                ),
            );
        }
        let ghost head = items_view(out@);
        let mut i: usize = 0;
        assert(req.messages@.take(0) =~= seq![]);
        assert(head + messages_json(req.messages@.take(0), has_system) =~= head);
        while i < req.messages.len()
            invariant
                i <= req.messages@.len(),
                items_view(out@) == head + messages_json(req.messages@.take(i as int), has_system),
            decreases req.messages@.len() - i,
        {
            let ghost before = messages_json(req.messages@.take(i as int), has_system);
            proof {
                let p = req.messages@.take(i + 1);
                assert(p.drop_last() =~= req.messages@.take(i as int));
                assert(p.last() == req.messages@[i as int]);
            }
            let inline: bool = match &req.messages[i] {
                Message::System { .. } => true,
                _ => false,
            };
            if !(has_system && inline) {
                push_item(&mut out, Self::translate_message(&req.messages[i]));
                assert((head + before).push(message_json(req.messages@[i as int])) =~= head
                    + before.push(message_json(req.messages@[i as int])));
            }
            i += 1;
        }
        assert(req.messages@.take(req.messages@.len() as int) =~= req.messages@);
        assert(items_view(out@) =~= request_messages(*req));
        Json::Arr(out)
    }

    /// Writes the body of a request.
    pub fn translate_request(&self, req: &ChatRequest) -> (r: Result<Json, ProviderError>)
        ensures
            json_result(r) == translated(*req),
    {
        let model: &str = match req.model.explicit() {
            Some(m) => m,
            None => {
                return Err(ProviderError::InvalidRequest("model must be explicit".to_owned()));
            },
        };
        let mut i: usize = 0;
        while i < req.messages.len()
            invariant
                i <= req.messages@.len(),
                req.model.explicit_view() == Some(model@),
                forall|j: int| 0 <= j < i ==> !empty_user_turn(#[trigger] req.messages@[j]),
            decreases req.messages@.len() - i,
        {
            if let Message::User { content } = &req.messages[i] {
                if content.len() == 0 {
                    assert(empty_user_turn(req.messages@[i as int]));
                    return Err(
                        ProviderError::InvalidRequest(
                            "Message::User content must not be empty".to_owned(),
                        ),
                    );
                }
            }
            i += 1;
        }
        let mut body: Json = Json::object().with("model", Json::text(model)).with(
            "messages",
            Self::translate_messages(req),
        ).with("stream", Json::Bool(true)).with(
            "stream_options",
            Json::object().with("include_usage", Json::Bool(true)),
        );
        if let Some(n) = req.max_output_tokens {
            body.set(Self::max_tokens_field(model), Json::Uint(n as u64));
        }
        if let Some(t) = &req.temperature {
            body.set("temperature", Json::Num(t.clone()));
        }
        if req.stop_sequences.len() > 0 {
            body.set("stop", str_array(&req.stop_sequences));
        }
        if let Some(n) = req.seed {
            body.set("seed", Json::Uint(n));
        }
        if req.tools.len() > 0 {
            body.set("tools", Self::translate_tools(&req.tools));
            let choice: Json = match &req.tool_choice {
                ToolChoice::Auto => Json::text("auto"),
                ToolChoice::NoTool => Json::text("none"),
                ToolChoice::Required => Json::text("required"),
                ToolChoice::Specific(name) => Json::object().with(
                    "type",
                    Json::text("function"),
                ).with("function", Json::object().with("name", Json::Str(name.clone()))),
            };
            body.set("tool_choice", choice);
            let mut strict: bool = false;
            let mut k: usize = 0;
            while k < req.tools.len()
                invariant
                    k <= req.tools@.len(),
                    strict == (exists|j: int|
                        0 <= j < k && (#[trigger] req.tools@[j]).input_schema.strict),
                decreases req.tools@.len() - k,
            {
                if req.tools[k].input_schema.strict {
                    assert(req.tools@[k as int].input_schema.strict);
                    strict = true;
                }
                k += 1;
            }
            if strict {
                body.set("parallel_tool_calls", Json::Bool(true));
            }
        }
        if let Some(schema) = &req.structured_output {
            let name: Json = match &schema.name {
                Some(n) => Json::Str(n.clone()),
                None => Json::text("Response"),
            };
            body.set(
                "response_format",
                Json::object().with("type", Json::text("json_schema")).with(
                    "json_schema",
                    Json::object().with("name", name).with("schema", schema.schema.clone()).with(
                        "strict",
                        Json::Bool(schema.strict),
                    ),
                ),
            );
        }
        if let Some(on) = req.enable_chat_template_thinking {
            body.set(
                "chat_template_kwargs",
                Json::object().with("enable_thinking", Json::Bool(on)),
            );
        }
        Ok(body)
    }

    /// The text of a URL under the base URL.
    pub fn url_text(&self, path: &str, suffix: &str) -> (r: String)
        ensures
            r@ == no_end_slash(self.base_url@) + path@ + suffix@,
    {
        let mut url: String = trim_end_slashes(self.base_url.as_str());
        url.append(path);
        url.append(suffix);
        url
    }

    /// The URL of chat completions. It is the same for every model.
    pub fn build_url(&self, _model: &str) -> (r: Result<String, ProviderError>)
        ensures
            text_result(r) == url_outcome(
                url_parse(no_end_slash(self.base_url@) + "/chat/completions"@),
                "bad base_url: "@,
            ),
    {
        proof {
            reveal_strlit("");
        }
        let text: String = self.url_text("/chat/completions", "");
        assert(text@ =~= no_end_slash(self.base_url@) + "/chat/completions"@);
        url_or_error(parse_url(text.as_str()), "bad base_url: ")
    }

    /// A URL for the upload and download of files.
    pub fn files_url(&self, suffix: &str) -> (r: Result<String, ProviderError>)
        ensures
            text_result(r) == url_outcome(
                url_parse(no_end_slash(self.base_url@) + "/files"@ + suffix@),
                "bad openai files url: "@,
            ),
    {
        url_or_error(
            parse_url(self.url_text("/files", suffix).as_str()),
            "bad openai files url: ",
        )
    }

    /// A URL for batches: `""` is the collection, `"/<id>"` one job.
    pub fn batches_url(&self, suffix: &str) -> (r: Result<String, ProviderError>)
        ensures
            text_result(r) == url_outcome(
                url_parse(no_end_slash(self.base_url@) + "/batches"@ + suffix@),
                "bad openai batches url: "@,
            ),
    {
        url_or_error(
            parse_url(self.url_text("/batches", suffix).as_str()),
            "bad openai batches url: ",
        )
    }

    /// The headers of a request with a JSON body.
    pub fn build_headers(&self, auth: &ResolvedAuth) -> (r: Result<
        Vec<(String, String)>,
        ProviderError,
    >)
        ensures
            headers_result(r) == request_headers(auth@),
    {
        let mut h: Vec<(String, String)> = Vec::new();
        h.push(("content-type".to_owned(), "application/json".to_owned()));
        match openai_auth_only_headers(auth) {
            Err(e) => Err(e),
            Ok(rest) => {
                let ghost tail = rest@;
                let mut more: Vec<(String, String)> = rest;
                h.append(&mut more);
                assert(header_views(h@) =~= seq![("content-type"@, "application/json"@)]
                    + header_views(tail));
                Ok(h)
            },
        }
    }

    /// What a failed HTTP exchange means.
    pub fn classify_error(&self, status: u16, headers: &Vec<(String, String)>, body: &str) -> (r:
        ProviderError)
        requires
            100 <= status <= 999,
        ensures
            r@ == failure(
                status,
                retry_after(headers@),
                failure_message(body@),
                lowercase(failure_message(body@)),
                http_status_text(status),
            ),
    {
        let message: String = error_message(body);
        let lower: String = to_lowercase(message.as_str());
        let line: String = status_text(status);
        classify(status, parse_retry_after(headers), message, lower.as_str(), line.as_str())
    }

    /// The headers that the deployment adds.
    pub fn extras(&self) -> (r: &HttpProviderExtras)
        ensures
            *r == self.extras,
    {
        &self.extras
    }

    /// Reads one server-sent event.
    pub fn parse_event(&self, raw: &SseEvent, buf: &mut ToolCallBuffer) -> (r: Result<
        Vec<ChatEvent>,
        ProviderError,
    >)
        ensures
            (events_result(r), final(buf)@) == event_outcome(raw.data@, old(buf)@),
    {
        if same(trim(raw.data.as_str()).as_str(), "[DONE]") {
            return parse_done(buf);
        }
        match parse_json(raw.data.as_str()) {
            Err(e) => {
                let mut msg: String = "openai sse json: ".to_owned();
                msg.append(e.as_str());
                msg.append(" (raw: ");
                msg.append(truncate(raw.data.as_str(), 200).as_str());
                msg.append(")");
                Err(ProviderError::Parse(msg))
            },
            Ok(v) => parse_chunk(&v, buf),
        }
    }
}

} // verus!
