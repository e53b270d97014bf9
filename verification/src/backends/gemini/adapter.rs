//! Translation to and from Gemini's wire format.

use crate::auth::{AuthView, ResolvedAuth};
use crate::backends::gemini::mapping::{
    map_stop_reason, parse_usage, percent_encoded, stop_reason, urlencoding, usage_of,
};
use crate::http_base::{
    ellipsized, error_message, failure_message, header_views, http_status_text, lowercase,
    no_end_slash, parse_retry_after, parse_url, retry_after, status_message, status_text,
    to_lowercase, trim_end_slashes, truncate, url_or_error, url_outcome, url_parse,
    HttpProviderExtras, SseEvent,
};
use crate::json::{
    at, items_view, jint, jstr, lemma_items, number_view, one_item, parse_json, plain, print_json,
    push_item, serde_parse, serde_print, str_array, str_items, Json, JsonView, MAX_DEPTH,
};
use crate::stream::{step, Step};
use crate::text::{chars_of, contains_text, decimal, decimal_of, has_part, same, text_of_range};
use crate::tool_buffer::{BufferView, ToolCallBuffer};
use crate::types::{
    emit, events, events_result, json_result, started_event, text_result, CacheDirective, ChatEvent,
    ChatRequest, ContentBlock, ErrorView, EventView, ImageData, Message, ModelHint, ProviderError,
    StopReason, ThinkingMode, ToolCall, ToolChoice, ToolSpec,
};
use vstd::prelude::*;
use vstd::string::*;
use vstd::utf8::*;

verus! {

/// The position of the first at sign, or the end of the text.
pub open spec fn first_at(s: Seq<char>) -> int
    decreases s.len(),
{
    if s.len() == 0 || s[0] == '@' {
        0
    } else {
        1 + first_at(s.drop_first())
    }
}

/// The function that a tool call id names: what stands before its first at sign.
pub open spec fn function_of(id: Seq<char>) -> Option<Seq<char>> {
    if 0 < first_at(id) < id.len() {
        Some(id.take(first_at(id)))
    } else {
        None
    }
}

/// The id of the call with this index within a reply. It begins with the name of
/// the function, since Gemini asks for the name when the result is handed back.
pub open spec fn call_id(name: Seq<char>, index: usize) -> Seq<char> {
    name + "@gemini-call-"@ + decimal(index as nat)
}

/// Nothing before the first at sign is one.
pub proof fn lemma_first_at(s: Seq<char>)
    ensures
        0 <= first_at(s) <= s.len(),
        forall|i: int| 0 <= i < first_at(s) ==> #[trigger] s[i] != '@',
        first_at(s) < s.len() ==> s[first_at(s)] == '@',
    decreases s.len(),
{
    if s.len() > 0 && s[0] != '@' {
        let t = s.drop_first();
        lemma_first_at(t);
        assert forall|i: int| 0 <= i < first_at(s) implies #[trigger] s[i] != '@' by {
            if i > 0 {
                assert(t[i - 1] == s[i]);
            }
        }
    }
}

/// The id that is given to a tool call names its function, so that the result of
/// the call can be handed back. A name that is empty or has an at sign in it is no
/// function name that could be found again.
pub proof fn law_call_id_names_function(name: Seq<char>, index: usize)
    requires
        name.len() > 0,
        !name.contains('@'),
    ensures
        function_of(call_id(name, index)) == Some(name),
{
    let id = call_id(name, index);
    reveal_strlit("@gemini-call-");
    lemma_first_at(id);
    assert(id[name.len() as int] == '@');
    assert forall|i: int| 0 <= i < name.len() implies #[trigger] id[i] != '@' by {
        assert(id[i] == name[i]);
    }
    assert(first_at(id) == name.len());
    assert(id.take(name.len() as int) =~= name);
}

/// Whether a part asks for a function call.
pub open spec fn is_call(part: JsonView) -> bool {
    part.get("functionCall"@) is Some
}

/// How many parts ask for a function call.
pub open spec fn calls_in(parts: Seq<JsonView>) -> nat
    decreases parts.len(),
{
    if parts.len() == 0 {
        0
    } else {
        calls_in(parts.drop_last()) + if is_call(parts.last()) {
            1nat
        } else {
            0nat
        }
    }
}

/// The state after the text of a part has been read.
pub open spec fn text_read(st: Step, part: JsonView) -> Step {
    let text = part.str_or("text"@, ""@);
    if text.len() == 0 {
        st
    } else if part.true_at("thought"@) {
        st.push(EventView::ThinkingDelta { text })
    } else {
        st.push(EventView::Delta { text })
    }
}

/// The arguments of a function call; none are the empty object.
pub open spec fn args_of(fc: JsonView) -> JsonView {
    match fc.get("args"@) {
        Some(a) => a,
        None => JsonView::Obj(Map::empty()),
    }
}

/// The event that hands out the function call in a part, with the arguments that came.
pub open spec fn call_end(part: JsonView, index: usize) -> EventView {
    let fc = part.at("functionCall"@);
    EventView::ToolCallEnd {
        index,
        id: call_id(fc.str_or("name"@, ""@), index),
        parsed_args: args_of(fc),
    }
}

/// Whether the arguments of every function call in the parts can be printed and read
/// back.
pub open spec fn plain_calls(parts: Seq<JsonView>) -> bool {
    forall|i: int|
        0 <= i < parts.len() && is_call(#[trigger] parts[i]) ==> plain(
            args_of(parts[i].at("functionCall"@)),
            MAX_DEPTH as nat,
        )
}

/// Whether every function call in the parts is handed out with the arguments that came.
pub open spec fn calls_kept(parts: Seq<JsonView>, out: Seq<EventView>) -> bool {
    forall|i: int|
        0 <= i < parts.len() && is_call(#[trigger] parts[i]) ==> out.contains(
            call_end(parts[i], calls_in(parts.take(i)) as usize),
        )
}

/// The state after a function call has been read. Its arguments come whole, and
/// are handed out as one piece.
pub open spec fn call_read(st: Step, fc: JsonView, index: usize) -> Step {
    let name = fc.str_or("name"@, ""@);
    let id = call_id(name, index);
    let args = args_of(fc);
    let buf = st.buf.on_start(index, id, name).on_delta(index, serde_print(args));
    let next = Step {
        out: st.out.push(EventView::ToolCallStart { index, id, name }).push(
            EventView::ToolCallArgsDelta { index, args_delta: serde_print(args) },
        ),
        buf: buf.without(index),
        ..st
    };
    match buf.finalized(index) {
        Ok((i, n, parsed)) => next.push(EventView::ToolCallEnd { index, id: i, parsed_args: parsed }),
        Err(e) => next.fail(e),
    }
}

/// The state after one part has been read, the first part with a call before it
/// having index zero.
pub open spec fn part_read(st: Step, part: JsonView, index: usize) -> Step {
    let s1 = text_read(st, part);
    if is_call(part) {
        call_read(s1, part.at("functionCall"@), index)
    } else {
        s1
    }
}

/// The state after the parts of a candidate have been read.
pub open spec fn parts_read(st: Step, parts: Seq<JsonView>) -> Step
    decreases parts.len(),
{
    if parts.len() == 0 {
        st
    } else {
        let before = parts_read(st, parts.drop_last());
        if before.err is Some {
            before
        } else {
            part_read(before, parts.last(), calls_in(parts.drop_last()) as usize)
        }
    }
}

/// Why a candidate ended. Gemini has no reason of its own for a tool call.
pub open spec fn final_stop(reason: Seq<char>, calls: nat) -> StopReason {
    if calls > 0 && stop_reason(reason) == StopReason::EndTurn {
        StopReason::ToolUse
    } else {
        stop_reason(reason)
    }
}

/// The parts of a candidate.
pub open spec fn parts_of(cand: JsonView) -> Seq<JsonView> {
    match cand.at("content"@).at("parts"@).as_arr() {
        Some(parts) => parts,
        None => seq![],
    }
}

/// The state after a candidate has been read.
pub open spec fn candidate_read(st: Step, cand: JsonView, v: JsonView) -> Step {
    let parts = parts_of(cand);
    let s1 = parts_read(st, parts);
    if s1.err is Some {
        s1
    } else {
        match cand.at("finishReason"@).as_str() {
            None => s1,
            Some(reason) => s1.push(
                EventView::Finished {
                    stop_reason: final_stop(reason, calls_in(parts)),
                    usage: usage_of(v.at("usageMetadata"@)),
                },
            ),
        }
    }
}

/// The parts of the candidate that counts in a chunk.
pub open spec fn parts_in(v: JsonView) -> Seq<JsonView> {
    match v.at("candidates"@).as_arr() {
        Some(candidates) if candidates.len() > 0 => parts_of(candidates[0]),
        _ => seq![],
    }
}

/// Whether the function calls of a chunk come out as they came in, if their arguments
/// can be printed and read back.
pub open spec fn arguments_kept(v: JsonView, r: Result<Seq<EventView>, ErrorView>) -> bool {
    parts_in(v).len() > 0 && plain_calls(parts_in(v)) ==> (r matches Ok(out) && calls_kept(
        parts_in(v),
        out,
    ))
}

/// The outcome of a chunk. Only its first candidate counts. A chunk without
/// candidates says that the prompt was blocked, or nothing.
pub open spec fn chunk_read(v: JsonView, buf: BufferView) -> Step {
    let none = Step { out: seq![], buf, err: None };
    match v.at("candidates"@).as_arr() {
        None => match v.get("promptFeedback"@) {
            Some(fb) => none.fail(
                ErrorView::ContentFiltered { category: fb.str_or("blockReason"@, "safety"@) },
            ),
            None => none,
        },
        Some(candidates) => {
            let model = v.str_or("modelVersion"@, ""@);
            let st = if model.len() > 0 {
                none.push(started_event(model))
            } else {
                none
            };
            if candidates.len() > 0 {
                candidate_read(st, candidates[0], v)
            } else {
                st
            }
        },
    }
}

/// The outcome of one server-sent event, and the buffer after it.
pub open spec fn event_outcome(data: Seq<char>, buf: BufferView) -> (
    Result<Seq<EventView>, ErrorView>,
    BufferView,
) {
    if data.len() == 0 {
        (Ok(seq![]), buf)
    } else {
        match serde_parse(data) {
            Err(e) => (
                Err(
                    ErrorView::Parse(
                        "gemini sse: "@ + e + " (raw: "@ + ellipsized(data, 200) + ")"@,
                    ),
                ),
                buf,
            ),
            Ok(v) => chunk_read(v, buf).outcome(),
        }
    }
}

/// How many events end the stream.
pub open spec fn ends(s: Seq<EventView>) -> nat
    decreases s.len(),
{
    if s.len() == 0 {
        0
    } else {
        ends(s.drop_last()) + if s.last() is Finished {
            1nat
        } else {
            0nat
        }
    }
}

proof fn lemma_ends_push(s: Seq<EventView>, e: EventView)
    ensures
        ends(s.push(e)) == ends(s) + if e is Finished {
            1nat
        } else {
            0nat
        },
{
    assert(s.push(e).drop_last() =~= s);
}

proof fn lemma_parts_end_nothing(st: Step, parts: Seq<JsonView>)
    ensures
        ends(parts_read(st, parts).out) == ends(st.out),
    decreases parts.len(),
{
    if parts.len() > 0 {
        lemma_parts_end_nothing(st, parts.drop_last());
        let before = parts_read(st, parts.drop_last());
        if before.err is None {
            let part = parts.last();
            let text = part.str_or("text"@, ""@);
            lemma_ends_push(before.out, EventView::ThinkingDelta { text });
            lemma_ends_push(before.out, EventView::Delta { text });
            let s1 = text_read(before, part);
            if is_call(part) {
                let fc = part.at("functionCall"@);
                let index = calls_in(parts.drop_last()) as usize;
                let name = fc.str_or("name"@, ""@);
                let id = call_id(name, index);
                let args = args_of(fc);
                let e1 = EventView::ToolCallStart { index, id, name };
                let e2 = EventView::ToolCallArgsDelta { index, args_delta: serde_print(args) };
                lemma_ends_push(s1.out, e1);
                lemma_ends_push(s1.out.push(e1), e2);
                let buf = s1.buf.on_start(index, id, name).on_delta(index, serde_print(args));
                if let Ok((i, n, parsed)) = buf.finalized(index) {
                    lemma_ends_push(
                        s1.out.push(e1).push(e2),
                        EventView::ToolCallEnd { index, id: i, parsed_args: parsed },
                    );
                }
            }
        }
    }
}

/// A chunk ends the stream at most once, however many candidates it holds.
pub proof fn law_finished_at_most_once(v: JsonView, buf: BufferView)
    ensures
        ends(chunk_read(v, buf).out) <= 1,
{
    let none = Step { out: seq![], buf, err: None };
    let model = v.str_or("modelVersion"@, ""@);
    lemma_ends_push(none.out, started_event(model));
    let st = if model.len() > 0 {
        none.push(started_event(model))
    } else {
        none
    };
    if let Some(candidates) = v.at("candidates"@).as_arr() {
        if candidates.len() > 0 {
            let cand = candidates[0];
            let parts = parts_of(cand);
            lemma_parts_end_nothing(st, parts);
            let s1 = parts_read(st, parts);
            if let Some(reason) = cand.at("finishReason"@).as_str() {
                lemma_ends_push(
                    s1.out,
                    EventView::Finished {
                        stop_reason: final_stop(reason, calls_in(parts)),
                        usage: usage_of(v.at("usageMetadata"@)),
                    },
                );
            }
        }
    }
}

/// Reads the text of a part.
fn read_text(part: &Json, out: &mut Vec<ChatEvent>, Ghost(buf): Ghost<BufferView>)
    ensures
        step(final(out)@, buf, Ok(())) == text_read(step(old(out)@, buf, Ok(())), part@),
        forall|e: EventView|
            events(old(out)@).contains(e) ==> #[trigger] events(final(out)@).contains(e),
{
    proof {
        reveal_strlit("");
        assert forall|e: EventView, last: EventView|
            events(old(out)@).contains(e) implies #[trigger] events(old(out)@).push(last).contains(
            e,
        ) by {
            let s = events(old(out)@);
            let i = choose|i: int| 0 <= i < s.len() && s[i] == e;
            assert(s.push(last)[i] == e);
        }
    }
    let text: String = part.str_or("text", "");
    if !text.as_str().is_empty() {
        if part.true_at("thought") {
            emit(out, ChatEvent::ThinkingDelta { text });
        } else {
            emit(out, ChatEvent::Delta { text });
        }
    }
}

/// Reads a function call.
fn read_call(fc: &Json, index: usize, buf: &mut ToolCallBuffer, out: &mut Vec<ChatEvent>) -> (r:
    Result<(), ProviderError>)
    ensures
        step(final(out)@, final(buf)@, r) == call_read(
            step(old(out)@, old(buf)@, Ok(())),
            fc@,
            index,
        ),
        plain(args_of(fc@), MAX_DEPTH as nat) ==> r is Ok && events(final(out)@).len() > 0
            && events(final(out)@).last() == (EventView::ToolCallEnd {
            index,
            id: call_id(fc@.str_or("name"@, ""@), index),
            parsed_args: args_of(fc@),
        }),
        forall|e: EventView|
            events(old(out)@).contains(e) ==> #[trigger] events(final(out)@).contains(e),
{
    let ghost before = events(out@);
    let name: String = fc.str_or("name", "");
    let mut id: String = name.clone();
    id.append("@gemini-call-");
    id.append(decimal_of(index as u64).as_str());
    let args: String = match fc.get("args") {
        Some(a) => print_json(a),
        None => print_json(&Json::object()),
    };
    emit(out, ChatEvent::ToolCallStart { index, id: id.clone(), name: name.clone() });
    emit(out, ChatEvent::ToolCallArgsDelta { index, args_delta: args.clone() });
    buf.on_start(index, id, name);
    buf.on_delta(index, args.as_str());
    proof {
        assert(buf@.calls[index].args =~= args@);
        assert forall|e: EventView| before.contains(e) implies #[trigger] events(out@).contains(
            e,
        ) by {
            let i = choose|i: int| 0 <= i < before.len() && before[i] == e;
            assert(events(out@)[i] == e);
        }
    }
    let ghost pushed = events(out@);
    match buf.finalize(index) {
        Err(e) => Err(e),
        Ok((found, _name, parsed)) => {
            emit(out, ChatEvent::ToolCallEnd { index, id: found, parsed_args: parsed });
            proof {
                assert forall|e: EventView| pushed.contains(e) implies #[trigger] events(
                    out@,
                ).contains(e) by {
                    let i = choose|i: int| 0 <= i < pushed.len() && pushed[i] == e;
                    assert(events(out@)[i] == e);
                }
            }
            Ok(())
        },
    }
}

/// The parts after one that failed are not read.
proof fn lemma_parts_stop(st: Step, parts: Seq<JsonView>, k: int)
    requires
        0 <= k <= parts.len(),
        parts_read(st, parts.take(k)).err is Some,
    ensures
        parts_read(st, parts) == parts_read(st, parts.take(k)),
    decreases parts.len() - k,
{
    if k < parts.len() {
        assert(parts.take(k + 1).drop_last() =~= parts.take(k));
        lemma_parts_stop(st, parts, k + 1);
    } else {
        assert(parts.take(k) =~= parts);
    }
}

proof fn lemma_calls_bounded(parts: Seq<JsonView>)
    ensures
        calls_in(parts) <= parts.len(),
    decreases parts.len(),
{
    if parts.len() > 0 {
        lemma_calls_bounded(parts.drop_last());
    }
}

/// Reads the parts of a candidate, and counts its calls.
fn read_parts(parts: &Vec<Json>, buf: &mut ToolCallBuffer, out: &mut Vec<ChatEvent>) -> (r: Result<
    usize,
    ProviderError,
>)
    ensures
        step(
            final(out)@,
            final(buf)@,
            match r {
                Ok(_) => Ok(()),
                Err(e) => Err(e),
            },
        ) == parts_read(step(old(out)@, old(buf)@, Ok(())), items_view(parts@)),
        r matches Ok(n) ==> n == calls_in(items_view(parts@)),
        plain_calls(items_view(parts@)) ==> r is Ok && calls_kept(
            items_view(parts@),
            events(final(out)@),
        ),
{
    let ghost st = step(out@, buf@, Ok(()));
    let ghost all = items_view(parts@);
    let mut calls: usize = 0;
    let mut i: usize = 0;
    assert(all.take(0) =~= seq![]);
    while i < parts.len()
        invariant
            i <= parts@.len(),
            all == items_view(parts@),
            calls == calls_in(all.take(i as int)),
            calls <= i,
            st == step(old(out)@, old(buf)@, Ok(())),
            step(out@, buf@, Ok(())) == parts_read(st, all.take(i as int)),
            plain_calls(all) ==> calls_kept(all.take(i as int), events(out@)),
        decreases parts@.len() - i,
    {
        proof {
            lemma_items(parts@);
            assert(all.take(i + 1).drop_last() =~= all.take(i as int));
            assert(all.take(i + 1).last() == parts@[i as int]@);
            assert(all[i as int] == parts@[i as int]@);
        }
        let ghost before = events(out@);
        let ghost seen = calls;
        read_text(&parts[i], out, Ghost(buf@));
        if let Some(fc) = parts[i].get("functionCall") {
            if let Err(e) = read_call(fc, calls, buf, out) {
                proof {
                    lemma_parts_stop(st, all, i + 1);
                }
                return Err(e);
            }
            calls += 1;
        }
        proof {
            if plain_calls(all) {
                let part = all[i as int];
                let next = all.take(i + 1);
                assert forall|j: int| 0 <= j < next.len() && is_call(
                    #[trigger] next[j],
                ) implies events(out@).contains(
                    call_end(next[j], calls_in(next.take(j)) as usize),
                ) by {
                    assert(next.take(j) =~= all.take(i as int).take(j));
                    if j < i {
                        assert(all.take(i as int)[j] == next[j]);
                    } else {
                        assert(all.take(i as int).take(j) =~= all.take(i as int));
                        assert(events(out@).last() == call_end(part, seen));
                        assert(events(out@)[events(out@).len() - 1] == call_end(part, seen));
                    }
                }
            }
        }
        i += 1;
    }
    proof {
        lemma_items(parts@);
        assert(all.take(all.len() as int) =~= all);
    }
    Ok(calls)
}

/// Reads a chunk whose JSON has been parsed.
pub fn parse_chunk(v: &Json, buf: &mut ToolCallBuffer) -> (r: Result<
    Vec<ChatEvent>,
    ProviderError,
>)
    ensures
        (events_result(r), final(buf)@) == chunk_read(v@, old(buf)@).outcome(),
        arguments_kept(v@, events_result(r)),
{
    proof {
        reveal_strlit("");
    }
    let null: Json = Json::Null;
    let empty: Vec<Json> = Vec::new();
    let mut out: Vec<ChatEvent> = Vec::new();
    assert(events(out@) =~= seq![]);
    assert(items_view(empty@) =~= seq![]);
    let candidates: &Vec<Json> = match at(v, "candidates", &null).as_arr() {
        Some(c) => c,
        None => {
            if let Some(fb) = v.get("promptFeedback") {
                return Err(
                    ProviderError::ContentFiltered {
                        category: fb.str_or("blockReason", "safety"),
                    },
                );
            }
            return Ok(out);
        },
    };
    let model: String = v.str_or("modelVersion", "");
    if !model.as_str().is_empty() {
        emit(&mut out, ChatEvent::started(model.as_str()));
    }
    proof {
        lemma_items(candidates@);
    }
    if candidates.len() > 0 {
        let cand: &Json = &candidates[0];
        let parts: &Vec<Json> = match at(at(cand, "content", &null), "parts", &null).as_arr() {
            Some(p) => p,
            None => &empty,
        };
        let calls: usize = match read_parts(parts, buf, &mut out) {
            Ok(n) => n,
            Err(e) => {
                return Err(e);
            },
        };
        let ghost read = events(out@);
        assert(parts_in(v@) == items_view(parts@));
        if let Some(reason) = cand.str_at("finishReason") {
            let mut stop: StopReason = map_stop_reason(reason);
            if calls > 0 && stop == StopReason::EndTurn {
                stop = StopReason::ToolUse;
            }
            emit(
                &mut out,
                ChatEvent::Finished {
                    stop_reason: stop,
                    usage: parse_usage(at(v, "usageMetadata", &null)),
                },
            );
            assert forall|e: EventView| read.contains(e) implies #[trigger] events(out@).contains(
                e,
            ) by {
                let i = choose|i: int| 0 <= i < read.len() && read[i] == e;
                assert(events(out@)[i] == e);
            }
        }
    }
    Ok(out)
}

/// A content block on the wire.
pub open spec fn part_json(b: ContentBlock) -> JsonView {
    match b {
        ContentBlock::Text { text } => JsonView::Obj(map!["text"@ => jstr(text@)]),
        ContentBlock::Image { mime, data } => match data {
            ImageData::Base64(d) => JsonView::Obj(
                map![
                    "inline_data"@ => JsonView::Obj(
                        map!["mime_type"@ => jstr(mime@), "data"@ => jstr(d@)],
                    ),
                ],
            ),
            ImageData::Url(u) => JsonView::Obj(
                map![
                    "file_data"@ => JsonView::Obj(
                        map!["mime_type"@ => jstr(mime@), "file_uri"@ => jstr(u@)],
                    ),
                ],
            ),
        },
    }
}

/// Content blocks on the wire.
pub open spec fn parts_json(s: Seq<ContentBlock>) -> Seq<JsonView> {
    s.map_values(|b: ContentBlock| part_json(b))
}

/// A tool call on the wire.
pub open spec fn call_json(tc: ToolCall) -> JsonView {
    JsonView::Obj(
        map![
            "functionCall"@ => JsonView::Obj(
                map!["name"@ => jstr(tc.name@), "args"@ => tc.arguments@],
            ),
        ],
    )
}

/// Tool calls on the wire.
pub open spec fn calls_json(s: Seq<ToolCall>) -> Seq<JsonView> {
    s.map_values(|tc: ToolCall| call_json(tc))
}

/// A turn on the wire.
pub open spec fn turn(role: Seq<char>, parts: Seq<JsonView>) -> JsonView {
    JsonView::Obj(map!["role"@ => jstr(role), "parts"@ => JsonView::Arr(parts)])
}

/// The text of the first block, where it is a text.
pub open spec fn first_text(content: Seq<ContentBlock>) -> Seq<char> {
    if content.len() == 0 {
        ""@
    } else {
        match content[0] {
            ContentBlock::Text { text } => text@,
            _ => ""@,
        }
    }
}

/// The result of a tool on the wire.
pub open spec fn response_json(name: Seq<char>, text: Seq<char>, failed: bool) -> JsonView {
    JsonView::Obj(
        map![
            "functionResponse"@ => JsonView::Obj(
                map![
                    "name"@ => jstr(name),
                    "response"@ => JsonView::Obj(
                        if failed {
                            map!["error"@ => jstr(text)]
                        } else {
                            map!["output"@ => jstr(text)]
                        },
                    ),
                ],
            ),
        ],
    )
}

/// A message on the wire, or why there is none: the result of a tool has to name
/// the function, and there is no role for system text.
pub open spec fn message_json(m: Message) -> Result<JsonView, ErrorView> {
    match m {
        Message::User { content } => Ok(turn("user"@, parts_json(content@))),
        Message::Assistant { content, tool_calls } => Ok(
            turn("model"@, parts_json(content@) + calls_json(tool_calls@)),
        ),
        Message::Tool { tool_call_id, content, is_error } => match function_of(tool_call_id@) {
            Some(name) => Ok(
                turn("user"@, seq![response_json(name, first_text(content@), is_error)]),
            ),
            None => Err(
                ErrorView::InvalidRequest(
                    "Gemini tool result requires `<name>@<id>` tool_call_id; got `"@
                        + tool_call_id@ + "`"@,
                ),
            ),
        },
        Message::System { content } => Err(
            ErrorView::InvalidRequest(
                "Gemini does not support a `system` message role; put system text in `ChatRequest.system` instead"@,
            ),
        ),
    }
}

/// Messages on the wire, or the first error among them.
pub open spec fn messages_json(s: Seq<Message>) -> Result<Seq<JsonView>, ErrorView>
    decreases s.len(),
{
    if s.len() == 0 {
        Ok(seq![])
    } else {
        match messages_json(s.drop_last()) {
            Err(e) => Err(e),
            Ok(before) => match message_json(s.last()) {
                Err(e) => Err(e),
                Ok(m) => Ok(before.push(m)),
            },
        }
    }
}

/// A tool on the wire.
pub open spec fn tool_json(t: ToolSpec) -> JsonView {
    JsonView::Obj(
        map![
            "name"@ => jstr(t.name@),
            "description"@ => jstr(t.description@),
            "parameters"@ => t.input_schema.schema@,
        ],
    )
}

/// Tools on the wire.
pub open spec fn tools_json(s: Seq<ToolSpec>) -> JsonView {
    JsonView::Arr(
        seq![
            JsonView::Obj(
                map![
                    "functionDeclarations"@ => JsonView::Arr(
                        s.map_values(|t: ToolSpec| tool_json(t)),
                    ),
                ],
            ),
        ],
    )
}

/// Whether a tool has this name.
pub open spec fn names_tool(s: Seq<ToolSpec>, name: Seq<char>) -> bool {
    exists|i: int| 0 <= i < s.len() && (#[trigger] s[i]).name@ == name
}

/// The mode of function calling, or why a choice of tool is no good.
pub open spec fn choice_json(c: ToolChoice, tools: Seq<ToolSpec>) -> Result<JsonView, ErrorView> {
    match c {
        ToolChoice::Auto => Ok(JsonView::Obj(map!["mode"@ => jstr("AUTO"@)])),
        ToolChoice::NoTool => Ok(JsonView::Obj(map!["mode"@ => jstr("NONE"@)])),
        ToolChoice::Required => Ok(JsonView::Obj(map!["mode"@ => jstr("ANY"@)])),
        ToolChoice::Specific(name) => if name@.len() == 0 {
            Err(ErrorView::InvalidRequest("ToolChoice::Specific name is empty"@))
        } else if !names_tool(tools, name@) {
            Err(
                ErrorView::InvalidRequest(
                    "ToolChoice::Specific(`"@ + name@ + "`) not present in tools list"@,
                ),
            )
        } else {
            Ok(
                JsonView::Obj(
                    map![
                        "mode"@ => jstr("ANY"@),
                        "allowed_function_names"@ => JsonView::Arr(seq![jstr(name@)]),
                    ],
                ),
            )
        },
    }
}

/// The thinking budget on the wire: none is zero, automatic is minus one.
pub open spec fn thinking_budget(t: ThinkingMode) -> int {
    match t {
        ThinkingMode::Off => 0,
        ThinkingMode::Auto => -1,
        ThinkingMode::Budget(n) => n as int,
    }
}

/// The generation settings of a request.
pub open spec fn config_json(req: ChatRequest) -> JsonView {
    let c0 = Map::<Seq<char>, JsonView>::empty();
    let c1 = match req.max_output_tokens {
        Some(n) => c0.insert("maxOutputTokens"@, jint(n as int)),
        None => c0,
    };
    let c2 = match req.temperature {
        Some(t) => c1.insert("temperature"@, JsonView::Num(number_view(t))),
        None => c1,
    };
    let c3 = if req.stop_sequences@.len() > 0 {
        c2.insert("stopSequences"@, JsonView::Arr(str_items(req.stop_sequences@)))
    } else {
        c2
    };
    let c4 = match req.seed {
        Some(n) => c3.insert("seed"@, jint(n as int)),
        None => c3,
    };
    let c5 = match req.structured_output {
        Some(schema) => c4.insert("responseMimeType"@, jstr("application/json"@)).insert(
            "responseSchema"@,
            schema.schema@,
        ),
        None => c4,
    };
    JsonView::Obj(
        c5.insert(
            "thinkingConfig"@,
            JsonView::Obj(map!["thinkingBudget"@ => jint(thinking_budget(req.thinking))]),
        ),
    )
}

/// The cached content that a request refers to: that of its first handle.
pub open spec fn cached_content(s: Seq<CacheDirective>) -> Option<Seq<char>>
    decreases s.len(),
{
    if s.len() == 0 {
        None
    } else {
        match s[0] {
            CacheDirective::UseExplicit { handle } => Some(handle.external_id@),
            _ => cached_content(s.drop_first()),
        }
    }
}

/// The body of a request whose messages have been written.
pub open spec fn request_body(req: ChatRequest, contents: Seq<JsonView>) -> Result<
    JsonView,
    ErrorView,
> {
    let b0 = map![
        "contents"@ => JsonView::Arr(contents),
        "generationConfig"@ => config_json(req),
    ];
    let b1 = match req.system {
        Some(s) => b0.insert(
            "systemInstruction"@,
            JsonView::Obj(
                map![
                    "parts"@ => JsonView::Arr(seq![JsonView::Obj(map!["text"@ => jstr(s@)])]),
                ],
            ),
        ),
        None => b0,
    };
    let choice = choice_json(req.tool_choice, req.tools@);
    if req.tools@.len() > 0 && choice is Err {
        Err(choice->Err_0)
    } else {
        let b2 = if req.tools@.len() > 0 {
            b1.insert("tools"@, tools_json(req.tools@)).insert(
                "toolConfig"@,
                JsonView::Obj(map!["functionCallingConfig"@ => choice->Ok_0]),
            )
        } else {
            b1
        };
        let b3 = match cached_content(req.cache_directives@) {
            Some(id) => b2.insert("cachedContent"@, jstr(id)),
            None => b2,
        };
        Ok(JsonView::Obj(b3))
    }
}

/// The body of a request, or why there is none.
pub open spec fn translated(req: ChatRequest) -> Result<JsonView, ErrorView> {
    match req.model {
        ModelHint::Tier(t) => Err(
            ErrorView::InvalidRequest("model must be explicit, got: Tier("@ + t@ + ")"@),
        ),
        ModelHint::Explicit(_) => if req.messages@.len() == 0 {
            Err(ErrorView::InvalidRequest("messages cannot be empty"@))
        } else {
            match messages_json(req.messages@) {
                Err(e) => Err(e),
                Ok(contents) => request_body(req, contents),
            }
        },
    }
}

/// The result of a tool that is handed back under the id of its call carries the
/// name of the function that was called.
pub proof fn law_tool_result_reaches_function(
    name: Seq<char>,
    index: usize,
    tool_call_id: String,
    content: Vec<ContentBlock>,
    is_error: bool,
)
    requires
        name.len() > 0,
        !name.contains('@'),
        tool_call_id@ == call_id(name, index),
    ensures
        message_json(Message::Tool { tool_call_id, content, is_error }) == Ok::<
            JsonView,
            ErrorView,
        >(turn("user"@, seq![response_json(name, first_text(content@), is_error)])),
{
    law_call_id_names_function(name, index);
}

/// Finds the function that a tool call id names.
pub fn split_function(id: &str) -> (r: Option<String>)
    ensures
        crate::text::opt_str(r) == function_of(id@),
{
    let cs: Vec<char> = chars_of(id);
    let mut k: usize = 0;
    assert(cs@.skip(0) =~= cs@);
    while k < cs.len() && cs[k] != '@'
        invariant
            k <= cs@.len(),
            first_at(cs@) == k + first_at(cs@.skip(k as int)),
        decreases cs@.len() - k,
    {
        assert(cs@.skip(k as int)[0] == cs@[k as int]);
        assert(cs@.skip(k as int).drop_first() =~= cs@.skip(k + 1));
        k += 1;
    }
    proof {
        if k < cs@.len() {
            assert(cs@.skip(k as int)[0] == cs@[k as int]);
        }
        assert(first_at(cs@) == k);
        assert(cs@.subrange(0, k as int) =~= cs@.take(k as int));
    }
    if 0 < k && k < cs.len() {
        Some(text_of_range(&cs, 0, k))
    } else {
        None
    }
}

/// Writes a content block.
pub fn translate_part(b: &ContentBlock) -> (r: Json)
    ensures
        r@ == part_json(*b),
{
    match b {
        ContentBlock::Text { text } => Json::object().with("text", Json::Str(text.clone())),
        ContentBlock::Image { mime, data } => match data {
            ImageData::Base64(d) => Json::object().with(
                "inline_data",
                Json::object().with("mime_type", Json::Str(mime.clone())).with(
                    "data",
                    Json::Str(d.clone()),
                ),
            ),
            ImageData::Url(u) => Json::object().with(
                "file_data",
                Json::object().with("mime_type", Json::Str(mime.clone())).with(
                    "file_uri",
                    Json::Str(u.clone()),
                ),
            ),
        },
    }
}

/// Writes content blocks.
fn translate_parts(blocks: &Vec<ContentBlock>) -> (r: Vec<Json>)
    ensures
        items_view(r@) == parts_json(blocks@),
{
    let mut out: Vec<Json> = Vec::new();
    let mut i: usize = 0;
    assert(items_view(out@) =~= parts_json(blocks@).take(0));
    while i < blocks.len()
        invariant
            i <= blocks@.len(),
            items_view(out@) == parts_json(blocks@).take(i as int),
        decreases blocks@.len() - i,
    {
        push_item(&mut out, translate_part(&blocks[i]));
        assert(parts_json(blocks@).take(i + 1) =~= parts_json(blocks@).take(i as int).push(
            part_json(blocks@[i as int]),
        ));
        i += 1;
    }
    assert(parts_json(blocks@).take(blocks@.len() as int) =~= parts_json(blocks@));
    out
}

/// The headers of a request: the key is in the URL.
pub open spec fn request_headers() -> Seq<(Seq<char>, Seq<char>)> {
    seq![("content-type"@, "application/json"@)]
}

/// The text of the URL for a model, without a key.
pub open spec fn stream_url(base: Seq<char>, model: Seq<char>) -> Seq<char> {
    no_end_slash(base) + "/v1beta/models/"@ + model + ":streamGenerateContent?alt=sse"@
}

/// What is said of a URL that is none.
pub open spec fn url_complaint(base: Seq<char>, model: Seq<char>) -> Seq<char> {
    "bad gemini url for model '"@ + model + "' (base_url='"@ + no_end_slash(base) + "'): "@
}

/// What a failed HTTP exchange means, from the status, the delay that the server
/// asks for, its message, the message in lower case and the status written out.
pub open spec fn failure(
    status: u16,
    retry: Option<u64>,
    message: Seq<char>,
    lower: Seq<char>,
    line: Seq<char>,
) -> ErrorView {
    if status == 401 || status == 403 {
        ErrorView::Auth(message)
    } else if status == 429 {
        ErrorView::RateLimited { retry_after_ms: retry }
    } else if status == 503 || status == 504 {
        ErrorView::ModelOverloaded
    } else if status == 400 {
        if has_part(lower, "token"@) && has_part(lower, "limit"@) {
            ErrorView::ContextTooLong { limit: 0, requested: 0 }
        } else {
            ErrorView::InvalidRequest(message)
        }
    } else if 500 <= status < 600 {
        ErrorView::Internal("status "@ + line + ": "@ + message)
    } else {
        ErrorView::InvalidRequest("status "@ + line + ": "@ + message)
    }
}

/// Classifies a failed HTTP exchange.
pub fn classify(
    status: u16,
    retry: Option<u64>,
    message: String,
    lower: &str,
    line: &str,
) -> (r: ProviderError)
    ensures
        r@ == failure(status, retry, message@, lower@, line@),
{
    if status == 401 || status == 403 {
        ProviderError::Auth(message)
    } else if status == 429 {
        ProviderError::RateLimited { retry_after_ms: retry }
    } else if status == 503 || status == 504 {
        ProviderError::ModelOverloaded
    } else if status == 400 {
        if contains_text(lower, "token") && contains_text(lower, "limit") {
            ProviderError::ContextTooLong { limit: 0, requested: 0 }
        } else {
            ProviderError::InvalidRequest(message)
        }
    } else {
        let text: String = status_message(line, message.as_str());
        if 500 <= status && status < 600 {
            ProviderError::Internal(text)
        } else {
            ProviderError::InvalidRequest(text)
        }
    }
}

/// The key in a resolved credential, or why it cannot be used.
pub open spec fn usable_key(auth: AuthView) -> Result<Seq<char>, ErrorView> {
    match auth {
        AuthView::ApiKey(k) => if k.len() == 0 {
            Err(ErrorView::Auth("Gemini API key is empty"@))
        } else {
            Ok(k)
        },
        AuthView::Bearer(_) => Err(
            ErrorView::Auth(
                "Gemini bearer auth (Vertex AI ADC) is not yet supported; use an API key"@,
            ),
        ),
        AuthView::Absent => Err(ErrorView::Auth("Gemini provider requires an API key"@)),
    }
}

/// Takes the key out of a resolved credential.
pub fn key_of(auth: ResolvedAuth) -> (r: Result<String, ProviderError>)
    ensures
        text_result(r) == usable_key(auth@),
{
    match auth {
        ResolvedAuth::ApiKey(k) => if k.as_str().is_empty() {
            Err(ProviderError::Auth("Gemini API key is empty".to_owned()))
        } else {
            Ok(k)
        },
        ResolvedAuth::Bearer(_) => Err(
            ProviderError::Auth(
                "Gemini bearer auth (Vertex AI ADC) is not yet supported; use an API key".to_owned(),
            ),
        ),
        ResolvedAuth::Absent => Err(
            ProviderError::Auth("Gemini provider requires an API key".to_owned()),
        ),
    }
}

/// What every batch operation answers: there are none on this backend.
pub fn batch_not_supported() -> (r: ProviderError)
    ensures
        r@ == ErrorView::InvalidRequest(
            "Gemini batch is not yet implemented in this tars backend. Tracked at docs/roadmap.md §5 Phase 4. (Vertex AI Batch Prediction requires a different auth path and is out of scope.)"@,
        ),
{
    ProviderError::InvalidRequest(
        "Gemini batch is not yet implemented in this tars backend. Tracked at docs/roadmap.md §5 Phase 4. (Vertex AI Batch Prediction requires a different auth path and is out of scope.)".to_owned(),
    )
}

/// The adapter for Gemini, without a key.
pub struct GeminiAdapter {
    pub base_url: String,
    pub extras: HttpProviderExtras,
}

impl GeminiAdapter {
    /// An adapter for this server.
    pub fn new(base_url: String, extras: HttpProviderExtras) -> (r: Self)
        ensures
            r == (GeminiAdapter { base_url, extras }),
    {
        GeminiAdapter { base_url, extras }
    }

    /// Writes a message.
    pub fn translate_message(m: &Message) -> (r: Result<Json, ProviderError>)
        ensures
            json_result(r) == message_json(*m),
    {
        match m {
            Message::User { content } => Ok(
                Json::object().with("role", Json::text("user")).with(
                    "parts",
                    Json::Arr(translate_parts(content)),
                ),
            ),
            Message::Assistant { content, tool_calls } => {
                let mut parts: Vec<Json> = translate_parts(content);
                let ghost before = parts_json(content@);
                let mut i: usize = 0;
                assert(before + calls_json(tool_calls@).take(0) =~= before);
                while i < tool_calls.len()
                    invariant
                        i <= tool_calls@.len(),
                        items_view(parts@) == before + calls_json(tool_calls@).take(i as int),
                    decreases tool_calls@.len() - i,
                {
                    let tc: &ToolCall = &tool_calls[i];
                    push_item(
                        &mut parts,
                        Json::object().with(
                            "functionCall",
                            Json::object().with("name", Json::Str(tc.name.clone())).with(
                                "args",
                                tc.arguments.clone(),
                            ),
                        ),
                    );
                    assert((before + calls_json(tool_calls@).take(i as int)).push(
                        call_json(tool_calls@[i as int]),
                    ) =~= before + calls_json(tool_calls@).take(i + 1));
                    i += 1;
                }
                assert(calls_json(tool_calls@).take(tool_calls@.len() as int) =~= calls_json(
                    tool_calls@,
                ));
                Ok(
                    Json::object().with("role", Json::text("model")).with("parts", Json::Arr(parts)),
                )
            },
            Message::Tool { tool_call_id, content, is_error } => {
                match split_function(tool_call_id.as_str()) {
                    None => {
                        let mut msg: String =
                            "Gemini tool result requires `<name>@<id>` tool_call_id; got `".to_owned();
                        msg.append(tool_call_id.as_str());
                        msg.append("`");
                        Err(ProviderError::InvalidRequest(msg))
                    },
                    Some(name) => {
                        let text: String = if content.len() == 0 {
                            "".to_owned()
                        } else {
                            match &content[0] {
                                ContentBlock::Text { text } => text.clone(),
                                _ => "".to_owned(),
                            }
                        };
                        let response: Json = if *is_error {
                            Json::object().with("error", Json::Str(text))
                        } else {
                            Json::object().with("output", Json::Str(text))
                        };
                        let part: Json = Json::object().with(
                            "functionResponse",
                            Json::object().with("name", Json::Str(name)).with("response", response),
                        );
                        Ok(
                            Json::object().with("role", Json::text("user")).with(
                                "parts",
                                one_item(part),
                            ),
                        )
                    },
                }
            },
            Message::System { content: _ } => Err(
                ProviderError::InvalidRequest(
                    "Gemini does not support a `system` message role; put system text in `ChatRequest.system` instead".to_owned(),
                ),
            ),
        }
    }

    /// Writes the tools of a request.
    pub fn translate_tools(tools: &Vec<ToolSpec>) -> (r: Json)
        ensures
            r@ == tools_json(tools@),
    {
        let ghost all = tools@.map_values(|t: ToolSpec| tool_json(t));
        let mut out: Vec<Json> = Vec::new();
        let mut i: usize = 0;
        assert(items_view(out@) =~= all.take(0));
        while i < tools.len()
            invariant
                i <= tools@.len(),
                all == tools@.map_values(|t: ToolSpec| tool_json(t)),
                items_view(out@) == all.take(i as int),
            decreases tools@.len() - i,
        {
            let t: &ToolSpec = &tools[i];
            push_item(
                &mut out,
                Json::object().with("name", Json::Str(t.name.clone())).with(
                    "description",
                    Json::Str(t.description.clone()),
                ).with("parameters", t.input_schema.schema.clone()),
            );
            assert(all.take(i + 1) =~= all.take(i as int).push(tool_json(tools@[i as int])));
            i += 1;
        }
        assert(all.take(tools@.len() as int) =~= all);
        one_item(Json::object().with("functionDeclarations", Json::Arr(out)))
    }

    /// Writes the mode of function calling.
    fn translate_choice(c: &ToolChoice, tools: &Vec<ToolSpec>) -> (r: Result<Json, ProviderError>)
        ensures
            json_result(r) == choice_json(*c, tools@),
    {
        match c {
            ToolChoice::Auto => Ok(Json::object().with("mode", Json::text("AUTO"))),
            ToolChoice::NoTool => Ok(Json::object().with("mode", Json::text("NONE"))),
            ToolChoice::Required => Ok(Json::object().with("mode", Json::text("ANY"))),
            ToolChoice::Specific(name) => {
                if name.as_str().is_empty() {
                    return Err(
                        ProviderError::InvalidRequest(
                            "ToolChoice::Specific name is empty".to_owned(),
                        ),
                    );
                }
                let mut i: usize = 0;
                while i < tools.len()
                    invariant
                        i <= tools@.len(),
                        name@.len() > 0,
                        *c == ToolChoice::Specific(*name),
                        forall|j: int| 0 <= j < i ==> (#[trigger] tools@[j]).name@ != name@,
                    decreases tools@.len() - i,
                {
                    if same(tools[i].name.as_str(), name.as_str()) {
                        assert(tools@[i as int].name@ == name@);
                        return Ok(
                            Json::object().with("mode", Json::text("ANY")).with(
                                "allowed_function_names",
                                one_item(Json::Str(name.clone())),
                            ),
                        );
                    }
                    i += 1;
                }
                let mut msg: String = "ToolChoice::Specific(`".to_owned();
                msg.append(name.as_str());
                msg.append("`) not present in tools list");
                Err(ProviderError::InvalidRequest(msg))
            },
        }
    }

    /// Writes the generation settings of a request.
    fn translate_config(req: &ChatRequest) -> (r: Json)
        ensures
            r@ == config_json(*req),
    {
        let mut config: Json = Json::object();
        if let Some(n) = req.max_output_tokens {
            config.set("maxOutputTokens", Json::Uint(n as u64));
        }
        if let Some(t) = &req.temperature {
            config.set("temperature", Json::Num(t.clone()));
        }
        if req.stop_sequences.len() > 0 {
            config.set("stopSequences", str_array(&req.stop_sequences));
        }
        if let Some(n) = req.seed {
            config.set("seed", Json::Uint(n));
        }
        if let Some(schema) = &req.structured_output {
            config.set("responseMimeType", Json::text("application/json"));
            config.set("responseSchema", schema.schema.clone());
        }
        let budget: Json = match req.thinking {
            ThinkingMode::Off => Json::Uint(0),
            ThinkingMode::Auto => Json::Int(-1),
            ThinkingMode::Budget(n) => Json::Uint(n as u64),
        };
        config.set("thinkingConfig", Json::object().with("thinkingBudget", budget));
        config
    }

    /// Writes the messages of a request.
    fn translate_messages(messages: &Vec<Message>) -> (r: Result<Vec<Json>, ProviderError>)
        ensures
            match r {
                Ok(v) => messages_json(messages@) == Ok::<Seq<JsonView>, ErrorView>(items_view(v@)),
                Err(e) => messages_json(messages@) == Err::<Seq<JsonView>, ErrorView>(e@),
            },
    {
        let mut out: Vec<Json> = Vec::new();
        let mut i: usize = 0;
        assert(messages@.take(0) =~= seq![]);
        assert(items_view(out@) =~= seq![]);
        while i < messages.len()
            invariant
                i <= messages@.len(),
                messages_json(messages@.take(i as int)) == Ok::<Seq<JsonView>, ErrorView>(
                    items_view(out@),
                ),
            decreases messages@.len() - i,
        {
            assert(messages@.take(i + 1).drop_last() =~= messages@.take(i as int));
            match Self::translate_message(&messages[i]) {
                Err(e) => {
                    proof {
                        lemma_messages_error(messages@, i + 1);
                    }
                    return Err(e);
                },
                Ok(m) => {
                    push_item(&mut out, m);
                },
            }
            i += 1;
        }
        assert(messages@.take(messages@.len() as int) =~= messages@);
        Ok(out)
    }

    /// Writes the body of a request.
    pub fn translate_request(&self, req: &ChatRequest) -> (r: Result<Json, ProviderError>)
        ensures
            json_result(r) == translated(*req),
    {
        if let ModelHint::Tier(t) = &req.model {
            let mut msg: String = "model must be explicit, got: Tier(".to_owned();
            msg.append(t.as_str());
            msg.append(")");
            return Err(ProviderError::InvalidRequest(msg));
        }
        if req.messages.len() == 0 {
            return Err(ProviderError::InvalidRequest("messages cannot be empty".to_owned()));
        }
        let contents: Vec<Json> = match Self::translate_messages(&req.messages) {
            Ok(v) => v,
            Err(e) => {
                return Err(e);
            },
        };
        let mut body: Json = Json::object().with("contents", Json::Arr(contents)).with(
            "generationConfig",
            Self::translate_config(req),
        );
        if let Some(s) = &req.system {
            body.set(
                "systemInstruction",
                Json::object().with(
                    "parts",
                    one_item(Json::object().with("text", Json::Str(s.clone()))),
                ),
            );
        }
        if req.tools.len() > 0 {
            let mode: Json = match Self::translate_choice(&req.tool_choice, &req.tools) {
                Ok(m) => m,
                Err(e) => {
                    return Err(e);
                },
            };
            body.set("tools", Self::translate_tools(&req.tools));
            body.set("toolConfig", Json::object().with("functionCallingConfig", mode));
        }
        let directives: &Vec<CacheDirective> = &req.cache_directives;
        let ghost before = body@;
        let ghost wanted = translated(*req);
        let mut i: usize = 0;
        assert(directives@.skip(0) =~= directives@);
        while i < directives.len()
            invariant
                i <= directives@.len(),
                directives@ == req.cache_directives@,
                body@ == before,
                before is Obj,
                wanted == translated(*req),
                cached_content(directives@.skip(i as int)) == cached_content(directives@),
                wanted == Ok::<JsonView, ErrorView>(
                    match cached_content(directives@) {
                        Some(id) => JsonView::Obj(before->Obj_0.insert("cachedContent"@, jstr(id))),
                        None => before,
                    },
                ),
            decreases directives@.len() - i,
        {
            assert(directives@.skip(i as int)[0] == directives@[i as int]);
            if let CacheDirective::UseExplicit { handle } = &directives[i] {
                body.set("cachedContent", Json::Str(handle.external_id.clone()));
                return Ok(body);
            }
            assert(directives@.skip(i as int).drop_first() =~= directives@.skip(i + 1));
            i += 1;
        }
        Ok(body)
    }

    /// Reads one server-sent event. The function calls in it are handed out with the
    /// arguments that came.
    pub fn parse_event(&self, raw: &SseEvent, buf: &mut ToolCallBuffer) -> (r: Result<
        Vec<ChatEvent>,
        ProviderError,
    >)
        ensures
            (events_result(r), final(buf)@) == event_outcome(raw.data@, old(buf)@),
            raw.data@.len() > 0 ==> (serde_parse(raw.data@) matches Ok(v) ==> arguments_kept(
                v,
                events_result(r),
            )),
    {
        if raw.data.as_str().is_empty() {
            let out: Vec<ChatEvent> = Vec::new();
            assert(events(out@) =~= seq![]);
            return Ok(out);
        }
        match parse_json(raw.data.as_str()) {
            Err(e) => {
                let mut msg: String = "gemini sse: ".to_owned();
                msg.append(e.as_str());
                msg.append(" (raw: ");
                msg.append(truncate(raw.data.as_str(), 200).as_str());
                msg.append(")");
                Err(ProviderError::Parse(msg))
            },
            Ok(v) => parse_chunk(&v, buf),
        }
    }

    /// The text of the URL for a model, without a key.
    pub fn stream_url_text(&self, model: &str) -> (r: String)
        ensures
            r@ == stream_url(self.base_url@, model@),
    {
        let mut url: String = trim_end_slashes(self.base_url.as_str());
        url.append("/v1beta/models/");
        url.append(model);
        url.append(":streamGenerateContent?alt=sse");
        url
    }

    /// What is said of a URL that is none.
    fn complaint(&self, model: &str) -> (r: String)
        ensures
            r@ == url_complaint(self.base_url@, model@),
    {
        let mut msg: String = "bad gemini url for model '".to_owned();
        msg.append(model);
        msg.append("' (base_url='");
        msg.append(trim_end_slashes(self.base_url.as_str()).as_str());
        msg.append("'): ");
        msg
    }

    /// The URL for a model, without a key.
    pub fn build_url(&self, model: &str) -> (r: Result<String, ProviderError>)
        ensures
            text_result(r) == url_outcome(
                url_parse(stream_url(self.base_url@, model@)),
                url_complaint(self.base_url@, model@),
            ),
    {
        url_or_error(
            parse_url(self.stream_url_text(model).as_str()),
            self.complaint(model).as_str(),
        )
    }

    /// The headers of a request.
    pub fn build_headers(&self, _auth: &ResolvedAuth) -> (r: Vec<(String, String)>)
        ensures
            header_views(r@) == request_headers(),
    {
        let mut h: Vec<(String, String)> = Vec::new();
        h.push(("content-type".to_owned(), "application/json".to_owned()));
        assert(header_views(h@) =~= request_headers());
        h
    }

    /// What a failed HTTP exchange means.
    pub fn classify_error(&self, status: u16, headers: &Vec<(String, String)>, body: &str) -> (r:
        ProviderError)
        requires
            100 <= status <= 999,
        ensures
            r@ == failure(
                status,
                retry_after(headers@),
                failure_message(body@),
                lowercase(failure_message(body@)),
                http_status_text(status),
            ),
    {
        let message: String = error_message(body);
        let lower: String = to_lowercase(message.as_str());
        let line: String = status_text(status);
        classify(status, parse_retry_after(headers), message, lower.as_str(), line.as_str())
    }

    /// The headers that the deployment adds.
    pub fn extras(&self) -> (r: &HttpProviderExtras)
        ensures
            *r == self.extras,
    {
        &self.extras
    }
}

/// The first error of a prefix is that of the whole.
proof fn lemma_messages_error(s: Seq<Message>, k: int)
    requires
        0 <= k <= s.len(),
        messages_json(s.take(k)) is Err,
    ensures
        messages_json(s) == messages_json(s.take(k)),
    decreases s.len() - k,
{
    if k < s.len() {
        assert(s.take(k + 1).drop_last() =~= s.take(k));
        lemma_messages_error(s, k + 1);
    } else {
        assert(s.take(k) =~= s);
    }
}

/// The adapter for Gemini with a key, made for one request.
pub struct GeminiAdapterWithKey {
    pub inner: GeminiAdapter,
    pub key: String,
}

impl GeminiAdapterWithKey {
    /// The text of the URL for a model, with the key in its query.
    pub fn keyed_url_text(&self, model: &str) -> (r: String)
        ensures
            r@ == stream_url(self.inner.base_url@, model@) + "&key="@ + percent_encoded(
                encode_utf8(self.key@),
            ),
    {
        let mut url: String = self.inner.stream_url_text(model);
        url.append("&key=");
        url.append(urlencoding(self.key.as_str()).as_str());
        url
    }

    /// The URL for a model.
    pub fn build_url(&self, model: &str) -> (r: Result<String, ProviderError>)
        ensures
            text_result(r) == url_outcome(
                url_parse(
                    stream_url(self.inner.base_url@, model@) + "&key="@ + percent_encoded(
                        encode_utf8(self.key@),
                    ),
                ),
                url_complaint(self.inner.base_url@, model@),
            ),
    {
        url_or_error(
            parse_url(self.keyed_url_text(model).as_str()),
            self.inner.complaint(model).as_str(),
        )
    }
}

} // verus!
