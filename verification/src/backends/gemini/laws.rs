//! What holds of whole requests and whole replies of Gemini.

use crate::backends::gemini::adapter::{
    cached_content, call_read, calls_in, candidate_read, config_json, event_outcome, first_at,
    function_of, lemma_first_at, message_json, messages_json, parts_of, parts_read, text_read,
    translated,
};
use crate::json::{number_view, serde_parse, serde_print, JsonView, NumView};
use crate::stream::Step;
use crate::terms::{
    amount, deltas, field, finishes, handed_out, has_field, lemma_none, lemma_one_more, list, models,
    pieces, starts, thoughts, told, words, Told,
};
use crate::text::{decimal, trimmed};
use crate::tool_buffer::BufferView;
use crate::types::{
    started_event, CacheDirective, ChatRequest, ContentBlock, ErrorView, EventView, ImageData,
    Message, StopReason, ThinkingMode, ToolCall, ToolChoice, ToolSpec, Usage,
};
use vstd::prelude::*;
use vstd::string::*;

verus! {

/// Whether a part is a thought.
pub open spec fn is_thought(part: JsonView) -> bool {
    field(part, "thought"@) == JsonView::Bool(true)
}

/// The texts of the parts that are thoughts, or of those that are not.
pub open spec fn texts_of(parts: Seq<JsonView>, thinking: bool) -> Seq<Seq<char>>
    decreases parts.len(),
{
    if parts.len() == 0 {
        seq![]
    } else {
        let before = texts_of(parts.drop_last(), thinking);
        let text = words(field(parts.last(), "text"@));
        if text.len() > 0 && is_thought(parts.last()) == thinking {
            before.push(text)
        } else {
            before
        }
    }
}

/// The function calls in the parts.
pub open spec fn asked_in(parts: Seq<JsonView>) -> Seq<JsonView>
    decreases parts.len(),
{
    if parts.len() == 0 {
        seq![]
    } else if has_field(parts.last(), "functionCall"@) {
        asked_in(parts.drop_last()).push(field(parts.last(), "functionCall"@))
    } else {
        asked_in(parts.drop_last())
    }
}

/// What the parts tell, in their order: of each its text, and then its call.
pub open spec fn told_by(parts: Seq<JsonView>) -> Seq<Told>
    decreases parts.len(),
{
    if parts.len() == 0 {
        seq![]
    } else {
        let part = parts.last();
        let before = told_by(parts.drop_last());
        let text = words(field(part, "text"@));
        let said = if text.len() == 0 {
            before
        } else if is_thought(part) {
            before.push(Told::Thought(text))
        } else {
            before.push(Told::Said(text))
        };
        if has_field(part, "functionCall"@) {
            said.push(Told::Called(words(field(field(part, "functionCall"@), "name"@))))
        } else {
            said
        }
    }
}

/// The arguments of a function call, printed. None are the empty object.
pub open spec fn printed_args(call: JsonView) -> Seq<char> {
    serde_print(
        if has_field(call, "args"@) {
            field(call, "args"@)
        } else {
            JsonView::Obj(Map::empty())
        },
    )
}

/// The id of the call with this index.
pub open spec fn id_of(call: JsonView, index: int) -> Seq<char> {
    words(field(call, "name"@)) + "@gemini-call-"@ + decimal(index as nat)
}

/// Whether the events hand out these calls: each begins, carries its arguments and ends,
/// under its number, with its name and the arguments that came.
pub open spec fn hands_out(out: Seq<EventView>, calls: Seq<JsonView>) -> bool {
    &&& starts(out).len() == calls.len()
    &&& pieces(out).len() == calls.len()
    &&& handed_out(out).len() == calls.len()
    &&& forall|k: int|
        0 <= k < calls.len() ==> {
            let call = #[trigger] calls[k];
            &&& starts(out)[k] == (k as usize, id_of(call, k), words(field(call, "name"@)))
            &&& pieces(out)[k] == (k as usize, printed_args(call))
            &&& handed_out(out)[k].0 == k
            &&& handed_out(out)[k].1 == id_of(call, k)
            &&& trimmed(printed_args(call)).len() > 0 ==> serde_parse(printed_args(call)) == Ok::<
                JsonView,
                Seq<char>,
            >(handed_out(out)[k].2)
        }
}

proof fn lemma_parts_told(st: Step, parts: Seq<JsonView>)
    requires
        st.err is None,
        starts(st.out).len() == 0,
        pieces(st.out).len() == 0,
        handed_out(st.out).len() == 0,
        parts_read(st, parts).err is None,
        parts.len() <= usize::MAX,
    ensures
        ({
            let out = parts_read(st, parts).out;
            &&& deltas(out) == deltas(st.out) + texts_of(parts, false)
            &&& thoughts(out) == thoughts(st.out) + texts_of(parts, true)
            &&& told(out) == told(st.out) + told_by(parts)
            &&& hands_out(out, asked_in(parts))
            &&& finishes(out) == finishes(st.out)
            &&& models(out) == models(st.out)
            &&& st.out.len() <= out.len()
            &&& out.take(st.out.len() as int) == st.out
        }),
        asked_in(parts).len() == calls_in(parts),
        calls_in(parts) <= parts.len(),
    decreases parts.len(),
{
    if parts.len() == 0 {
        assert(deltas(st.out) + texts_of(parts, false) =~= deltas(st.out));
        assert(thoughts(st.out) + texts_of(parts, true) =~= thoughts(st.out));
        assert(told(st.out) + told_by(parts) =~= told(st.out));
        assert(st.out.take(st.out.len() as int) =~= st.out);
    } else {
        reveal_strlit("");
        let front = parts.drop_last();
        let part = parts.last();
        let before = parts_read(st, front);
        assert(before.err is None);
        lemma_parts_told(st, front);
        let text = words(field(part, "text"@));
        assert(part.str_or("text"@, ""@) =~= text);
        let s1 = text_read(before, part);
        lemma_one_more(before.out, EventView::ThinkingDelta { text });
        lemma_one_more(before.out, EventView::Delta { text });
        assert(deltas(s1.out) =~= deltas(st.out) + texts_of(parts, false));
        assert(thoughts(s1.out) =~= thoughts(st.out) + texts_of(parts, true));
        assert(hands_out(s1.out, asked_in(front)));
        assert(s1.out.take(st.out.len() as int) =~= st.out);
        if has_field(part, "functionCall"@) {
            let fc = field(part, "functionCall"@);
            let n = calls_in(front) as usize;
            let name = words(field(fc, "name"@));
            assert(fc.str_or("name"@, ""@) =~= name);
            let id = id_of(fc, n as int);
            let args = printed_args(fc);
            let e1 = EventView::ToolCallStart { index: n, id, name };
            let e2 = EventView::ToolCallArgsDelta { index: n, args_delta: args };
            let buf = s1.buf.on_start(n, id, name).on_delta(n, args);
            let after = call_read(s1, fc, n);
            assert(parts_read(st, parts) == after);
            lemma_one_more(s1.out, e1);
            lemma_one_more(s1.out.push(e1), e2);
            assert(buf.calls[n].args =~= args);
            let (i, m, parsed) = buf.finalized(n)->Ok_0;
            let e3 = EventView::ToolCallEnd { index: n, id: i, parsed_args: parsed };
            lemma_one_more(s1.out.push(e1).push(e2), e3);
            assert(after.out == s1.out.push(e1).push(e2).push(e3));
            assert(told(after.out) =~= told(st.out) + told_by(parts));
            assert(after.out.take(st.out.len() as int) =~= st.out);
            let calls = asked_in(parts);
            assert(calls == asked_in(front).push(fc));
            assert forall|k: int| 0 <= k < calls.len() implies {
                let call = #[trigger] calls[k];
                &&& starts(after.out)[k] == (k as usize, id_of(call, k), words(
                    field(call, "name"@),
                ))
                &&& pieces(after.out)[k] == (k as usize, printed_args(call))
                &&& handed_out(after.out)[k].0 == k
                &&& handed_out(after.out)[k].1 == id_of(call, k)
                &&& trimmed(printed_args(call)).len() > 0 ==> serde_parse(printed_args(call))
                    == Ok::<JsonView, Seq<char>>(handed_out(after.out)[k].2)
            } by {
                if k < asked_in(front).len() {
                    assert(asked_in(front)[k] == calls[k]);
                }
            }
        } else {
            assert(told(s1.out) =~= told(st.out) + told_by(parts));
        }
    }
}

/// The candidate that counts in a chunk.
pub open spec fn first_candidate(v: JsonView) -> JsonView {
    let candidates = list(field(v, "candidates"@));
    if candidates.len() > 0 {
        candidates[0]
    } else {
        JsonView::Null
    }
}

/// The parts of the candidate that counts in a chunk.
pub open spec fn parts_told(v: JsonView) -> Seq<JsonView> {
    list(field(field(first_candidate(v), "content"@), "parts"@))
}

/// Whether a reply that ends for this reason, after calls or not, has this stop reason.
pub open spec fn stops_as(reason: Seq<char>, called: bool, stop: StopReason) -> bool {
    &&& stop == StopReason::EndTurn <==> reason == "STOP"@ && !called
    &&& stop == StopReason::ToolUse <==> reason == "STOP"@ && called
    &&& stop == StopReason::MaxTokens <==> reason == "MAX_TOKENS"@
    &&& stop == StopReason::ContentFilter <==> reason == "SAFETY"@ || reason == "RECITATION"@
    &&& stop != StopReason::StopSequence
}

/// Whether token counts are those of a chunk.
pub open spec fn counts_are(usage: Usage, counts: JsonView) -> bool {
    &&& usage.input_tokens == amount(field(counts, "promptTokenCount"@))
    &&& usage.output_tokens == amount(field(counts, "candidatesTokenCount"@))
    &&& usage.cached_input_tokens == amount(field(counts, "cachedContentTokenCount"@))
    &&& usage.thinking_tokens == amount(field(counts, "thoughtsTokenCount"@))
    &&& usage.cache_creation_tokens == 0
}

proof fn lemma_reasons()
    ensures
        "MAX_TOKENS"@ != "RECITATION"@,
        "MAX_TOKENS"@ != "SAFETY"@,
        "MAX_TOKENS"@ != "STOP"@,
        "RECITATION"@ != "SAFETY"@,
        "RECITATION"@ != "STOP"@,
        "SAFETY"@ != "STOP"@,
{
    reveal_strlit("MAX_TOKENS");
    reveal_strlit("RECITATION");
    reveal_strlit("SAFETY");
    reveal_strlit("STOP");
    assert("MAX_TOKENS"@.len() == 10);
    assert("RECITATION"@.len() == 10);
    assert("SAFETY"@.len() == 6);
    assert("STOP"@.len() == 4);
    assert("MAX_TOKENS"@[0] != "RECITATION"@[0]);
}

/// A chunk is told as it came: its texts and thoughts in their order and none left out,
/// its function calls with their names and arguments, and its end with the reason and the
/// token counts, behind everything else.
pub proof fn law_chunk_is_told(
    data: Seq<char>,
    v: JsonView,
    buf: BufferView,
    out: Seq<EventView>,
)
    requires
        data.len() > 0,
        serde_parse(data) == Ok::<JsonView, Seq<char>>(v),
        event_outcome(data, buf).0 == Ok::<Seq<EventView>, ErrorView>(out),
        parts_told(v).len() <= usize::MAX,
    ensures
        deltas(out) == texts_of(parts_told(v), false),
        thoughts(out) == texts_of(parts_told(v), true),
        told(out) == told_by(parts_told(v)),
        hands_out(out, asked_in(parts_told(v))),
        field(first_candidate(v), "finishReason"@) is Str ==> {
            &&& finishes(out).len() == 1
            &&& out.last() is Finished
            &&& stops_as(
                words(field(first_candidate(v), "finishReason"@)),
                asked_in(parts_told(v)).len() > 0,
                finishes(out)[0].0,
            )
            &&& counts_are(finishes(out)[0].1, field(v, "usageMetadata"@))
        },
        !(field(first_candidate(v), "finishReason"@) is Str) ==> finishes(out).len() == 0,
        field(v, "candidates"@) is Arr && words(field(v, "modelVersion"@)).len() > 0 ==> models(out)
            == seq![words(field(v, "modelVersion"@))] && out[0] is Started,
        !(field(v, "candidates"@) is Arr && words(field(v, "modelVersion"@)).len() > 0)
            ==> models(out).len() == 0,
{
    reveal_strlit("");
    lemma_reasons();
    let none = Step { out: seq![], buf, err: None };
    lemma_none(none.out);
    let model = words(field(v, "modelVersion"@));
    assert(v.str_or("modelVersion"@, ""@) =~= model);
    lemma_one_more(none.out, started_event(model));
    assert(models(none.out).push(model) =~= seq![model]);
    if field(v, "candidates"@) is Arr {
        let st = if model.len() > 0 {
            none.push(started_event(model))
        } else {
            none
        };
        let parts = parts_told(v);
        if list(field(v, "candidates"@)).len() > 0 {
            let cand = first_candidate(v);
            assert(parts_of(cand) =~= parts);
            lemma_parts_told(st, parts);
            let s1 = parts_read(st, parts);
            assert(deltas(s1.out) =~= texts_of(parts, false));
            assert(thoughts(s1.out) =~= texts_of(parts, true));
            assert(told(s1.out) =~= told_by(parts));
            assert(st.out.len() > 0 ==> s1.out[0] == s1.out.take(st.out.len() as int)[0]);
            assert(out == candidate_read(st, cand, v).out);
            if let JsonView::Str(reason) = field(cand, "finishReason"@) {
                lemma_one_more(s1.out, out.last());
                assert(out =~= s1.out.push(out.last()));
            }
        } else {
            assert(parts.len() == 0);
            assert(out == st.out);
        }
    } else {
        assert(parts_told(v).len() == 0);
        assert(out.len() == 0);
    }
}

/// A chunk without candidates that says why the prompt was blocked is an error, and with
/// that reason.
pub proof fn law_blocked_prompt_is_an_error(data: Seq<char>, v: JsonView, buf: BufferView)
    requires
        data.len() > 0,
        serde_parse(data) == Ok::<JsonView, Seq<char>>(v),
        !(field(v, "candidates"@) is Arr),
        has_field(v, "promptFeedback"@),
    ensures
        event_outcome(data, buf).0 matches Err(ErrorView::ContentFiltered { category }) && (field(
            field(v, "promptFeedback"@),
            "blockReason"@,
        ) matches JsonView::Str(s) ==> category == s),
        event_outcome(data, buf).1 == buf,
{
}

/// Whether two buffers hold the same but for the calls before this one.
pub open spec fn agree_from(a: BufferView, b: BufferView, n: int) -> bool {
    &&& a.started == b.started
    &&& a.finished == b.finished
    &&& a.pending_stop == b.pending_stop
    &&& forall|k: usize|
        k >= n ==> (#[trigger] a.calls.contains_key(k) == b.calls.contains_key(k)) && (
        b.calls.contains_key(k) ==> a.calls[k] == b.calls[k])
}

/// A chunk whose calls carry arguments that can be printed and read back is read, and
/// leaves all calls of the stream but its own as they were.
pub proof fn law_chunk_is_read(data: Seq<char>, v: JsonView, buf: BufferView)
    requires
        data.len() > 0,
        serde_parse(data) == Ok::<JsonView, Seq<char>>(v),
        field(v, "candidates"@) is Arr,
        parts_told(v).len() <= usize::MAX,
        forall|k: int|
            0 <= k < asked_in(parts_told(v)).len() ==> serde_parse(
                printed_args(#[trigger] asked_in(parts_told(v))[k]),
            ) is Ok,
    ensures
        event_outcome(data, buf).0 is Ok,
        agree_from(event_outcome(data, buf).1, buf, asked_in(parts_told(v)).len() as int),
{
    reveal_strlit("");
    let none = Step { out: seq![], buf, err: None };
    let model = words(field(v, "modelVersion"@));
    assert(v.str_or("modelVersion"@, ""@) =~= model);
    let st = if model.len() > 0 {
        none.push(started_event(model))
    } else {
        none
    };
    let parts = parts_told(v);
    if list(field(v, "candidates"@)).len() > 0 {
        assert(parts_of(first_candidate(v)) =~= parts);
        lemma_parts_read(st, parts);
        assert(event_outcome(data, buf).1 == parts_read(st, parts).buf);
    }
}

proof fn lemma_parts_read(st: Step, parts: Seq<JsonView>)
    requires
        st.err is None,
        parts.len() <= usize::MAX,
        forall|k: int|
            0 <= k < asked_in(parts).len() ==> serde_parse(
                printed_args(#[trigger] asked_in(parts)[k]),
            ) is Ok,
    ensures
        parts_read(st, parts).err is None,
        asked_in(parts).len() == calls_in(parts),
        calls_in(parts) <= parts.len(),
        agree_from(parts_read(st, parts).buf, st.buf, asked_in(parts).len() as int),
    decreases parts.len(),
{
    if parts.len() > 0 {
        let front = parts.drop_last();
        let part = parts.last();
        let calls = asked_in(parts);
        assert forall|k: int| 0 <= k < asked_in(front).len() implies serde_parse(
            printed_args(#[trigger] asked_in(front)[k]),
        ) is Ok by {
            assert(calls[k] == asked_in(front)[k]);
        }
        lemma_parts_read(st, front);
        if has_field(part, "functionCall"@) {
            let fc = field(part, "functionCall"@);
            assert(calls[calls.len() - 1] == fc);
            let before = parts_read(st, front);
            let s1 = text_read(before, part);
            let n = calls_in(front) as usize;
            let name = fc.str_or("name"@, ""@);
            let buf = s1.buf.on_start(n, id_of(fc, n as int), name).on_delta(n, printed_args(fc));
            assert(buf.calls[n].args =~= printed_args(fc));
        }
    }
}

/// A text that is no JSON is an error, an empty one says nothing.
pub proof fn law_unreadable_chunk_is_an_error(data: Seq<char>, buf: BufferView)
    ensures
        data.len() == 0 ==> event_outcome(data, buf) == (
            Ok::<Seq<EventView>, ErrorView>(seq![]),
            buf,
        ),
        data.len() > 0 && serde_parse(data) is Err ==> event_outcome(data, buf).1 == buf && (
        event_outcome(data, buf).0 matches Err(e) && e is Parse),
{
}

/// Whether a part on the wire is a content block.
pub open spec fn is_part(j: JsonView, b: ContentBlock) -> bool {
    match b {
        ContentBlock::Text { text } => field(j, "text"@) == JsonView::Str(text@),
        ContentBlock::Image { mime, data } => match data {
            ImageData::Base64(d) => {
                let x = field(j, "inline_data"@);
                field(x, "mime_type"@) == JsonView::Str(mime@) && field(x, "data"@)
                    == JsonView::Str(d@)
            },
            ImageData::Url(u) => {
                let x = field(j, "file_data"@);
                field(x, "mime_type"@) == JsonView::Str(mime@) && field(x, "file_uri"@)
                    == JsonView::Str(u@)
            },
        },
    }
}

/// Whether a part on the wire is a tool call.
pub open spec fn is_call_part(j: JsonView, tc: ToolCall) -> bool {
    field(field(j, "functionCall"@), "name"@) == JsonView::Str(tc.name@) && field(
        field(j, "functionCall"@),
        "args"@,
    ) == tc.arguments@
}

/// Whether parts on the wire are these blocks and then these calls, one for one.
pub open spec fn are_parts(
    s: Seq<JsonView>,
    blocks: Seq<ContentBlock>,
    calls: Seq<ToolCall>,
) -> bool {
    &&& s.len() == blocks.len() + calls.len()
    &&& forall|i: int| 0 <= i < blocks.len() ==> is_part(s[i], #[trigger] blocks[i])
    &&& forall|i: int|
        0 <= i < calls.len() ==> is_call_part(s[blocks.len() + i], #[trigger] calls[i])
}

/// Whether an id begins with this function and an at sign.
pub open spec fn names_function(id: Seq<char>, name: Seq<char>) -> bool {
    0 < name.len() < id.len() && id.take(name.len() as int) == name && id[name.len() as int] == '@'
        && !name.contains('@')
}

/// What the first block says; nothing where it is no text.
pub open spec fn first_words(content: Seq<ContentBlock>) -> Seq<char> {
    if content.len() > 0 {
        match content[0] {
            ContentBlock::Text { text } => text@,
            _ => seq![],
        }
    } else {
        seq![]
    }
}

/// Whether a turn on the wire says what a message says.
pub open spec fn says(j: JsonView, m: Message) -> bool {
    let role = field(j, "role"@);
    let parts = list(field(j, "parts"@));
    match m {
        Message::User { content } => role == JsonView::Str("user"@) && are_parts(
            parts,
            content@,
            seq![],
        ),
        Message::Assistant { content, tool_calls } => role == JsonView::Str("model"@) && are_parts(
            parts,
            content@,
            tool_calls@,
        ),
        Message::Tool { tool_call_id, content, is_error } => {
            let answer = field(parts[0], "functionResponse"@);
            let key = if is_error {
                "error"@
            } else {
                "output"@
            };
            let other = if is_error {
                "output"@
            } else {
                "error"@
            };
            &&& role == JsonView::Str("user"@)
            &&& parts.len() == 1
            &&& names_function(tool_call_id@, words(field(answer, "name"@)))
            &&& field(field(answer, "response"@), key) == JsonView::Str(first_words(content@))
            &&& !has_field(field(answer, "response"@), other)
        },
        Message::System { .. } => false,
    }
}

proof fn lemma_request_keys()
    ensures
        "args"@ != "data"@,
        "args"@ != "error"@,
        "args"@ != "file_data"@,
        "args"@ != "file_uri"@,
        "args"@ != "functionCall"@,
        "args"@ != "functionResponse"@,
        "args"@ != "inline_data"@,
        "args"@ != "mime_type"@,
        "args"@ != "name"@,
        "args"@ != "output"@,
        "args"@ != "parts"@,
        "args"@ != "response"@,
        "args"@ != "role"@,
        "args"@ != "text"@,
        "data"@ != "error"@,
        "data"@ != "file_data"@,
        "data"@ != "file_uri"@,
        "data"@ != "functionCall"@,
        "data"@ != "functionResponse"@,
        "data"@ != "inline_data"@,
        "data"@ != "mime_type"@,
        "data"@ != "name"@,
        "data"@ != "output"@,
        "data"@ != "parts"@,
        "data"@ != "response"@,
        "data"@ != "role"@,
        "data"@ != "text"@,
        "error"@ != "file_data"@,
        "error"@ != "file_uri"@,
        "error"@ != "functionCall"@,
        "error"@ != "functionResponse"@,
        "error"@ != "inline_data"@,
        "error"@ != "mime_type"@,
        "error"@ != "name"@,
        "error"@ != "output"@,
        "error"@ != "parts"@,
        "error"@ != "response"@,
        "error"@ != "role"@,
        "error"@ != "text"@,
        "file_data"@ != "file_uri"@,
        "file_data"@ != "functionCall"@,
        "file_data"@ != "functionResponse"@,
        "file_data"@ != "inline_data"@,
        "file_data"@ != "mime_type"@,
        "file_data"@ != "name"@,
        "file_data"@ != "output"@,
        "file_data"@ != "parts"@,
        "file_data"@ != "response"@,
        "file_data"@ != "role"@,
        "file_data"@ != "text"@,
        "file_uri"@ != "functionCall"@,
        "file_uri"@ != "functionResponse"@,
        "file_uri"@ != "inline_data"@,
        "file_uri"@ != "mime_type"@,
        "file_uri"@ != "name"@,
        "file_uri"@ != "output"@,
        "file_uri"@ != "parts"@,
        "file_uri"@ != "response"@,
        "file_uri"@ != "role"@,
        "file_uri"@ != "text"@,
        "functionCall"@ != "functionResponse"@,
        "functionCall"@ != "inline_data"@,
        "functionCall"@ != "mime_type"@,
        "functionCall"@ != "name"@,
        "functionCall"@ != "output"@,
        "functionCall"@ != "parts"@,
        "functionCall"@ != "response"@,
        "functionCall"@ != "role"@,
        "functionCall"@ != "text"@,
        "functionResponse"@ != "inline_data"@,
        "functionResponse"@ != "mime_type"@,
        "functionResponse"@ != "name"@,
        "functionResponse"@ != "output"@,
        "functionResponse"@ != "parts"@,
        "functionResponse"@ != "response"@,
        "functionResponse"@ != "role"@,
        "functionResponse"@ != "text"@,
        "inline_data"@ != "mime_type"@,
        "inline_data"@ != "name"@,
        "inline_data"@ != "output"@,
        "inline_data"@ != "parts"@,
        "inline_data"@ != "response"@,
        "inline_data"@ != "role"@,
        "inline_data"@ != "text"@,
        "mime_type"@ != "name"@,
        "mime_type"@ != "output"@,
        "mime_type"@ != "parts"@,
        "mime_type"@ != "response"@,
        "mime_type"@ != "role"@,
        "mime_type"@ != "text"@,
        "name"@ != "output"@,
        "name"@ != "parts"@,
        "name"@ != "response"@,
        "name"@ != "role"@,
        "name"@ != "text"@,
        "output"@ != "parts"@,
        "output"@ != "response"@,
        "output"@ != "role"@,
        "output"@ != "text"@,
        "parts"@ != "response"@,
        "parts"@ != "role"@,
        "parts"@ != "text"@,
        "response"@ != "role"@,
        "response"@ != "text"@,
        "role"@ != "text"@,
{
    reveal_strlit("args");
    reveal_strlit("data");
    reveal_strlit("error");
    reveal_strlit("file_data");
    reveal_strlit("file_uri");
    reveal_strlit("functionCall");
    reveal_strlit("functionResponse");
    reveal_strlit("inline_data");
    reveal_strlit("mime_type");
    reveal_strlit("name");
    reveal_strlit("output");
    reveal_strlit("parts");
    reveal_strlit("response");
    reveal_strlit("role");
    reveal_strlit("text");
    assert("args"@.len() == 4);
    assert("data"@.len() == 4);
    assert("error"@.len() == 5);
    assert("file_data"@.len() == 9);
    assert("file_uri"@.len() == 8);
    assert("functionCall"@.len() == 12);
    assert("functionResponse"@.len() == 16);
    assert("inline_data"@.len() == 11);
    assert("mime_type"@.len() == 9);
    assert("name"@.len() == 4);
    assert("output"@.len() == 6);
    assert("parts"@.len() == 5);
    assert("response"@.len() == 8);
    assert("role"@.len() == 4);
    assert("text"@.len() == 4);
    assert("args"@[0] != "data"@[0]);
    assert("args"@[0] != "name"@[0]);
    assert("args"@[0] != "role"@[0]);
    assert("args"@[0] != "text"@[0]);
    assert("data"@[0] != "name"@[0]);
    assert("data"@[0] != "role"@[0]);
    assert("data"@[0] != "text"@[0]);
    assert("error"@[0] != "parts"@[0]);
    assert("file_data"@[0] != "mime_type"@[0]);
    assert("file_uri"@[0] != "response"@[0]);
    assert("name"@[0] != "role"@[0]);
    assert("name"@[0] != "text"@[0]);
    assert("role"@[0] != "text"@[0]);
}

proof fn lemma_body_keys()
    ensures
        "cachedContent"@ != "contents"@,
        "cachedContent"@ != "generationConfig"@,
        "cachedContent"@ != "systemInstruction"@,
        "cachedContent"@ != "toolConfig"@,
        "cachedContent"@ != "tools"@,
        "contents"@ != "generationConfig"@,
        "contents"@ != "systemInstruction"@,
        "contents"@ != "toolConfig"@,
        "contents"@ != "tools"@,
        "generationConfig"@ != "systemInstruction"@,
        "generationConfig"@ != "toolConfig"@,
        "generationConfig"@ != "tools"@,
        "systemInstruction"@ != "toolConfig"@,
        "systemInstruction"@ != "tools"@,
        "toolConfig"@ != "tools"@,
{
    reveal_strlit("cachedContent");
    reveal_strlit("contents");
    reveal_strlit("generationConfig");
    reveal_strlit("systemInstruction");
    reveal_strlit("toolConfig");
    reveal_strlit("tools");
    assert("cachedContent"@.len() == 13);
    assert("contents"@.len() == 8);
    assert("generationConfig"@.len() == 16);
    assert("systemInstruction"@.len() == 17);
    assert("toolConfig"@.len() == 10);
    assert("tools"@.len() == 5);
}

proof fn lemma_config_keys()
    ensures
        "maxOutputTokens"@ != "responseMimeType"@,
        "maxOutputTokens"@ != "responseSchema"@,
        "maxOutputTokens"@ != "seed"@,
        "maxOutputTokens"@ != "stopSequences"@,
        "maxOutputTokens"@ != "temperature"@,
        "maxOutputTokens"@ != "thinkingConfig"@,
        "responseMimeType"@ != "responseSchema"@,
        "responseMimeType"@ != "seed"@,
        "responseMimeType"@ != "stopSequences"@,
        "responseMimeType"@ != "temperature"@,
        "responseMimeType"@ != "thinkingConfig"@,
        "responseSchema"@ != "seed"@,
        "responseSchema"@ != "stopSequences"@,
        "responseSchema"@ != "temperature"@,
        "responseSchema"@ != "thinkingConfig"@,
        "seed"@ != "stopSequences"@,
        "seed"@ != "temperature"@,
        "seed"@ != "thinkingConfig"@,
        "stopSequences"@ != "temperature"@,
        "stopSequences"@ != "thinkingConfig"@,
        "temperature"@ != "thinkingConfig"@,
{
    reveal_strlit("maxOutputTokens");
    reveal_strlit("responseMimeType");
    reveal_strlit("responseSchema");
    reveal_strlit("seed");
    reveal_strlit("stopSequences");
    reveal_strlit("temperature");
    reveal_strlit("thinkingConfig");
    assert("maxOutputTokens"@.len() == 15);
    assert("responseMimeType"@.len() == 16);
    assert("responseSchema"@.len() == 14);
    assert("seed"@.len() == 4);
    assert("stopSequences"@.len() == 13);
    assert("temperature"@.len() == 11);
    assert("thinkingConfig"@.len() == 14);
    assert("responseSchema"@[0] != "thinkingConfig"@[0]);
}

proof fn lemma_tool_keys()
    ensures
        "allowed_function_names"@ != "description"@,
        "allowed_function_names"@ != "mode"@,
        "allowed_function_names"@ != "name"@,
        "allowed_function_names"@ != "parameters"@,
        "description"@ != "mode"@,
        "description"@ != "name"@,
        "description"@ != "parameters"@,
        "mode"@ != "name"@,
        "mode"@ != "parameters"@,
        "name"@ != "parameters"@,
{
    reveal_strlit("allowed_function_names");
    reveal_strlit("description");
    reveal_strlit("mode");
    reveal_strlit("name");
    reveal_strlit("parameters");
    assert("allowed_function_names"@.len() == 22);
    assert("description"@.len() == 11);
    assert("mode"@.len() == 4);
    assert("name"@.len() == 4);
    assert("parameters"@.len() == 10);
    assert("mode"@[0] != "name"@[0]);
}

proof fn lemma_message_said(m: Message)
    ensures
        message_json(m) matches Ok(j) ==> says(j, m),
{
    lemma_request_keys();
    if let Message::Tool { tool_call_id, content, is_error } = m {
        reveal_strlit("");
        assert(""@ =~= seq![]);
        let id = tool_call_id@;
        lemma_first_at(id);
        if let Some(name) = function_of(id) {
            assert forall|i: int| 0 <= i < name.len() implies name[i] != '@' by {
                assert(name[i] == id[i]);
            }
            assert(id.take(name.len() as int) =~= name);
        }
    }
}

proof fn lemma_messages_said(s: Seq<Message>)
    ensures
        messages_json(s) matches Ok(out) ==> out.len() == s.len() && forall|i: int|
            0 <= i < s.len() ==> says(out[i], #[trigger] s[i]),
    decreases s.len(),
{
    if s.len() > 0 {
        lemma_messages_said(s.drop_last());
        lemma_message_said(s.last());
        if let Ok(out) = messages_json(s) {
            let before = messages_json(s.drop_last())->Ok_0;
            assert forall|i: int| 0 <= i < s.len() implies says(out[i], #[trigger] s[i]) by {
                if i < s.len() - 1 {
                    assert(s.drop_last()[i] == s[i]);
                    assert(out[i] == before[i]);
                }
            }
        }
    }
}

/// Whether a declaration on the wire is a tool.
pub open spec fn is_declaration(j: JsonView, t: ToolSpec) -> bool {
    &&& field(j, "name"@) == JsonView::Str(t.name@)
    &&& field(j, "description"@) == JsonView::Str(t.description@)
    &&& field(j, "parameters"@) == t.input_schema.schema@
}

/// Whether the settings on the wire are those of a request.
pub open spec fn settings_are(c: JsonView, req: ChatRequest) -> bool {
    &&& c is Obj
    &&& match req.max_output_tokens {
        Some(n) => field(c, "maxOutputTokens"@) == JsonView::Num(NumView::Int(n as int)),
        None => !has_field(c, "maxOutputTokens"@),
    }
    &&& match req.temperature {
        Some(t) => field(c, "temperature"@) == JsonView::Num(number_view(t)),
        None => !has_field(c, "temperature"@),
    }
    &&& match req.seed {
        Some(n) => field(c, "seed"@) == JsonView::Num(NumView::Int(n as int)),
        None => !has_field(c, "seed"@),
    }
    &&& match req.structured_output {
        Some(s) => field(c, "responseSchema"@) == s.schema@ && field(c, "responseMimeType"@)
            == JsonView::Str("application/json"@),
        None => !has_field(c, "responseSchema"@) && !has_field(c, "responseMimeType"@),
    }
    &&& has_field(c, "stopSequences"@) <==> req.stop_sequences@.len() > 0
    &&& list(field(c, "stopSequences"@)).len() == req.stop_sequences@.len()
    &&& forall|i: int|
        0 <= i < req.stop_sequences@.len() ==> list(field(c, "stopSequences"@))[i] == JsonView::Str(
            (#[trigger] req.stop_sequences@[i])@,
        )
    &&& field(field(c, "thinkingConfig"@), "thinkingBudget"@) == JsonView::Num(
        NumView::Int(
            match req.thinking {
                ThinkingMode::Off => 0,
                ThinkingMode::Auto => -1,
                ThinkingMode::Budget(n) => n as int,
            },
        ),
    )
}

/// Whether the choice of a tool on the wire is that of a request.
pub open spec fn choice_is(c: JsonView, choice: ToolChoice) -> bool {
    match choice {
        ToolChoice::Auto => field(c, "mode"@) == JsonView::Str("AUTO"@),
        ToolChoice::NoTool => field(c, "mode"@) == JsonView::Str("NONE"@),
        ToolChoice::Required => field(c, "mode"@) == JsonView::Str("ANY"@) && !has_field(
            c,
            "allowed_function_names"@,
        ),
        ToolChoice::Specific(name) => field(c, "mode"@) == JsonView::Str("ANY"@) && list(
            field(c, "allowed_function_names"@),
        ) == seq![JsonView::Str(name@)],
    }
}

/// A request is written as it is: each turn with its blocks, its calls or its result,
/// the system prompt, the tools and the choice among them, and the settings; and what
/// the request does not have, the body does not have either.
pub proof fn law_request_is_written(req: ChatRequest, body: JsonView)
    requires
        translated(req) == Ok::<JsonView, ErrorView>(body),
    ensures
        list(field(body, "contents"@)).len() == req.messages@.len(),
        forall|i: int|
            0 <= i < req.messages@.len() ==> says(
                list(field(body, "contents"@))[i],
                #[trigger] req.messages@[i],
            ),
        match req.system {
            Some(s) => list(field(field(body, "systemInstruction"@), "parts"@)).len() == 1 && field(
                list(field(field(body, "systemInstruction"@), "parts"@))[0],
                "text"@,
            ) == JsonView::Str(s@),
            None => !has_field(body, "systemInstruction"@),
        },
        settings_are(field(body, "generationConfig"@), req),
        has_field(body, "tools"@) <==> req.tools@.len() > 0,
        has_field(body, "toolConfig"@) <==> req.tools@.len() > 0,
        req.tools@.len() > 0 ==> {
            let tools = list(field(list(field(body, "tools"@))[0], "functionDeclarations"@));
            &&& list(field(body, "tools"@)).len() == 1
            &&& tools.len() == req.tools@.len()
            &&& forall|i: int|
                0 <= i < req.tools@.len() ==> is_declaration(tools[i], #[trigger] req.tools@[i])
            &&& choice_is(
                field(field(body, "toolConfig"@), "functionCallingConfig"@),
                req.tool_choice,
            )
        },
{
    lemma_request_keys();
    lemma_body_keys();
    lemma_config_keys();
    lemma_tool_keys();
    lemma_messages_said(req.messages@);
    assert(config_json(req) is Obj);
}

/// A request is refused only for what is wrong with it: a model that is not named, no
/// turns, a system turn, the result of a tool that names no function, or a choice of a
/// tool that is not there.
pub proof fn law_sound_request_is_written(req: ChatRequest)
    requires
        req.model is Explicit,
        req.messages@.len() > 0,
        forall|i: int|
            0 <= i < req.messages@.len() ==> match #[trigger] req.messages@[i] {
                Message::System { .. } => false,
                Message::Tool { tool_call_id, .. } => exists|name: Seq<char>|
                    names_function(tool_call_id@, name),
                _ => true,
            },
        req.tool_choice matches ToolChoice::Specific(name) ==> name@.len() > 0 && exists|i: int|
            0 <= i < req.tools@.len() && (#[trigger] req.tools@[i]).name@ == name@,
    ensures
        translated(req) is Ok,
{
    assert forall|i: int| 0 <= i < req.messages@.len() implies message_json(
        #[trigger] req.messages@[i],
    ) is Ok by {
        if let Message::Tool { tool_call_id, content, is_error } = req.messages@[i] {
            let id = tool_call_id@;
            let name = choose|name: Seq<char>| names_function(id, name);
            lemma_first_at(id);
            let k = first_at(id);
            let n = name.len() as int;
            if k < n {
                assert(id.take(n)[k] == '@');
                assert(name.contains('@'));
            }
        }
    }
    lemma_messages_read(req.messages@);
}

proof fn lemma_messages_read(s: Seq<Message>)
    requires
        forall|i: int| 0 <= i < s.len() ==> message_json(#[trigger] s[i]) is Ok,
    ensures
        messages_json(s) is Ok,
    decreases s.len(),
{
    if s.len() > 0 {
        let front = s.drop_last();
        assert forall|i: int| 0 <= i < front.len() implies message_json(#[trigger] front[i]) is Ok by {
            assert(front[i] == s[i]);
        }
        lemma_messages_read(front);
        assert(message_json(s[s.len() - 1]) is Ok);
    }
}

/// A request that refers to cached content names the first handle that it gives, and any
/// other request names none.
pub proof fn law_cached_content_is_named(req: ChatRequest, body: JsonView, i: int)
    requires
        translated(req) == Ok::<JsonView, ErrorView>(body),
        0 <= i <= req.cache_directives@.len(),
        forall|j: int| 0 <= j < i ==> !((#[trigger] req.cache_directives@[j]) is UseExplicit),
        i < req.cache_directives@.len() ==> req.cache_directives@[i] is UseExplicit,
    ensures
        i == req.cache_directives@.len() ==> !has_field(body, "cachedContent"@),
        i < req.cache_directives@.len() ==> (req.cache_directives@[i] matches
            CacheDirective::UseExplicit { handle } && field(body, "cachedContent"@)
            == JsonView::Str(handle.external_id@)),
{
    lemma_body_keys();
    lemma_first_handle(req.cache_directives@, i);
}

proof fn lemma_first_handle(s: Seq<CacheDirective>, i: int)
    requires
        0 <= i <= s.len(),
        forall|j: int| 0 <= j < i ==> !((#[trigger] s[j]) is UseExplicit),
        i < s.len() ==> s[i] is UseExplicit,
    ensures
        i == s.len() ==> cached_content(s) is None,
        i < s.len() ==> (s[i] matches CacheDirective::UseExplicit { handle } && cached_content(s)
            == Some(handle.external_id@)),
    decreases s.len(),
{
    if s.len() > 0 && i > 0 {
        assert(!(s[0] is UseExplicit));
        let rest = s.drop_first();
        assert forall|j: int| 0 <= j < i - 1 implies !((#[trigger] rest[j]) is UseExplicit) by {
            assert(rest[j] == s[j + 1]);
        }
        lemma_first_handle(rest, i - 1);
    }
}

/// A request is refused if its model is not named, if it has no turns or one of the
/// system, or if it asks for a tool that is not there.
pub proof fn law_unsound_requests_are_refused(req: ChatRequest)
    requires
        ({
            ||| req.model is Tier
            ||| req.messages@.len() == 0
            ||| exists|i: int| 0 <= i < req.messages@.len() && #[trigger] req.messages@[i] is System
            ||| req.tools@.len() > 0 && (req.tool_choice matches ToolChoice::Specific(name)
                && forall|i: int|
                0 <= i < req.tools@.len() ==> (#[trigger] req.tools@[i]).name@ != name@)
        }),
    ensures
        translated(req) matches Err(e) && e is InvalidRequest,
{
    if let Ok(body) = translated(req) {
        law_request_is_written(req, body);
        if exists|i: int| 0 <= i < req.messages@.len() && #[trigger] req.messages@[i] is System {
            let i = choose|i: int|
                0 <= i < req.messages@.len() && #[trigger] req.messages@[i] is System;
            assert(says(list(field(body, "contents"@))[i], req.messages@[i]));
        }
    }
    lemma_refusals(req.messages@);
}

proof fn lemma_refusals(s: Seq<Message>)
    ensures
        messages_json(s) matches Err(e) ==> e is InvalidRequest,
    decreases s.len(),
{
    if s.len() > 0 {
        lemma_refusals(s.drop_last());
    }
}

} // verus!
