//! What holds of the streams that Anthropic sends.

use crate::backends::anthropic::adapter::event_outcome;
use crate::backends::anthropic::laws::{
    counts_are, lemma_stop_reasons, stops_as, stream_read, Frame,
};
use crate::json::{serde_parse, JsonView};
use crate::terms::{
    amount, field, finishes, handed_out, lemma_added, lemma_alone, lemma_none, models, pieces,
    starts, told, words, Told,
};
use crate::text::trimmed;
use crate::tool_buffer::BufferView;
use crate::types::{no_usage, ErrorView, EventView, StopReason};
use vstd::prelude::*;
use vstd::string::*;

verus! {

proof fn lemma_events()
    ensures
        "content_block_delta"@ != "content_block_start"@,
        "content_block_delta"@ != "content_block_stop"@,
        "content_block_delta"@ != "error"@,
        "content_block_delta"@ != "message_delta"@,
        "content_block_delta"@ != "message_start"@,
        "content_block_delta"@ != "message_stop"@,
        "content_block_delta"@ != "ping"@,
        "content_block_start"@ != "content_block_stop"@,
        "content_block_start"@ != "error"@,
        "content_block_start"@ != "message_delta"@,
        "content_block_start"@ != "message_start"@,
        "content_block_start"@ != "message_stop"@,
        "content_block_start"@ != "ping"@,
        "content_block_stop"@ != "error"@,
        "content_block_stop"@ != "message_delta"@,
        "content_block_stop"@ != "message_start"@,
        "content_block_stop"@ != "message_stop"@,
        "content_block_stop"@ != "ping"@,
        "error"@ != "message_delta"@,
        "error"@ != "message_start"@,
        "error"@ != "message_stop"@,
        "error"@ != "ping"@,
        "message_delta"@ != "message_start"@,
        "message_delta"@ != "message_stop"@,
        "message_delta"@ != "ping"@,
        "message_start"@ != "message_stop"@,
        "message_start"@ != "ping"@,
        "message_stop"@ != "ping"@,
{
    reveal_strlit("content_block_delta");
    reveal_strlit("content_block_start");
    reveal_strlit("content_block_stop");
    reveal_strlit("error");
    reveal_strlit("message_delta");
    reveal_strlit("message_start");
    reveal_strlit("message_stop");
    reveal_strlit("ping");
    assert("content_block_delta"@.len() == 19);
    assert("content_block_start"@.len() == 19);
    assert("content_block_stop"@.len() == 18);
    assert("error"@.len() == 5);
    assert("message_delta"@.len() == 13);
    assert("message_start"@.len() == 13);
    assert("message_stop"@.len() == 12);
    assert("ping"@.len() == 4);
    assert("content_block_delta"@[14] != "content_block_start"@[14]);
    assert("message_delta"@[8] != "message_start"@[8]);
}

proof fn lemma_kinds()
    ensures
        "text"@ != "thinking"@,
        "text"@ != "tool_use"@,
        "thinking"@ != "tool_use"@,
{
    reveal_strlit("text");
    reveal_strlit("thinking");
    reveal_strlit("tool_use");
    assert("text"@.len() == 4);
    assert("thinking"@.len() == 8);
    assert("tool_use"@.len() == 8);
    assert("thinking"@[1] != "tool_use"@[1]);
}

proof fn lemma_pieces()
    ensures
        "input_json_delta"@ != "text_delta"@,
        "input_json_delta"@ != "thinking_delta"@,
        "text_delta"@ != "thinking_delta"@,
{
    reveal_strlit("input_json_delta");
    reveal_strlit("text_delta");
    reveal_strlit("thinking_delta");
    assert("input_json_delta"@.len() == 16);
    assert("text_delta"@.len() == 10);
    assert("thinking_delta"@.len() == 14);
}

/// Whether a frame holds a payload.
pub open spec fn is_payload(f: Frame) -> bool {
    f.data.len() > 0 && f.event != "ping"@ && f.event != "error"@ && serde_parse(f.data) is Ok
}

/// What a frame holds.
pub open spec fn payload(f: Frame) -> JsonView {
    serde_parse(f.data)->Ok_0
}

/// The block that a frame speaks of.
pub open spec fn place(f: Frame) -> usize {
    amount(field(payload(f), "index"@)) as usize
}

/// Whether a frame begins a block of this kind.
pub open spec fn begins(f: Frame, kind: Seq<char>) -> bool {
    is_payload(f) && f.event == "content_block_start"@ && field(
        field(payload(f), "content_block"@),
        "type"@,
    ) == JsonView::Str(kind)
}

/// Whether a frame brings a piece of a block, of this kind and with this member.
pub open spec fn brings(f: Frame, kind: Seq<char>, key: Seq<char>) -> bool {
    &&& is_payload(f)
    &&& f.event == "content_block_delta"@
    &&& field(field(payload(f), "delta"@), "type"@) == JsonView::Str(kind)
    &&& field(field(payload(f), "delta"@), key) is Str
}

/// A text of the block that a frame begins.
pub open spec fn first_words(f: Frame, key: Seq<char>) -> Seq<char> {
    words(field(field(payload(f), "content_block"@), key))
}

/// A text of the piece that a frame brings.
pub open spec fn more_words(f: Frame, key: Seq<char>) -> Seq<char> {
    words(field(field(payload(f), "delta"@), key))
}

/// What a frame tells.
pub open spec fn told_in(f: Frame) -> Seq<Told> {
    if begins(f, "text"@) && first_words(f, "text"@).len() > 0 {
        seq![Told::Said(first_words(f, "text"@))]
    } else if begins(f, "thinking"@) && first_words(f, "thinking"@).len() > 0 {
        seq![Told::Thought(first_words(f, "thinking"@))]
    } else if begins(f, "tool_use"@) {
        seq![Told::Called(first_words(f, "name"@))]
    } else if brings(f, "text_delta"@, "text"@) {
        seq![Told::Said(more_words(f, "text"@))]
    } else if brings(f, "thinking_delta"@, "thinking"@) {
        seq![Told::Thought(more_words(f, "thinking"@))]
    } else {
        seq![]
    }
}

/// The tool call that a frame begins.
pub open spec fn started_in(f: Frame) -> Seq<(usize, Seq<char>, Seq<char>)> {
    if begins(f, "tool_use"@) {
        seq![(place(f), first_words(f, "id"@), first_words(f, "name"@))]
    } else {
        seq![]
    }
}

/// The piece of arguments that a frame brings.
pub open spec fn pieces_in(f: Frame) -> Seq<(usize, Seq<char>)> {
    if brings(f, "input_json_delta"@, "partial_json"@) {
        seq![(place(f), more_words(f, "partial_json"@))]
    } else {
        seq![]
    }
}

/// Whether a frame says why the message stops, and what it took.
pub open spec fn says_why(f: Frame) -> bool {
    &&& is_payload(f)
    &&& f.event == "message_delta"@
    &&& field(field(payload(f), "delta"@), "stop_reason"@) is Str
    &&& field(payload(f), "usage"@) is Obj
}

/// A frame is told as it came: its text or thought, the call that it begins and the piece
/// of arguments that it brings, the model, and the end of the message with its reason and
/// its token counts.
pub proof fn law_frame_is_told(f: Frame, buf: BufferView, out: Seq<EventView>)
    requires
        event_outcome(f.event, f.data, buf).0 == Ok::<Seq<EventView>, ErrorView>(out),
    ensures
        told(out) == told_in(f),
        starts(out) == started_in(f),
        pieces(out) == pieces_in(f),
        handed_out(out).len() > 0 ==> is_payload(f) && f.event == "content_block_stop"@,
        is_payload(f) && f.event == "message_start"@ ==> {
            let message = field(payload(f), "message"@);
            &&& models(out) == seq![words(field(message, "model"@))]
            &&& out.len() == 1
            &&& out[0] matches EventView::Started { cache_hit, .. } && cache_hit.cached_input_tokens
                == amount(field(field(message, "usage"@), "cache_read_input_tokens"@))
        },
        !(is_payload(f) && f.event == "message_start"@) ==> models(out).len() == 0,
        says_why(f) ==> {
            &&& finishes(out).len() == 1
            &&& stops_as(
                words(field(field(payload(f), "delta"@), "stop_reason"@)),
                finishes(out)[0].0,
            )
            &&& counts_are(finishes(out)[0].1, field(payload(f), "usage"@))
        },
        is_payload(f) && f.event == "message_stop"@ && !buf.finished ==> finishes(out) == seq![
            (StopReason::Other, no_usage()),
        ],
        finishes(out).len() > 0 ==> says_why(f) || (is_payload(f) && f.event == "message_stop"@
            && !buf.finished),
{
    reveal_strlit("");
    lemma_events();
    lemma_kinds();
    lemma_pieces();
    lemma_stop_reasons();
    if out.len() == 0 {
        lemma_none(out);
    } else {
        lemma_alone(out[0]);
        assert(out =~= seq![out[0]]);
    }
    if is_payload(f) {
        let v = payload(f);
        let b = field(v, "content_block"@);
        assert(b.str_or("text"@, ""@) =~= words(field(b, "text"@)));
        assert(b.str_or("thinking"@, ""@) =~= words(field(b, "thinking"@)));
        assert(b.str_or("id"@, ""@) =~= words(field(b, "id"@)));
        assert(b.str_or("name"@, ""@) =~= words(field(b, "name"@)));
        assert(field(v, "message"@).str_or("model"@, ""@) =~= words(
            field(field(v, "message"@), "model"@),
        ));
    }
}

/// A frame is an error only where it says so itself, and then in its own words, or where
/// it is no JSON.
pub proof fn law_only_bad_frames_are_errors(f: Frame, buf: BufferView)
    ensures
        ({
            let (r, after) = event_outcome(f.event, f.data, buf);
            &&& is_payload(f) || f.data.len() == 0 || f.event == "ping"@ <==> r is Ok
            &&& r is Err ==> after == buf
            &&& f.data.len() > 0 && f.event == "error"@ ==> (r matches Err(ErrorView::Internal(m))
                && (serde_parse(f.data) matches Ok(v) ==> (field(
                field(v, "error"@),
                "message"@,
            ) matches JsonView::Str(s) ==> m == s)))
            &&& r matches Err(e) ==> f.event == "error"@ || e is Parse
        }),
{
    lemma_events();
}

/// What a stream tells, frame by frame.
pub open spec fn frames_told(frames: Seq<Frame>) -> Seq<Told>
    decreases frames.len(),
{
    if frames.len() == 0 {
        seq![]
    } else {
        frames_told(frames.drop_last()) + told_in(frames.last())
    }
}

/// A stream is told as it came: each text, each thought and each call, in the order in
/// which they came, and none left out.
pub proof fn law_stream_is_told(frames: Seq<Frame>, buf: BufferView)
    ensures
        told(stream_read(frames, buf).0) == frames_told(frames),
    decreases frames.len(),
{
    lemma_none(seq![]);
    if frames.len() > 0 {
        let front = frames.drop_last();
        law_stream_is_told(front, buf);
        let (out, before) = stream_read(front, buf);
        let f = frames.last();
        let r = event_outcome(f.event, f.data, before).0;
        law_only_bad_frames_are_errors(f, before);
        match r {
            Ok(more) => {
                law_frame_is_told(f, before, more);
                lemma_added(out, more);
            },
            Err(_) => {
                assert(told_in(f).len() == 0);
                assert(frames_told(frames) =~= frames_told(front));
            },
        }
    }
}

/// The arguments that frames bring for the call in this place, put together.
pub open spec fn arguments_in(frames: Seq<Frame>, k: usize) -> Seq<char>
    decreases frames.len(),
{
    if frames.len() == 0 {
        seq![]
    } else {
        let f = frames.last();
        let before = arguments_in(frames.drop_last(), k);
        if brings(f, "input_json_delta"@, "partial_json"@) && place(f) == k {
            before + more_words(f, "partial_json"@)
        } else {
            before
        }
    }
}

/// Whether no frame begins or ends the call in this place.
pub open spec fn leave_open(frames: Seq<Frame>, k: usize) -> bool {
    forall|i: int|
        0 <= i < frames.len() ==> {
            let f = #[trigger] frames[i];
            !((begins(f, "tool_use"@) || (is_payload(f) && f.event == "content_block_stop"@))
                && place(f) == k)
        }
}

proof fn lemma_arguments(frames: Seq<Frame>, k: usize, buf: BufferView)
    requires
        buf.calls.contains_key(k),
        leave_open(frames, k),
    ensures
        ({
            let after = stream_read(frames, buf).1;
            &&& after.calls.contains_key(k)
            &&& after.calls[k].id == buf.calls[k].id
            &&& after.calls[k].name == buf.calls[k].name
            &&& after.calls[k].args == buf.calls[k].args + arguments_in(frames, k)
        }),
    decreases frames.len(),
{
    lemma_events();
    lemma_kinds();
    lemma_pieces();
    if frames.len() == 0 {
        assert(buf.calls[k].args + arguments_in(frames, k) =~= buf.calls[k].args);
    } else {
        let front = frames.drop_last();
        assert forall|i: int| 0 <= i < front.len() implies {
            let f = #[trigger] front[i];
            !((begins(f, "tool_use"@) || (is_payload(f) && f.event == "content_block_stop"@))
                && place(f) == k)
        } by {
            assert(front[i] == frames[i]);
        }
        lemma_arguments(front, k, buf);
        let before = stream_read(front, buf).1;
        let f = frames[frames.len() - 1];
        let after = event_outcome(f.event, f.data, before).1;
        assert(after.calls.contains_key(k));
        assert(after.calls[k].args =~= buf.calls[k].args + arguments_in(frames, k));
    }
}

/// A tool call is handed out when it ends, with the id under which it began and with the
/// arguments that came for it in between, put together in their order and read, whatever
/// else the stream brought meanwhile.
pub proof fn law_call_is_handed_out(first: Frame, mid: Seq<Frame>, last: Frame, buf: BufferView)
    requires
        begins(first, "tool_use"@),
        leave_open(mid, place(first)),
        is_payload(last),
        last.event == "content_block_stop"@,
        place(last) == place(first),
    ensures
        ({
            let opened = event_outcome(first.event, first.data, buf).1;
            let grown = stream_read(mid, opened).1;
            let args = arguments_in(mid, place(first));
            let r = event_outcome(last.event, last.data, grown).0;
            &&& r is Ok
            &&& trimmed(args).len() == 0 ==> handed_out(r->Ok_0) == seq![
                (place(first), first_words(first, "id"@), JsonView::Obj(Map::empty())),
            ]
            &&& trimmed(args).len() > 0 ==> (serde_parse(args) matches Ok(v) ==> handed_out(
                r->Ok_0,
            ) == seq![(place(first), first_words(first, "id"@), v)])
            &&& trimmed(args).len() > 0 && serde_parse(args) is Err ==> handed_out(r->Ok_0).len()
                == 0
        }),
{
    reveal_strlit("");
    lemma_events();
    lemma_kinds();
    let b = field(payload(first), "content_block"@);
    assert(b.str_or("id"@, ""@) =~= words(field(b, "id"@)));
    let opened = event_outcome(first.event, first.data, buf).1;
    let k = place(first);
    lemma_arguments(mid, k, opened);
    let grown = stream_read(mid, opened).1;
    assert(grown.calls[k].args =~= arguments_in(mid, k));
    let out = event_outcome(last.event, last.data, grown).0->Ok_0;
    if out.len() > 0 {
        lemma_alone(out[0]);
        assert(out =~= seq![out[0]]);
    } else {
        lemma_none(out);
    }
}

} // verus!
