//! What holds of whole requests and whole streams of Anthropic.

use crate::backends::anthropic::adapter::{event_outcome, mark_last_user, mark_message};
use crate::backends::anthropic::mapping::stop_reason;
use crate::json::{serde_parse, JsonView};
use crate::terms::{amount, field, has_field};
use crate::tool_buffer::BufferView;
use crate::types::{EventView, StopReason, Usage};
use vstd::prelude::*;
use vstd::string::*;

verus! {

/// Whether a reply that stops under this name has this stop reason.
pub open spec fn stops_as(name: Seq<char>, stop: StopReason) -> bool {
    &&& stop == StopReason::EndTurn <==> name == "end_turn"@
    &&& stop == StopReason::MaxTokens <==> name == "max_tokens"@
    &&& stop == StopReason::StopSequence <==> name == "stop_sequence"@
    &&& stop == StopReason::ToolUse <==> name == "tool_use"@
    &&& stop != StopReason::ContentFilter
}

/// Whether token counts are those that came: the fresh, the cached and the newly cached
/// input together are the whole input.
pub open spec fn counts_are(usage: Usage, u: JsonView) -> bool {
    let input = amount(field(u, "input_tokens"@)) + amount(field(u, "cache_read_input_tokens"@))
        + amount(field(u, "cache_creation_input_tokens"@));
    &&& usage.input_tokens == if input <= u64::MAX {
        input
    } else {
        u64::MAX as int
    }
    &&& usage.output_tokens == amount(field(u, "output_tokens"@))
    &&& usage.cached_input_tokens == amount(field(u, "cache_read_input_tokens"@))
    &&& usage.cache_creation_tokens == amount(field(u, "cache_creation_input_tokens"@))
    &&& usage.thinking_tokens == amount(
        field(
            u,
            if has_field(u, "thinking_tokens"@) {
                "thinking_tokens"@
            } else {
                "output_thinking_tokens"@
            },
        ),
    )
}

proof fn lemma_stop_names()
    ensures
        "end_turn"@ != "max_tokens"@,
        "end_turn"@ != "stop_sequence"@,
        "end_turn"@ != "tool_use"@,
        "max_tokens"@ != "stop_sequence"@,
        "max_tokens"@ != "tool_use"@,
        "stop_sequence"@ != "tool_use"@,
{
    reveal_strlit("end_turn");
    reveal_strlit("max_tokens");
    reveal_strlit("stop_sequence");
    reveal_strlit("tool_use");
    assert("end_turn"@.len() == 8);
    assert("max_tokens"@.len() == 10);
    assert("stop_sequence"@.len() == 13);
    assert("tool_use"@.len() == 8);
    assert("end_turn"@[0] != "tool_use"@[0]);
}

/// Each name of a stop reason means that reason.
pub proof fn lemma_stop_reasons()
    ensures
        forall|s: Seq<char>| stops_as(s, #[trigger] stop_reason(s)),
{
    lemma_stop_names();
}

/// One server-sent event: its name and its data.
pub struct Frame {
    pub event: Seq<char>,
    pub data: Seq<char>,
}

/// What a stream has given, and the buffer after it. What could not be read has given
/// nothing.
pub open spec fn stream_read(frames: Seq<Frame>, buf: BufferView) -> (Seq<EventView>, BufferView)
    decreases frames.len(),
{
    if frames.len() == 0 {
        (seq![], buf)
    } else {
        let (out, before) = stream_read(frames.drop_last(), buf);
        let (r, after) = event_outcome(frames.last().event, frames.last().data, before);
        match r {
            Ok(more) => (out + more, after),
            Err(_) => (out, after),
        }
    }
}

/// Whether a stream has come to its end.
pub open spec fn has_ended(s: Seq<EventView>) -> bool {
    exists|i: int| 0 <= i < s.len() && #[trigger] s[i] is Finished
}

proof fn lemma_names()
    ensures
        "message_stop"@ != "ping"@,
        "message_stop"@ != "error"@,
        "message_stop"@ != "message_start"@,
        "message_stop"@ != "content_block_start"@,
        "message_stop"@ != "content_block_delta"@,
        "message_stop"@ != "content_block_stop"@,
        "message_stop"@ != "message_delta"@,
{
    reveal_strlit("message_stop");
    reveal_strlit("ping");
    reveal_strlit("error");
    reveal_strlit("message_start");
    reveal_strlit("content_block_start");
    reveal_strlit("content_block_delta");
    reveal_strlit("content_block_stop");
    reveal_strlit("message_delta");
    assert("message_stop"@.len() == 12);
    assert("ping"@.len() == 4);
    assert("error"@.len() == 5);
    assert("message_start"@.len() == 13);
    assert("content_block_start"@.len() == 19);
    assert("content_block_delta"@.len() == 19);
    assert("content_block_stop"@.len() == 18);
    assert("message_delta"@.len() == 13);
}

proof fn lemma_one_event(event: Seq<char>, data: Seq<char>, buf: BufferView)
    ensures
        ({
            let (r, after) = event_outcome(event, data, buf);
            &&& buf.finished ==> after.finished
            &&& after.finished && !buf.finished ==> r is Ok && has_ended(r->Ok_0)
        }),
{
    let (r, after) = event_outcome(event, data, buf);
    if after.finished && !buf.finished {
        assert(r->Ok_0[0] is Finished);
    }
}

proof fn lemma_marked_streams_have_ended(frames: Seq<Frame>, buf: BufferView)
    requires
        !buf.finished,
    ensures
        stream_read(frames, buf).1.finished ==> has_ended(stream_read(frames, buf).0),
    decreases frames.len(),
{
    if frames.len() > 0 {
        lemma_marked_streams_have_ended(frames.drop_last(), buf);
        let (out, before) = stream_read(frames.drop_last(), buf);
        let last = frames.last();
        lemma_one_event(last.event, last.data, before);
        let (r, after) = event_outcome(last.event, last.data, before);
        let whole = stream_read(frames, buf).0;
        if before.finished {
            let i = choose|i: int| 0 <= i < out.len() && #[trigger] out[i] is Finished;
            assert(whole[i] == out[i]);
        } else if after.finished {
            let more = r->Ok_0;
            let i = choose|i: int| 0 <= i < more.len() && #[trigger] more[i] is Finished;
            assert(whole[out.len() + i] == more[i]);
        }
    }
}

/// Nobody is left waiting: however the stream went, once the message has stopped the
/// stream has come to its end.
pub proof fn law_message_stop_ends_the_stream(frames: Seq<Frame>, buf: BufferView)
    requires
        !buf.finished,
        frames.len() > 0,
        frames.last().event == "message_stop"@,
        frames.last().data.len() > 0,
        serde_parse(frames.last().data) is Ok,
    ensures
        has_ended(stream_read(frames, buf).0),
{
    lemma_names();
    lemma_marked_streams_have_ended(frames, buf);
    let before = stream_read(frames.drop_last(), buf).1;
    let (r, after) = event_outcome(frames.last().event, frames.last().data, before);
    assert(after.finished);
    assert(stream_read(frames, buf).1 == after);
}

/// The marker that asks for caching is put on a turn of the user alone, the last one:
/// every other turn stays as it is.
pub proof fn law_marker_is_on_the_last_user_turn(s: Seq<JsonView>, i: int)
    requires
        0 <= i < s.len(),
    ensures
        mark_last_user(s).len() == s.len(),
        s[i].at("role"@).as_str() != Some("user"@) ==> mark_last_user(s)[i] == s[i],
        s[i].at("role"@).as_str() == Some("user"@) && (forall|j: int|
            i < j < s.len() ==> (#[trigger] s[j]).at("role"@).as_str() != Some("user"@))
            ==> mark_last_user(s)[i] == mark_message(s[i]),
        (exists|j: int|
            i < j < s.len() && (#[trigger] s[j]).at("role"@).as_str() == Some("user"@))
            ==> mark_last_user(s)[i] == s[i],
    decreases s.len(),
{
    let front = s.drop_last();
    if s.last().at("role"@).as_str() == Some("user"@) {
        assert(s[s.len() - 1] == s.last());
    } else if i < front.len() {
        law_marker_is_on_the_last_user_turn(front, i);
        assert forall|j: int| i < j < front.len() implies front[j] == s[j] by {}
        if forall|j: int|
            i < j < s.len() ==> (#[trigger] s[j]).at("role"@).as_str() != Some("user"@) {
            assert forall|j: int| i < j < front.len() implies (#[trigger] front[j]).at(
                "role"@,
            ).as_str() != Some("user"@) by {
                assert(s[j].at("role"@).as_str() != Some("user"@));
            }
        }
        if exists|j: int|
            i < j < s.len() && (#[trigger] s[j]).at("role"@).as_str() == Some("user"@) {
            let j = choose|j: int|
                i < j < s.len() && (#[trigger] s[j]).at("role"@).as_str() == Some("user"@);
            assert(front[j].at("role"@).as_str() == Some("user"@));
        }
    } else {
        lemma_marked_len(front);
    }
}

proof fn lemma_marked_len(s: Seq<JsonView>)
    ensures
        mark_last_user(s).len() == s.len(),
    decreases s.len(),
{
    if s.len() > 0 {
        lemma_marked_len(s.drop_last());
    }
}

} // verus!
