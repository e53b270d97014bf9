//! What holds of whole requests and whole streams of OpenAI.

use crate::backends::openai::adapter::{
    choice_read, choices_read, chunk_read, done_read, drained, message_json, messages_json,
    request_messages, stop_reason, text_block, turn, usage_of, MAX_PARALLEL_CALLS,
};
use crate::json::{jstr, JsonView};
use crate::stream::Step;
use crate::tool_buffer::BufferView;
use crate::types::{no_usage, ChatRequest, EventView, Message};
use vstd::prelude::*;
use vstd::string::*;

verus! {

/// Whether a turn is that of the system.
pub open spec fn is_system_turn(m: JsonView) -> bool {
    m.at("role"@) == jstr("system"@)
}

proof fn lemma_roles()
    ensures
        "user"@ != "system"@,
        "assistant"@ != "system"@,
        "tool"@ != "system"@,
        "role"@ != "content"@,
        "role"@ != "tool_calls"@,
        "role"@ != "tool_call_id"@,
{
    reveal_strlit("user");
    reveal_strlit("system");
    reveal_strlit("assistant");
    reveal_strlit("tool");
    reveal_strlit("role");
    reveal_strlit("content");
    reveal_strlit("tool_calls");
    reveal_strlit("tool_call_id");
    assert("user"@.len() == 4);
    assert("system"@.len() == 6);
    assert("assistant"@.len() == 9);
    assert("tool"@.len() == 4);
    assert("role"@.len() == 4);
    assert("content"@.len() == 7);
    assert("tool_calls"@.len() == 10);
    assert("tool_call_id"@.len() == 12);
}

proof fn lemma_role(m: Message)
    ensures
        is_system_turn(message_json(m)) == (m is System),
{
    lemma_roles();
}

proof fn lemma_no_system_turn(s: Seq<Message>, i: int)
    requires
        0 <= i < messages_json(s, true).len(),
    ensures
        !is_system_turn(messages_json(s, true)[i]),
    decreases s.len(),
{
    if s.len() > 0 {
        let before = messages_json(s.drop_last(), true);
        if i < before.len() {
            lemma_no_system_turn(s.drop_last(), i);
        } else {
            lemma_role(s.last());
        }
    }
}

/// A request with a system prompt has one system turn on the wire, the first one, and
/// it holds that prompt: system messages among the turns are left out.
pub proof fn law_one_system_turn(req: ChatRequest, i: int)
    requires
        req.system is Some,
        0 <= i < request_messages(req).len(),
    ensures
        request_messages(req)[0] == JsonView::Obj(
            turn("system"@, seq![text_block((req.system->0)@)]),
        ),
        is_system_turn(request_messages(req)[i]) <==> i == 0,
{
    lemma_roles();
    if i > 0 {
        lemma_no_system_turn(req.messages@, i - 1);
    }
}

proof fn lemma_drain_keeps_stop(st: Step, n: nat)
    ensures
        drained(st, n).buf.pending_stop == st.buf.pending_stop,
    decreases n,
{
    if n > 0 {
        lemma_drain_keeps_stop(st, (n - 1) as nat);
    }
}

/// A stream whose reply has been finished is ended at the latest by the line that ends
/// the stream, with the reason that was given.
pub proof fn law_stop_reason_is_delivered(buf: BufferView)
    requires
        buf.pending_stop is Some,
        done_read(buf).err is None,
    ensures
        done_read(buf).out.len() > 0,
        done_read(buf).out.last() == (EventView::Finished {
            stop_reason: buf.pending_stop->0,
            usage: no_usage(),
        }),
        done_read(buf).buf.pending_stop is None,
{
    lemma_drain_keeps_stop(Step { out: seq![], buf, err: None }, MAX_PARALLEL_CALLS as nat);
}

/// Where the usage comes in a chunk of its own, it ends the stream with the reason that
/// the chunk before it gave.
pub proof fn law_late_usage_keeps_stop_reason(
    v: JsonView,
    choice: JsonView,
    reason: Seq<char>,
    w: JsonView,
    buf: BufferView,
)
    requires
        v.at("choices"@) == JsonView::Arr(seq![choice]),
        !(v.at("usage"@) is Obj),
        choice.at("finish_reason"@).as_str() == Some(reason),
        chunk_read(v, buf).err is None,
        w.at("usage"@) is Obj,
        w.at("choices"@).as_arr() is None || w.at("choices"@).as_arr()->0.len() == 0,
    ensures
        chunk_read(w, chunk_read(v, buf).buf).out == seq![
            EventView::Finished { stop_reason: stop_reason(reason), usage: usage_of(w.at("usage"@)) },
        ],
{
    let all = seq![choice];
    assert(v.at("choices"@).as_arr() == Some(all));
    let model = v.str_or("model"@, ""@);
    let st = Step {
        out: if model.len() > 0 && !buf.started {
            seq![crate::types::started_event(model)]
        } else {
            seq![]
        },
        buf: if model.len() > 0 {
            BufferView { started: true, ..buf }
        } else {
            buf
        },
        err: None,
    };
    assert(all.drop_last() =~= seq![]);
    assert(choices_read(st, all.drop_last(), v) == st);
    assert(choices_read(st, all, v) == choice_read(st, choice, v));
}

/// Whether a call with this index is handed out with this id.
pub open spec fn is_handed_out(s: Seq<EventView>, index: usize, id: Seq<char>) -> bool {
    exists|i: int|
        0 <= i < s.len() && (#[trigger] s[i] matches EventView::ToolCallEnd {
            index: at,
            id: who,
            ..
        } && at == index && who == id)
}

proof fn lemma_drain(st: Step, n: nat, index: usize)
    requires
        st.err is None,
        drained(st, n).err is None,
        st.buf.calls.dom().contains(index),
        n <= MAX_PARALLEL_CALLS,
    ensures
        index >= n ==> drained(st, n).buf.calls.dom().contains(index)
            && drained(st, n).buf.calls[index] == st.buf.calls[index],
        index < n ==> is_handed_out(drained(st, n).out, index, st.buf.calls[index].id),
    decreases n,
{
    if n > 0 {
        let before = drained(st, (n - 1) as nat);
        lemma_drain(st, (n - 1) as nat, index);
        let last = (n - 1) as usize;
        let after = drained(st, n);
        let id = st.buf.calls[index].id;
        if index < n - 1 {
            let i = choose|i: int|
                0 <= i < before.out.len() && (#[trigger] before.out[i] matches EventView::ToolCallEnd {
                    index: at,
                    id: who,
                    ..
                } && at == index && who == id);
            assert(after.out[i] == before.out[i]);
        } else if index == n - 1 {
            assert(before.buf.finalized(index) == st.buf.finalized(index));
            assert(after.out[before.out.len() as int] == after.out.last());
        }
    }
}

/// No call is lost: when the stream ends, every call that was begun and not handed out
/// is handed out now, or the end of the stream is an error.
pub proof fn law_no_call_is_lost(buf: BufferView, index: usize)
    requires
        index < MAX_PARALLEL_CALLS,
        buf.calls.dom().contains(index),
    ensures
        done_read(buf).err is Some || is_handed_out(
            done_read(buf).out,
            index,
            buf.calls[index].id,
        ),
{
    let st = Step { out: seq![], buf, err: None };
    let d = drained(st, MAX_PARALLEL_CALLS as nat);
    if d.err is None {
        lemma_drain(st, MAX_PARALLEL_CALLS as nat, index);
        let id = buf.calls[index].id;
        let i = choose|i: int|
            0 <= i < d.out.len() && (#[trigger] d.out[i] matches EventView::ToolCallEnd {
                index: at,
                id: who,
                ..
            } && at == index && who == id);
        assert(done_read(buf).out[i] == d.out[i]);
    }
}

} // verus!
