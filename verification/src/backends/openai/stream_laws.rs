//! What holds of the streams that OpenAI sends.

use crate::backends::openai::adapter::{
    call_opened, call_read, calls_read, choice_read, choices_read, done_read, drained,
    event_outcome, finish_read, texts_read, MAX_PARALLEL_CALLS,
};
use crate::json::{serde_parse, JsonView, NumView};
use crate::stream::Step;
use crate::terms::{
    amount, field, finishes, held, honest, lemma_honest, lemma_none, lemma_one_more, list, models,
    pieces, replayed, starts, told, words, Told,
};
use crate::text::trimmed;
use crate::tool_buffer::BufferView;
use crate::types::{started_event, ErrorView, EventView, StopReason, Usage};
use vstd::prelude::*;
use vstd::string::*;

verus! {

/// Whether a reply that finishes under this name has this stop reason.
pub open spec fn stops_as(name: Seq<char>, stop: StopReason) -> bool {
    &&& stop == StopReason::EndTurn <==> name == "stop"@
    &&& stop == StopReason::MaxTokens <==> name == "length"@
    &&& stop == StopReason::ToolUse <==> name == "tool_calls"@ || name == "function_call"@
    &&& stop == StopReason::ContentFilter <==> name == "content_filter"@
    &&& stop != StopReason::StopSequence
}

/// Whether token counts are those that came.
pub open spec fn counts_are(usage: Usage, u: JsonView) -> bool {
    &&& usage.input_tokens == amount(field(u, "prompt_tokens"@))
    &&& usage.output_tokens == amount(field(u, "completion_tokens"@))
    &&& usage.cached_input_tokens == amount(
        field(field(u, "prompt_tokens_details"@), "cached_tokens"@),
    )
    &&& usage.cache_creation_tokens == 0
    &&& usage.thinking_tokens == 0
}

/// The names of finish reasons differ.
pub proof fn lemma_reasons()
    ensures
        "content_filter"@ != "function_call"@,
        "content_filter"@ != "length"@,
        "content_filter"@ != "stop"@,
        "content_filter"@ != "tool_calls"@,
        "function_call"@ != "length"@,
        "function_call"@ != "stop"@,
        "function_call"@ != "tool_calls"@,
        "length"@ != "stop"@,
        "length"@ != "tool_calls"@,
        "stop"@ != "tool_calls"@,
{
    reveal_strlit("content_filter");
    reveal_strlit("function_call");
    reveal_strlit("length");
    reveal_strlit("stop");
    reveal_strlit("tool_calls");
    assert("content_filter"@.len() == 14);
    assert("function_call"@.len() == 13);
    assert("length"@.len() == 6);
    assert("stop"@.len() == 4);
    assert("tool_calls"@.len() == 10);
}

/// The place of a call: the one that it gives, or else where it stands in the chunk.
pub open spec fn place(tc: JsonView, pos: int) -> usize {
    match field(tc, "index"@) {
        JsonView::Num(NumView::Int(n)) => if 0 <= n <= u64::MAX && n <= usize::MAX {
            n as usize
        } else {
            pos as usize
        },
        _ => pos as usize,
    }
}

/// The id that a call carries.
pub open spec fn id_in(tc: JsonView) -> Seq<char> {
    words(field(tc, "id"@))
}

/// The function that a call names.
pub open spec fn name_in(tc: JsonView) -> Seq<char> {
    words(field(field(tc, "function"@), "name"@))
}

/// The arguments that a call brings.
pub open spec fn args_in(tc: JsonView) -> Seq<char> {
    words(field(field(tc, "function"@), "arguments"@))
}

/// The calls that begin.
pub open spec fn begun_in(tcs: Seq<JsonView>) -> Seq<(usize, Seq<char>, Seq<char>)>
    decreases tcs.len(),
{
    if tcs.len() == 0 {
        seq![]
    } else {
        let tc = tcs.last();
        let before = begun_in(tcs.drop_last());
        if id_in(tc).len() > 0 {
            before.push((place(tc, tcs.len() - 1), id_in(tc), name_in(tc)))
        } else {
            before
        }
    }
}

/// The pieces of arguments that come.
pub open spec fn pieces_in(tcs: Seq<JsonView>) -> Seq<(usize, Seq<char>)>
    decreases tcs.len(),
{
    if tcs.len() == 0 {
        seq![]
    } else {
        let tc = tcs.last();
        let before = pieces_in(tcs.drop_last());
        if args_in(tc).len() > 0 {
            before.push((place(tc, tcs.len() - 1), args_in(tc)))
        } else {
            before
        }
    }
}

/// The functions that are called.
pub open spec fn called_in(tcs: Seq<JsonView>) -> Seq<Told>
    decreases tcs.len(),
{
    if tcs.len() == 0 {
        seq![]
    } else if id_in(tcs.last()).len() > 0 {
        called_in(tcs.drop_last()).push(Told::Called(name_in(tcs.last())))
    } else {
        called_in(tcs.drop_last())
    }
}

/// The calls of a choice.
pub open spec fn calls_of(choice: JsonView) -> Seq<JsonView> {
    list(field(field(choice, "delta"@), "tool_calls"@))
}

/// What a choice tells: its reasoning, under the name that is there, then its text, then
/// its calls.
pub open spec fn told_by(choice: JsonView) -> Seq<Told> {
    let delta = field(choice, "delta"@);
    let thought = words(
        field(
            delta,
            if field(delta, "reasoning_content"@) is Str {
                "reasoning_content"@
            } else {
                "reasoning"@
            },
        ),
    );
    let said = words(field(delta, "content"@));
    (if thought.len() > 0 {
        seq![Told::Thought(thought)]
    } else {
        seq![]
    }) + (if said.len() > 0 {
        seq![Told::Said(said)]
    } else {
        seq![]
    }) + called_in(calls_of(choice))
}

/// What the choices tell.
pub open spec fn all_told(choices: Seq<JsonView>) -> Seq<Told>
    decreases choices.len(),
{
    if choices.len() == 0 {
        seq![]
    } else {
        all_told(choices.drop_last()) + told_by(choices.last())
    }
}

/// The calls that begin in the choices.
pub open spec fn all_begun(choices: Seq<JsonView>) -> Seq<(usize, Seq<char>, Seq<char>)>
    decreases choices.len(),
{
    if choices.len() == 0 {
        seq![]
    } else {
        all_begun(choices.drop_last()) + begun_in(calls_of(choices.last()))
    }
}

/// The pieces of arguments that the choices bring.
pub open spec fn all_pieces(choices: Seq<JsonView>) -> Seq<(usize, Seq<char>)>
    decreases choices.len(),
{
    if choices.len() == 0 {
        seq![]
    } else {
        all_pieces(choices.drop_last()) + pieces_in(calls_of(choices.last()))
    }
}

/// Why the choices finish.
pub open spec fn reasons_in(choices: Seq<JsonView>) -> Seq<Seq<char>>
    decreases choices.len(),
{
    if choices.len() == 0 {
        seq![]
    } else if field(choices.last(), "finish_reason"@) is Str {
        reasons_in(choices.drop_last()).push(words(field(choices.last(), "finish_reason"@)))
    } else {
        reasons_in(choices.drop_last())
    }
}

proof fn lemma_calls(st: Step, tcs: Seq<JsonView>, start: BufferView)
    requires
        st.err is None,
        honest(st.out, start, st.buf),
    ensures
        ({
            let after = calls_read(st, tcs);
            &&& honest(after.out, start, after.buf)
            &&& after.err is None ==> {
                &&& told(after.out) == told(st.out) + called_in(tcs)
                &&& starts(after.out) == starts(st.out) + begun_in(tcs)
                &&& pieces(after.out) == pieces(st.out) + pieces_in(tcs)
            }
            &&& finishes(after.out) == finishes(st.out)
            &&& models(after.out) == models(st.out)
            &&& after.buf.pending_stop == st.buf.pending_stop
        }),
    decreases tcs.len(),
{
    reveal_strlit("");
    if tcs.len() == 0 {
        assert(told(st.out) + called_in(tcs) =~= told(st.out));
        assert(starts(st.out) + begun_in(tcs) =~= starts(st.out));
        assert(pieces(st.out) + pieces_in(tcs) =~= pieces(st.out));
    } else {
        let front = tcs.drop_last();
        lemma_calls(st, front, start);
        let before = calls_read(st, front);
        if before.err is None {
            let tc = tcs.last();
            let pos = tcs.len() - 1;
            assert(tc.str_or("id"@, ""@) =~= id_in(tc));
            assert(tc.at("function"@).str_or("name"@, ""@) =~= name_in(tc));
            assert(tc.at("function"@).str_or("arguments"@, ""@) =~= args_in(tc));
            let index = place(tc, pos);
            let e1 = EventView::ToolCallStart { index, id: id_in(tc), name: name_in(tc) };
            let e2 = EventView::ToolCallArgsDelta { index, args_delta: args_in(tc) };
            let opened = call_opened(before, tc, pos);
            if opened.err is None {
                lemma_one_more(before.out, e1);
                if id_in(tc).len() > 0 {
                    lemma_honest(before.out, start, before.buf, e1, opened.buf);
                }
                assert(told(opened.out) =~= told(st.out) + called_in(tcs));
                assert(starts(opened.out) =~= starts(st.out) + begun_in(tcs));
                let after = call_read(before, tc, pos);
                lemma_one_more(opened.out, e2);
                if args_in(tc).len() > 0 {
                    lemma_honest(opened.out, start, opened.buf, e2, after.buf);
                }
                assert(pieces(after.out) =~= pieces(st.out) + pieces_in(tcs));
            }
        }
    }
}

proof fn lemma_drained(st: Step, n: nat, start: BufferView)
    requires
        st.err is None,
        honest(st.out, start, st.buf),
        n <= MAX_PARALLEL_CALLS,
    ensures
        ({
            let after = drained(st, n);
            &&& honest(after.out, start, after.buf) || after.err is Some
            &&& told(after.out) == told(st.out)
            &&& starts(after.out) == starts(st.out)
            &&& pieces(after.out) == pieces(st.out)
            &&& finishes(after.out) == finishes(st.out)
            &&& models(after.out) == models(st.out)
            &&& after.buf.pending_stop == st.buf.pending_stop
            &&& after.err is None ==> forall|k: usize|
                k < n ==> #[trigger] held(after.buf, k) is None
            &&& (forall|k: usize| k < n ==> (#[trigger] held(st.buf, k) matches Some(c)
                ==> trimmed(c.args).len() == 0 || serde_parse(c.args) is Ok)) ==> after.err is None
            &&& after.err is None ==> forall|k: usize|
                k >= n ==> #[trigger] held(after.buf, k) == held(st.buf, k)
        }),
    decreases n,
{
    if n > 0 {
        let m = (n - 1) as nat;
        lemma_drained(st, m, start);
        let before = drained(st, m);
        let index = (n - 1) as usize;
        if before.err is None {
            assert(held(before.buf, index) == held(st.buf, index));
            if before.buf.calls.dom().contains(index) {
                if let Ok((id, name, args)) = before.buf.finalized(index) {
                    let e = EventView::ToolCallEnd { index, id, parsed_args: args };
                    lemma_one_more(before.out, e);
                    lemma_honest(before.out, start, before.buf, e, before.buf.without(index));
                }
            }
            let after = drained(st, n);
            if after.err is None {
                assert forall|k: usize| k < n implies #[trigger] held(after.buf, k) is None by {
                    if k < m {
                        assert(held(before.buf, k) is None);
                    }
                }
                assert forall|k: usize| k >= n implies #[trigger] held(after.buf, k) == held(
                    st.buf,
                    k,
                ) by {
                    assert(held(before.buf, k) == held(st.buf, k));
                }
            }
        }
    }
}

/// Whether the ends that events tell come for these reasons, with these token counts.
pub open spec fn end_as(ends: Seq<(StopReason, Usage)>, reasons: Seq<Seq<char>>, u: JsonView) -> bool {
    &&& ends.len() == reasons.len()
    &&& forall|i: int|
        0 <= i < ends.len() ==> stops_as(reasons[i], (#[trigger] ends[i]).0) && counts_are(
            ends[i].1,
            u,
        )
}

proof fn lemma_choice(st: Step, choice: JsonView, v: JsonView, start: BufferView)
    requires
        st.err is None,
        honest(st.out, start, st.buf),
    ensures
        ({
            let after = choice_read(st, choice, v);
            &&& after.err is None ==> {
                &&& honest(after.out, start, after.buf)
                &&& told(after.out) == told(st.out) + told_by(choice)
                &&& starts(after.out) == starts(st.out) + begun_in(calls_of(choice))
                &&& pieces(after.out) == pieces(st.out) + pieces_in(calls_of(choice))
                &&& models(after.out) == models(st.out)
                &&& field(choice, "finish_reason"@) is Str ==> forall|k: usize|
                    k < MAX_PARALLEL_CALLS ==> #[trigger] held(after.buf, k) is None
                &&& field(choice, "finish_reason"@) is Str && !(field(v, "usage"@) is Obj) ==> (
                after.buf.pending_stop matches Some(stop) && stops_as(
                    words(field(choice, "finish_reason"@)),
                    stop,
                ))
                &&& !(field(choice, "finish_reason"@) is Str) ==> after.buf.pending_stop
                    == st.buf.pending_stop
                &&& field(choice, "finish_reason"@) is Str && field(v, "usage"@) is Obj ==> {
                    &&& finishes(after.out).len() == finishes(st.out).len() + 1
                    &&& finishes(after.out).drop_last() == finishes(st.out)
                    &&& stops_as(
                        words(field(choice, "finish_reason"@)),
                        finishes(after.out).last().0,
                    )
                    &&& counts_are(finishes(after.out).last().1, field(v, "usage"@))
                }
                &&& !(field(choice, "finish_reason"@) is Str && field(v, "usage"@) is Obj)
                    ==> finishes(after.out) == finishes(st.out)
            }
        }),
{
    reveal_strlit("");
    lemma_reasons();
    let delta = field(choice, "delta"@);
    let thought = words(
        field(
            delta,
            if field(delta, "reasoning_content"@) is Str {
                "reasoning_content"@
            } else {
                "reasoning"@
            },
        ),
    );
    let said = words(field(delta, "content"@));
    assert(delta.str_or("reasoning"@, ""@) =~= words(field(delta, "reasoning"@)));
    assert(delta.str_or("content"@, ""@) =~= said);
    let e1 = EventView::ThinkingDelta { text: thought };
    let e2 = EventView::Delta { text: said };
    let t1 = if thought.len() > 0 {
        st.push(e1)
    } else {
        st
    };
    lemma_one_more(st.out, e1);
    if thought.len() > 0 {
        lemma_honest(st.out, start, st.buf, e1, st.buf);
    }
    lemma_one_more(t1.out, e2);
    if said.len() > 0 {
        lemma_honest(t1.out, start, t1.buf, e2, t1.buf);
    }
    let s1 = texts_read(st, delta);
    let tcs = calls_of(choice);
    lemma_calls(s1, tcs, start);
    let s2 = calls_read(s1, tcs);
    assert(tcs.len() == 0 ==> s2 == s1);
    if s2.err is None {
        assert(told(s2.out) =~= told(st.out) + told_by(choice));
        let after = finish_read(s2, choice, v);
        if field(choice, "finish_reason"@) is Str {
            lemma_drained(s2, MAX_PARALLEL_CALLS as nat, start);
            let d = drained(s2, MAX_PARALLEL_CALLS as nat);
            if after.err is None {
                if field(v, "usage"@) is Obj {
                    lemma_one_more(d.out, after.out.last());
                    lemma_honest(d.out, start, d.buf, after.out.last(), after.buf);
                    assert(after.out =~= d.out.push(after.out.last()));
                    assert(finishes(after.out).drop_last() =~= finishes(st.out));
                } else {
                    assert forall|k: usize| held(after.buf, k) == #[trigger] held(d.buf, k) by {}
                    assert forall|k: usize| replayed(after.out, k, held(start, k))
                        == #[trigger] held(after.buf, k) by {
                        assert(held(after.buf, k) == held(d.buf, k));
                    }
                    assert(honest(after.out, start, after.buf));
                }
                assert forall|k: usize| k < MAX_PARALLEL_CALLS implies #[trigger] held(
                    after.buf,
                    k,
                ) is None by {
                    assert(held(d.buf, k) is None);
                }
            }
        }
    }
}

proof fn lemma_choices(st: Step, choices: Seq<JsonView>, v: JsonView, start: BufferView)
    requires
        st.err is None,
        honest(st.out, start, st.buf),
        finishes(st.out).len() == 0,
    ensures
        ({
            let after = choices_read(st, choices, v);
            &&& after.err is None ==> {
                &&& honest(after.out, start, after.buf)
                &&& told(after.out) == told(st.out) + all_told(choices)
                &&& starts(after.out) == starts(st.out) + all_begun(choices)
                &&& pieces(after.out) == pieces(st.out) + all_pieces(choices)
                &&& models(after.out) == models(st.out)
                &&& field(v, "usage"@) is Obj ==> end_as(
                    finishes(after.out),
                    reasons_in(choices),
                    field(v, "usage"@),
                )
                &&& !(field(v, "usage"@) is Obj) ==> finishes(after.out).len() == 0
                &&& reasons_in(choices).len() == 0 ==> after.buf.pending_stop == st.buf.pending_stop
                &&& reasons_in(choices).len() > 0 && !(field(v, "usage"@) is Obj) ==> (
                after.buf.pending_stop matches Some(stop) && stops_as(
                    reasons_in(choices).last(),
                    stop,
                ))
            }
        }),
    decreases choices.len(),
{
    if choices.len() == 0 {
        assert(told(st.out) + all_told(choices) =~= told(st.out));
        assert(starts(st.out) + all_begun(choices) =~= starts(st.out));
        assert(pieces(st.out) + all_pieces(choices) =~= pieces(st.out));
    } else {
        let front = choices.drop_last();
        lemma_choices(st, front, v, start);
        let before = choices_read(st, front, v);
        if before.err is None {
            lemma_choice(before, choices.last(), v, start);
            let after = choices_read(st, choices, v);
            if after.err is None {
                assert(told(after.out) =~= told(st.out) + all_told(choices));
                assert(starts(after.out) =~= starts(st.out) + all_begun(choices));
                assert(pieces(after.out) =~= pieces(st.out) + all_pieces(choices));
                if field(v, "usage"@) is Obj {
                    let ends = finishes(after.out);
                    assert forall|i: int| 0 <= i < ends.len() implies stops_as(
                        reasons_in(choices)[i],
                        (#[trigger] ends[i]).0,
                    ) && counts_are(ends[i].1, field(v, "usage"@)) by {
                        if i < finishes(before.out).len() {
                            assert(ends[i] == finishes(before.out)[i]);
                        }
                    }
                }
            }
        }
    }
}

/// The choices of a chunk.
pub open spec fn choices_in(v: JsonView) -> Seq<JsonView> {
    list(field(v, "choices"@))
}

/// A chunk is told as it came: of each choice its reasoning, its text, the calls that
/// begin and the pieces of their arguments, in their order and none left out; and the
/// end of the reply where the token counts come with the reason for it.
pub proof fn law_chunk_is_told(
    data: Seq<char>,
    v: JsonView,
    buf: BufferView,
    out: Seq<EventView>,
)
    requires
        trimmed(data) != "[DONE]"@,
        serde_parse(data) == Ok::<JsonView, Seq<char>>(v),
        event_outcome(data, buf).0 == Ok::<Seq<EventView>, ErrorView>(out),
    ensures
        told(out) == all_told(choices_in(v)),
        starts(out) == all_begun(choices_in(v)),
        pieces(out) == all_pieces(choices_in(v)),
        honest(out, buf, event_outcome(data, buf).1),
        choices_in(v).len() > 0 && field(v, "usage"@) is Obj ==> end_as(
            finishes(out),
            reasons_in(choices_in(v)),
            field(v, "usage"@),
        ),
        !(field(v, "usage"@) is Obj) ==> finishes(out).len() == 0,
        !(field(v, "usage"@) is Obj) && reasons_in(choices_in(v)).len() > 0 ==> (event_outcome(
            data,
            buf,
        ).1.pending_stop matches Some(stop) && stops_as(reasons_in(choices_in(v)).last(), stop)),
        choices_in(v).len() > 0 && words(field(v, "model"@)).len() > 0 && !buf.started
            ==> models(out) == seq![words(field(v, "model"@))] && out[0] is Started
            && event_outcome(data, buf).1.started == true,
        words(field(v, "model"@)).len() == 0 || buf.started ==> models(out).len() == 0,
{
    reveal_strlit("");
    lemma_none(seq![]);
    let model = words(field(v, "model"@));
    assert(v.str_or("model"@, ""@) =~= model);
    let (r, after) = event_outcome(data, buf);
    let usage_only = field(v, "usage"@) is Obj && choices_in(v).len() == 0;
    let none = Seq::<EventView>::empty();
    assert(honest(none, buf, buf));
    if usage_only {
        lemma_one_more(none, out[0]);
        assert(out =~= none.push(out[0]));
        lemma_honest(none, buf, buf, out[0], after);
        assert(honest(out, buf, after));
    } else if field(v, "choices"@) is Arr {
        let next = if model.len() > 0 {
            BufferView { started: true, ..buf }
        } else {
            buf
        };
        let opened = if model.len() > 0 && !buf.started {
            seq![started_event(model)]
        } else {
            none
        };
        lemma_one_more(none, started_event(model));
        assert(none.push(started_event(model)) =~= seq![started_event(model)]);
        lemma_honest(none, buf, buf, started_event(model), next);
        assert(honest(none, buf, next)) by {
            assert forall|k: usize| replayed(none, k, held(buf, k)) == #[trigger] held(next, k) by {}
        }
        let st = Step { out: opened, buf: next, err: None };
        lemma_choices(st, choices_in(v), v, buf);
        lemma_prefix(st, choices_in(v), v);
        assert(told(out) =~= all_told(choices_in(v)));
        assert(starts(out) =~= all_begun(choices_in(v)));
        assert(pieces(out) =~= all_pieces(choices_in(v)));
        assert(models(opened) =~= if model.len() > 0 && !buf.started {
            seq![model]
        } else {
            seq![]
        });
        if opened.len() > 0 {
            assert(out[0] == out.take(opened.len() as int)[0]);
        }
    } else {
        assert(out =~= none);
    }
}

proof fn lemma_prefix(st: Step, choices: Seq<JsonView>, v: JsonView)
    ensures
        choices_read(st, choices, v).buf.started == st.buf.started,
        choices_read(st, choices, v).out.len() >= st.out.len(),
        choices_read(st, choices, v).out.take(st.out.len() as int) == st.out,
    decreases choices.len(),
{
    if choices.len() == 0 {
        assert(st.out.take(st.out.len() as int) =~= st.out);
    } else {
        lemma_prefix(st, choices.drop_last(), v);
        let before = choices_read(st, choices.drop_last(), v);
        if before.err is None {
            let choice = choices.last();
            let s1 = texts_read(before, field(choice, "delta"@));
            lemma_calls_prefix(s1, calls_of(choice));
            let s2 = calls_read(s1, calls_of(choice));
            lemma_drain_prefix(s2, MAX_PARALLEL_CALLS as nat);
            let after = choices_read(st, choices, v);
            assert(after.out.take(before.out.len() as int) =~= before.out) by {
                assert(s1.out.take(before.out.len() as int) =~= before.out);
                assert(s2.out.take(before.out.len() as int) =~= s2.out.take(
                    s1.out.len() as int,
                ).take(before.out.len() as int));
                let d = drained(s2, MAX_PARALLEL_CALLS as nat);
                assert(d.out.take(before.out.len() as int) =~= d.out.take(s2.out.len() as int).take(
                    before.out.len() as int,
                ));
            }
            assert(after.out.take(st.out.len() as int) =~= after.out.take(
                before.out.len() as int,
            ).take(st.out.len() as int));
        }
    }
}

proof fn lemma_calls_prefix(st: Step, tcs: Seq<JsonView>)
    ensures
        calls_read(st, tcs).buf.started == st.buf.started,
        calls_read(st, tcs).out.len() >= st.out.len(),
        calls_read(st, tcs).out.take(st.out.len() as int) == st.out,
    decreases tcs.len(),
{
    if tcs.len() == 0 {
        assert(st.out.take(st.out.len() as int) =~= st.out);
    } else {
        lemma_calls_prefix(st, tcs.drop_last());
        let before = calls_read(st, tcs.drop_last());
        let after = calls_read(st, tcs);
        assert(after.out.take(st.out.len() as int) =~= before.out.take(st.out.len() as int));
    }
}

proof fn lemma_drain_prefix(st: Step, n: nat)
    ensures
        drained(st, n).buf.started == st.buf.started,
        drained(st, n).out.len() >= st.out.len(),
        drained(st, n).out.take(st.out.len() as int) == st.out,
    decreases n,
{
    if n == 0 {
        assert(st.out.take(st.out.len() as int) =~= st.out);
    } else {
        lemma_drain_prefix(st, (n - 1) as nat);
        let before = drained(st, (n - 1) as nat);
        let after = drained(st, n);
        assert(after.out.take(st.out.len() as int) =~= before.out.take(st.out.len() as int));
    }
}

/// The token counts that come in a chunk of their own end the reply, with the reason that
/// has been given before.
pub proof fn law_late_counts_end_the_reply(data: Seq<char>, v: JsonView, buf: BufferView)
    requires
        trimmed(data) != "[DONE]"@,
        serde_parse(data) == Ok::<JsonView, Seq<char>>(v),
        field(v, "usage"@) is Obj,
        choices_in(v).len() == 0,
    ensures
        event_outcome(data, buf).0 matches Ok(out) && finishes(out).len() == 1 && out.len() == 1
            && counts_are(finishes(out)[0].1, field(v, "usage"@)) && finishes(out)[0].0 == (
        match buf.pending_stop {
            Some(stop) => stop,
            None => StopReason::EndTurn,
        }),
        event_outcome(data, buf).1.pending_stop is None,
{
    let out = event_outcome(data, buf).0->Ok_0;
    let none = Seq::<EventView>::empty();
    lemma_none(none);
    lemma_one_more(none, out[0]);
    assert(out =~= none.push(out[0]));
}

/// Where a reply finishes, or the stream ends, each call that has begun is handed out
/// with its id and all of its arguments, and none is left over.
pub proof fn law_calls_are_handed_out(data: Seq<char>, buf: BufferView, out: Seq<EventView>)
    requires
        event_outcome(data, buf).0 == Ok::<Seq<EventView>, ErrorView>(out),
        trimmed(data) == "[DONE]"@ || (serde_parse(data) matches Ok(v) && choices_in(v).len() > 0
            && field(choices_in(v).last(), "finish_reason"@) is Str),
    ensures
        honest(out, buf, event_outcome(data, buf).1),
        forall|k: usize|
            k < MAX_PARALLEL_CALLS ==> #[trigger] held(event_outcome(data, buf).1, k) is None,
{
    let after = event_outcome(data, buf).1;
    let none = Seq::<EventView>::empty();
    lemma_none(none);
    let st = Step { out: none, buf, err: None };
    assert(honest(none, buf, buf));
    if trimmed(data) == "[DONE]"@ {
        let n = MAX_PARALLEL_CALLS as nat;
        lemma_drained(st, n, buf);
        let d = drained(st, n);
        if buf.pending_stop is Some {
            lemma_honest(d.out, buf, d.buf, out.last(), after);
            assert(out =~= d.out.push(out.last()));
        } else {
            assert forall|k: usize| replayed(out, k, held(buf, k)) == #[trigger] held(
                after,
                k,
            ) by {
                assert(held(after, k) == held(d.buf, k));
            }
        }
        assert forall|k: usize| k < MAX_PARALLEL_CALLS implies #[trigger] held(after, k) is None by {
            assert(held(d.buf, k) is None);
        }
    } else {
        let v = serde_parse(data)->Ok_0;
        law_chunk_is_told(data, v, buf, out);
        let model = v.str_or("model"@, ""@);
        let next = if model.len() > 0 {
            BufferView { started: true, ..buf }
        } else {
            buf
        };
        let opened = if model.len() > 0 && !buf.started {
            seq![started_event(model)]
        } else {
            none
        };
        lemma_one_more(none, started_event(model));
        assert(none.push(started_event(model)) =~= seq![started_event(model)]);
        lemma_honest(none, buf, buf, started_event(model), next);
        assert(honest(none, buf, next)) by {
            assert forall|k: usize| replayed(none, k, held(buf, k)) == #[trigger] held(next, k) by {}
        }
        let first = Step { out: opened, buf: next, err: None };
        let choices = choices_in(v);
        lemma_choices(first, choices.drop_last(), v, buf);
        lemma_choice(choices_read(first, choices.drop_last(), v), choices.last(), v, buf);
    }
}

/// Whether a call carries its id and its function, or neither.
pub open spec fn is_well_formed(tc: JsonView) -> bool {
    id_in(tc).len() > 0 <==> name_in(tc).len() > 0
}

/// Whether a choice goes on, and its calls are well formed.
pub open spec fn is_sound(choice: JsonView) -> bool {
    &&& !(field(choice, "finish_reason"@) is Str)
    &&& forall|i: int|
        0 <= i < calls_of(choice).len() ==> is_well_formed(#[trigger] calls_of(choice)[i])
}

proof fn lemma_sound_calls(st: Step, tcs: Seq<JsonView>)
    requires
        st.err is None,
        forall|i: int| 0 <= i < tcs.len() ==> is_well_formed(#[trigger] tcs[i]),
    ensures
        calls_read(st, tcs).err is None,
    decreases tcs.len(),
{
    reveal_strlit("");
    if tcs.len() > 0 {
        let front = tcs.drop_last();
        assert forall|i: int| 0 <= i < front.len() implies is_well_formed(#[trigger] front[i]) by {
            assert(front[i] == tcs[i]);
        }
        lemma_sound_calls(st, front);
        let tc = tcs[tcs.len() - 1];
        assert(tc.str_or("id"@, ""@) =~= id_in(tc));
        assert(tc.at("function"@).str_or("name"@, ""@) =~= name_in(tc));
    }
}

proof fn lemma_sound_choices(st: Step, choices: Seq<JsonView>, v: JsonView)
    requires
        st.err is None,
        forall|i: int| 0 <= i < choices.len() ==> is_sound(#[trigger] choices[i]),
    ensures
        choices_read(st, choices, v).err is None,
    decreases choices.len(),
{
    if choices.len() > 0 {
        let front = choices.drop_last();
        assert forall|i: int| 0 <= i < front.len() implies is_sound(#[trigger] front[i]) by {
            assert(front[i] == choices[i]);
        }
        lemma_sound_choices(st, front, v);
        let choice = choices[choices.len() - 1];
        let s1 = texts_read(choices_read(st, front, v), field(choice, "delta"@));
        lemma_sound_calls(s1, calls_of(choice));
    }
}

/// A chunk whose choices go on and whose calls are well formed is read. One that is no
/// JSON is an error.
pub proof fn law_sound_chunk_is_read(data: Seq<char>, buf: BufferView)
    requires
        trimmed(data) != "[DONE]"@,
    ensures
        serde_parse(data) matches Ok(v) ==> (forall|i: int|
            0 <= i < choices_in(v).len() ==> is_sound(#[trigger] choices_in(v)[i]))
            ==> event_outcome(data, buf).0 is Ok,
        serde_parse(data) is Err ==> (event_outcome(data, buf).0 matches Err(e) && e is Parse)
            && event_outcome(data, buf).1 == buf,
{
    if let Ok(v) = serde_parse(data) {
        if forall|i: int|
            0 <= i < choices_in(v).len() ==> is_sound(#[trigger] choices_in(v)[i]) {
            let model = v.str_or("model"@, ""@);
            let next = if model.len() > 0 {
                BufferView { started: true, ..buf }
            } else {
                buf
            };
            let opened = if model.len() > 0 && !buf.started {
                seq![started_event(model)]
            } else {
                seq![]
            };
            lemma_sound_choices(Step { out: opened, buf: next, err: None }, choices_in(v), v);
        }
    }
}

/// The line that ends a stream is read where the arguments of each open call can be read,
/// and ends the reply if its reason has been given and nothing has ended it.
pub proof fn law_last_line_ends_the_reply(data: Seq<char>, buf: BufferView)
    requires
        trimmed(data) == "[DONE]"@,
        forall|k: usize|
            k < MAX_PARALLEL_CALLS ==> (#[trigger] held(buf, k) matches Some(c) ==> trimmed(
                c.args,
            ).len() == 0 || serde_parse(c.args) is Ok),
    ensures
        event_outcome(data, buf).0 matches Ok(out) && match buf.pending_stop {
            Some(stop) => finishes(out).len() == 1 && finishes(out)[0].0 == stop && out.last() is Finished,
            None => finishes(out).len() == 0,
        },
{
    let none = Seq::<EventView>::empty();
    lemma_none(none);
    let st = Step { out: none, buf, err: None };
    let n = MAX_PARALLEL_CALLS as nat;
    assert(honest(none, buf, buf));
    lemma_drained(st, n, buf);
    let out = done_read(buf).out;
    if let Some(stop) = buf.pending_stop {
        lemma_one_more(drained(st, n).out, out.last());
    }
}

proof fn lemma_read_calls(st: Step, tcs: Seq<JsonView>)
    requires
        calls_read(st, tcs).err is None,
    ensures
        st.err is None,
        forall|i: int| 0 <= i < tcs.len() ==> is_well_formed(#[trigger] tcs[i]),
    decreases tcs.len(),
{
    reveal_strlit("");
    if tcs.len() > 0 {
        let front = tcs.drop_last();
        let before = calls_read(st, front);
        lemma_read_calls(st, front);
        assert forall|i: int| 0 <= i < tcs.len() implies is_well_formed(#[trigger] tcs[i]) by {
            if i < front.len() {
                assert(front[i] == tcs[i]);
            } else {
                let tc = tcs[i];
                assert(tc == tcs.last());
                assert(tc.str_or("id"@, ""@) =~= id_in(tc));
                assert(tc.at("function"@).str_or("name"@, ""@) =~= name_in(tc));
                assert(call_opened(before, tc, tcs.len() - 1).err is None);
            }
        }
    }
}

proof fn lemma_read_choices(st: Step, choices: Seq<JsonView>, v: JsonView, i: int, j: int)
    requires
        choices_read(st, choices, v).err is None,
        st.err is None,
        0 <= i < choices.len(),
        0 <= j < calls_of(choices[i]).len(),
    ensures
        is_well_formed(calls_of(choices[i])[j]),
    decreases choices.len(),
{
    let front = choices.drop_last();
    let before = choices_read(st, front, v);
    assert(before.err is None);
    if i < front.len() {
        assert(front[i] == choices[i]);
        lemma_read_choices(st, front, v, i, j);
    } else {
        let choice = choices.last();
        assert(choice == choices[i]);
        let s1 = texts_read(before, field(choice, "delta"@));
        lemma_read_calls(s1, calls_of(choice));
    }
}

/// A chunk in which a call carries an id without a function, or a function without an id,
/// is an error.
pub proof fn law_malformed_calls_are_errors(
    data: Seq<char>,
    v: JsonView,
    buf: BufferView,
    i: int,
    j: int,
)
    requires
        trimmed(data) != "[DONE]"@,
        serde_parse(data) == Ok::<JsonView, Seq<char>>(v),
        0 <= i < choices_in(v).len(),
        0 <= j < calls_of(choices_in(v)[i]).len(),
        !is_well_formed(calls_of(choices_in(v)[i])[j]),
    ensures
        event_outcome(data, buf).0 is Err,
{
    let model = v.str_or("model"@, ""@);
    let next = if model.len() > 0 {
        BufferView { started: true, ..buf }
    } else {
        buf
    };
    let opened = if model.len() > 0 && !buf.started {
        seq![started_event(model)]
    } else {
        seq![]
    };
    let st = Step { out: opened, buf: next, err: None };
    if event_outcome(data, buf).0 is Ok {
        lemma_read_choices(st, choices_in(v), v, i, j);
    }
}

} // verus!
