//! What the laws of this library speak of: the members of a JSON value, and the parts of
//! a reply that its events carry.

use crate::json::{serde_parse, JsonView, NumView};
use crate::text::trimmed;
use crate::tool_buffer::{BufferView, CallView};
use crate::types::{EventView, StopReason, Usage};
use vstd::prelude::*;

verus! {

/// The member of an object; null where there is none.
pub open spec fn field(v: JsonView, key: Seq<char>) -> JsonView {
    match v {
        JsonView::Obj(m) => if m.contains_key(key) {
            m[key]
        } else {
            JsonView::Null
        },
        _ => JsonView::Null,
    }
}

/// Whether an object has a member.
pub open spec fn has_field(v: JsonView, key: Seq<char>) -> bool {
    v is Obj && v->Obj_0.contains_key(key)
}

/// The items of a list; none where it is no list.
pub open spec fn list(v: JsonView) -> Seq<JsonView> {
    match v {
        JsonView::Arr(s) => s,
        _ => seq![],
    }
}

/// The text of a string; nothing where it is no string.
pub open spec fn words(v: JsonView) -> Seq<char> {
    match v {
        JsonView::Str(s) => s,
        _ => seq![],
    }
}

/// Texts, one after the other.
pub open spec fn put_together(s: Seq<Seq<char>>) -> Seq<char>
    decreases s.len(),
{
    if s.len() == 0 {
        seq![]
    } else {
        put_together(s.drop_last()) + s.last()
    }
}

/// The lines that are not blank.
pub open spec fn filled(s: Seq<Seq<char>>) -> Seq<Seq<char>>
    decreases s.len(),
{
    if s.len() == 0 {
        seq![]
    } else if trimmed(s.last()).len() == 0 {
        filled(s.drop_last())
    } else {
        filled(s.drop_last()).push(s.last())
    }
}

/// The natural number that fits in a `u64`; zero where it is none.
pub open spec fn amount(v: JsonView) -> int {
    match v {
        JsonView::Num(NumView::Int(n)) => if 0 <= n <= u64::MAX {
            n
        } else {
            0
        },
        _ => 0,
    }
}

/// The texts that the events say, one after the other.
pub open spec fn deltas(s: Seq<EventView>) -> Seq<Seq<char>>
    decreases s.len(),
{
    if s.len() == 0 {
        seq![]
    } else {
        match s.last() {
            EventView::Delta { text } => deltas(s.drop_last()).push(text),
            _ => deltas(s.drop_last()),
        }
    }
}

/// The texts that the events think, one after the other.
pub open spec fn thoughts(s: Seq<EventView>) -> Seq<Seq<char>>
    decreases s.len(),
{
    if s.len() == 0 {
        seq![]
    } else {
        match s.last() {
            EventView::ThinkingDelta { text } => thoughts(s.drop_last()).push(text),
            _ => thoughts(s.drop_last()),
        }
    }
}

/// The tool calls that the events begin: index, id and name.
pub open spec fn starts(s: Seq<EventView>) -> Seq<(usize, Seq<char>, Seq<char>)>
    decreases s.len(),
{
    if s.len() == 0 {
        seq![]
    } else {
        match s.last() {
            EventView::ToolCallStart { index, id, name } => starts(s.drop_last()).push(
                (index, id, name),
            ),
            _ => starts(s.drop_last()),
        }
    }
}

/// The pieces of arguments that the events carry, with the index of their call.
pub open spec fn pieces(s: Seq<EventView>) -> Seq<(usize, Seq<char>)>
    decreases s.len(),
{
    if s.len() == 0 {
        seq![]
    } else {
        match s.last() {
            EventView::ToolCallArgsDelta { index, args_delta } => pieces(s.drop_last()).push(
                (index, args_delta),
            ),
            _ => pieces(s.drop_last()),
        }
    }
}

/// The tool calls that the events hand out: index, id and arguments.
pub open spec fn handed_out(s: Seq<EventView>) -> Seq<(usize, Seq<char>, JsonView)>
    decreases s.len(),
{
    if s.len() == 0 {
        seq![]
    } else {
        match s.last() {
            EventView::ToolCallEnd { index, id, parsed_args } => handed_out(s.drop_last()).push(
                (index, id, parsed_args),
            ),
            _ => handed_out(s.drop_last()),
        }
    }
}

/// The ends of the reply that the events tell.
pub open spec fn finishes(s: Seq<EventView>) -> Seq<(StopReason, Usage)>
    decreases s.len(),
{
    if s.len() == 0 {
        seq![]
    } else {
        match s.last() {
            EventView::Finished { stop_reason, usage } => finishes(s.drop_last()).push(
                (stop_reason, usage),
            ),
            _ => finishes(s.drop_last()),
        }
    }
}

/// The models that the events say have answered.
pub open spec fn models(s: Seq<EventView>) -> Seq<Seq<char>>
    decreases s.len(),
{
    if s.len() == 0 {
        seq![]
    } else {
        match s.last() {
            EventView::Started { actual_model, .. } => models(s.drop_last()).push(actual_model),
            _ => models(s.drop_last()),
        }
    }
}

/// Something that a reply tells.
pub enum Told {
    Said(Seq<char>),
    Thought(Seq<char>),
    Called(Seq<char>),
}

/// What the events tell, in their order: texts, thoughts, and the names of the tools that
/// are called.
pub open spec fn told(s: Seq<EventView>) -> Seq<Told>
    decreases s.len(),
{
    if s.len() == 0 {
        seq![]
    } else {
        match s.last() {
            EventView::Delta { text } => told(s.drop_last()).push(Told::Said(text)),
            EventView::ThinkingDelta { text } => told(s.drop_last()).push(Told::Thought(text)),
            EventView::ToolCallStart { name, .. } => told(s.drop_last()).push(Told::Called(name)),
            _ => told(s.drop_last()),
        }
    }
}

/// What the events tell of the call in one place, from what was known of it before: it
/// begins with no arguments, grows piece by piece, and is gone once it is handed out.
pub open spec fn replayed(s: Seq<EventView>, k: usize, known: Option<CallView>) -> Option<CallView>
    decreases s.len(),
{
    if s.len() == 0 {
        known
    } else {
        let before = replayed(s.drop_last(), k, known);
        match s.last() {
            EventView::ToolCallStart { index, id, name } => if index == k {
                Some(CallView { id, name, args: seq![] })
            } else {
                before
            },
            EventView::ToolCallArgsDelta { index, args_delta } => if index == k && before is Some {
                Some(CallView { args: before->0.args + args_delta, ..before->0 })
            } else {
                before
            },
            EventView::ToolCallEnd { index, .. } => if index == k {
                None
            } else {
                before
            },
            _ => before,
        }
    }
}

/// What a buffer holds of the call in one place.
pub open spec fn held(buf: BufferView, k: usize) -> Option<CallView> {
    if buf.calls.contains_key(k) {
        Some(buf.calls[k])
    } else {
        None
    }
}

/// Whether a value is what these arguments say. No arguments are the empty object.
pub open spec fn is_read(args: Seq<char>, v: JsonView) -> bool {
    if trimmed(args).len() == 0 {
        v == JsonView::Obj(Map::empty())
    } else {
        serde_parse(args) == Ok::<JsonView, Seq<char>>(v)
    }
}

/// Whether the events hand out the calls as they told of them, and a buffer holds what
/// they told of those that are still open.
pub open spec fn honest(s: Seq<EventView>, before: BufferView, after: BufferView) -> bool {
    &&& forall|k: usize| replayed(s, k, held(before, k)) == #[trigger] held(after, k)
    &&& forall|i: int|
        0 <= i < s.len() ==> (#[trigger] s[i] matches EventView::ToolCallEnd {
            index,
            id,
            parsed_args,
        } ==> {
            let c = replayed(s.take(i), index, held(before, index));
            c is Some && c->0.id == id && is_read(c->0.args, parsed_args)
        })
}

/// One event more is honest if it is told of the buffer as it changes.
pub proof fn lemma_honest(
    s: Seq<EventView>,
    before: BufferView,
    mid: BufferView,
    e: EventView,
    after: BufferView,
)
    requires
        honest(s, before, mid),
        match e {
            EventView::ToolCallStart { index, id, name } => after == mid.on_start(index, id, name),
            EventView::ToolCallArgsDelta { index, args_delta } => after == mid.on_delta(
                index,
                args_delta,
            ),
            EventView::ToolCallEnd { index, id, parsed_args } => after == mid.without(index) && (
            mid.finalized(index) matches Ok(r) && r.0 == id && r.2 == parsed_args),
            _ => after.calls == mid.calls,
        },
    ensures
        honest(s.push(e), before, after),
{
    let t = s.push(e);
    assert(t.drop_last() =~= s);
    assert forall|k: usize| replayed(t, k, held(before, k)) == #[trigger] held(after, k) by {
        assert(replayed(s, k, held(before, k)) == held(mid, k));
    }
    assert forall|i: int| 0 <= i < t.len() implies (#[trigger] t[i] matches EventView::ToolCallEnd {
        index,
        id,
        parsed_args,
    } ==> {
        let c = replayed(t.take(i), index, held(before, index));
        c is Some && c->0.id == id && is_read(c->0.args, parsed_args)
    }) by {
        if i < s.len() {
            assert(t[i] == s[i]);
            assert(t.take(i) =~= s.take(i));
        } else {
            assert(t.take(i) =~= s);
            if let EventView::ToolCallEnd { index, id, parsed_args } = e {
                assert(held(mid, index) is Some);
            }
        }
    }
}

/// What one event more adds.
pub proof fn lemma_one_more(s: Seq<EventView>, e: EventView)
    ensures
        deltas(s.push(e)) == (match e {
            EventView::Delta { text } => deltas(s).push(text),
            _ => deltas(s),
        }),
        thoughts(s.push(e)) == (match e {
            EventView::ThinkingDelta { text } => thoughts(s).push(text),
            _ => thoughts(s),
        }),
        starts(s.push(e)) == (match e {
            EventView::ToolCallStart { index, id, name } => starts(s).push((index, id, name)),
            _ => starts(s),
        }),
        pieces(s.push(e)) == (match e {
            EventView::ToolCallArgsDelta { index, args_delta } => pieces(s).push(
                (index, args_delta),
            ),
            _ => pieces(s),
        }),
        handed_out(s.push(e)) == (match e {
            EventView::ToolCallEnd { index, id, parsed_args } => handed_out(s).push(
                (index, id, parsed_args),
            ),
            _ => handed_out(s),
        }),
        finishes(s.push(e)) == (match e {
            EventView::Finished { stop_reason, usage } => finishes(s).push((stop_reason, usage)),
            _ => finishes(s),
        }),
        models(s.push(e)) == (match e {
            EventView::Started { actual_model, .. } => models(s).push(actual_model),
            _ => models(s),
        }),
        told(s.push(e)) == (match e {
            EventView::Delta { text } => told(s).push(Told::Said(text)),
            EventView::ThinkingDelta { text } => told(s).push(Told::Thought(text)),
            EventView::ToolCallStart { name, .. } => told(s).push(Told::Called(name)),
            _ => told(s),
        }),
{
    assert(s.push(e).drop_last() =~= s);
}

/// What events and then more events say is what the former say and then what the latter
/// say.
pub proof fn lemma_added(a: Seq<EventView>, b: Seq<EventView>)
    ensures
        deltas(a + b) == deltas(a) + deltas(b),
        thoughts(a + b) == thoughts(a) + thoughts(b),
        starts(a + b) == starts(a) + starts(b),
        pieces(a + b) == pieces(a) + pieces(b),
        handed_out(a + b) == handed_out(a) + handed_out(b),
        finishes(a + b) == finishes(a) + finishes(b),
        models(a + b) == models(a) + models(b),
        told(a + b) == told(a) + told(b),
    decreases b.len(),
{
    if b.len() == 0 {
        assert(a + b =~= a);
        lemma_none(b);
    } else {
        let front = b.drop_last();
        lemma_added(a, front);
        assert(a + b =~= (a + front).push(b.last()));
        assert(b =~= front.push(b.last()));
        lemma_one_more(a + front, b.last());
        lemma_one_more(front, b.last());
    }
    assert(deltas(a + b) =~= deltas(a) + deltas(b));
    assert(thoughts(a + b) =~= thoughts(a) + thoughts(b));
    assert(starts(a + b) =~= starts(a) + starts(b));
    assert(pieces(a + b) =~= pieces(a) + pieces(b));
    assert(handed_out(a + b) =~= handed_out(a) + handed_out(b));
    assert(finishes(a + b) =~= finishes(a) + finishes(b));
    assert(models(a + b) =~= models(a) + models(b));
    assert(told(a + b) =~= told(a) + told(b));
}

/// What one event alone says.
pub proof fn lemma_alone(e: EventView)
    ensures
        deltas(seq![e]) == (match e {
            EventView::Delta { text } => seq![text],
            _ => seq![],
        }),
        thoughts(seq![e]) == (match e {
            EventView::ThinkingDelta { text } => seq![text],
            _ => seq![],
        }),
        starts(seq![e]) == (match e {
            EventView::ToolCallStart { index, id, name } => seq![(index, id, name)],
            _ => seq![],
        }),
        pieces(seq![e]) == (match e {
            EventView::ToolCallArgsDelta { index, args_delta } => seq![(index, args_delta)],
            _ => seq![],
        }),
        handed_out(seq![e]) == (match e {
            EventView::ToolCallEnd { index, id, parsed_args } => seq![(index, id, parsed_args)],
            _ => seq![],
        }),
        finishes(seq![e]) == (match e {
            EventView::Finished { stop_reason, usage } => seq![(stop_reason, usage)],
            _ => seq![],
        }),
        models(seq![e]) == (match e {
            EventView::Started { actual_model, .. } => seq![actual_model],
            _ => seq![],
        }),
        told(seq![e]) == (match e {
            EventView::Delta { text } => seq![Told::Said(text)],
            EventView::ThinkingDelta { text } => seq![Told::Thought(text)],
            EventView::ToolCallStart { name, .. } => seq![Told::Called(name)],
            _ => seq![],
        }),
{
    let none = Seq::<EventView>::empty();
    lemma_none(none);
    lemma_one_more(none, e);
    assert(none.push(e) =~= seq![e]);
    assert(deltas(seq![e]).len() <= 1);
}

/// What no events add.
pub proof fn lemma_none(s: Seq<EventView>)
    requires
        s.len() == 0,
    ensures
        deltas(s) == Seq::<Seq<char>>::empty(),
        thoughts(s) == Seq::<Seq<char>>::empty(),
        starts(s) == Seq::<(usize, Seq<char>, Seq<char>)>::empty(),
        pieces(s) == Seq::<(usize, Seq<char>)>::empty(),
        handed_out(s) == Seq::<(usize, Seq<char>, JsonView)>::empty(),
        finishes(s) == Seq::<(StopReason, Usage)>::empty(),
        models(s) == Seq::<Seq<char>>::empty(),
        told(s) == Seq::<Told>::empty(),
{
}

} // verus!
