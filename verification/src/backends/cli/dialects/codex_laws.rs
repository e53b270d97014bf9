//! What holds of whole answers of `codex`.

use crate::backends::cli::dialects::codex::{
    codex_content, count, counts_in, item_read, line_read, lines_read, or_zero, values,
};
use crate::json::{parse_or_null, serde_parse, JsonView, NumView};
use crate::members::{
    items_of, lemma_next_named, lemma_spelled_member, lemma_spelled_once, members_of, named,
    next_named, spelled, MemberView,
};
use crate::terms::{
    deltas, field, finishes, has_field, lemma_none, lemma_one_more, thoughts, told, words, Told,
};
use crate::text::trimmed;
use crate::types::{ErrorView, EventView, StopReason};
use vstd::prelude::*;
use vstd::string::*;

verus! {

proof fn lemma_kinds()
    ensures
        "error"@ != "item.completed"@,
        "error"@ != "item.started"@,
        "error"@ != "item.updated"@,
        "error"@ != "thread.started"@,
        "error"@ != "turn.completed"@,
        "error"@ != "turn.failed"@,
        "error"@ != "turn.started"@,
        "item.completed"@ != "item.started"@,
        "item.completed"@ != "item.updated"@,
        "item.completed"@ != "thread.started"@,
        "item.completed"@ != "turn.completed"@,
        "item.completed"@ != "turn.failed"@,
        "item.completed"@ != "turn.started"@,
        "item.started"@ != "item.updated"@,
        "item.started"@ != "thread.started"@,
        "item.started"@ != "turn.completed"@,
        "item.started"@ != "turn.failed"@,
        "item.started"@ != "turn.started"@,
        "item.updated"@ != "thread.started"@,
        "item.updated"@ != "turn.completed"@,
        "item.updated"@ != "turn.failed"@,
        "item.updated"@ != "turn.started"@,
        "thread.started"@ != "turn.completed"@,
        "thread.started"@ != "turn.failed"@,
        "thread.started"@ != "turn.started"@,
        "turn.completed"@ != "turn.failed"@,
        "turn.completed"@ != "turn.started"@,
        "turn.failed"@ != "turn.started"@,
{
    reveal_strlit("error");
    reveal_strlit("item.completed");
    reveal_strlit("item.started");
    reveal_strlit("item.updated");
    reveal_strlit("thread.started");
    reveal_strlit("turn.completed");
    reveal_strlit("turn.failed");
    reveal_strlit("turn.started");
    assert("error"@.len() == 5);
    assert("item.completed"@.len() == 14);
    assert("item.started"@.len() == 12);
    assert("item.updated"@.len() == 12);
    assert("thread.started"@.len() == 14);
    assert("turn.completed"@.len() == 14);
    assert("turn.failed"@.len() == 11);
    assert("turn.started"@.len() == 12);
    assert("item.completed"@[0] != "thread.started"@[0]);
    assert("item.completed"@[0] != "turn.completed"@[0]);
    assert("item.started"@[5] != "item.updated"@[5]);
    assert("item.started"@[0] != "turn.started"@[0]);
    assert("item.updated"@[0] != "turn.started"@[0]);
    assert("thread.started"@[1] != "turn.completed"@[1]);
}

proof fn lemma_item_kinds()
    ensures
        "agent_message"@ != "reasoning"@,
{
    reveal_strlit("agent_message");
    reveal_strlit("reasoning");
    assert("agent_message"@.len() == 13);
    assert("reasoning"@.len() == 9);
}

proof fn lemma_count_keys()
    ensures
        "cached_input_tokens"@ != "input_tokens"@,
        "cached_input_tokens"@ != "output_tokens"@,
        "cached_input_tokens"@ != "reasoning_output_tokens"@,
        "input_tokens"@ != "output_tokens"@,
        "input_tokens"@ != "reasoning_output_tokens"@,
        "output_tokens"@ != "reasoning_output_tokens"@,
{
    reveal_strlit("cached_input_tokens");
    reveal_strlit("input_tokens");
    reveal_strlit("output_tokens");
    reveal_strlit("reasoning_output_tokens");
    assert("cached_input_tokens"@.len() == 19);
    assert("input_tokens"@.len() == 12);
    assert("output_tokens"@.len() == 13);
    assert("reasoning_output_tokens"@.len() == 23);
}

proof fn lemma_read_apart(a: Seq<JsonView>, b: Seq<JsonView>)
    requires
        lines_read(a) is Ok,
    ensures
        lines_read(b) is Ok ==> lines_read(a + b) == Ok::<Seq<EventView>, ErrorView>(
            lines_read(a)->Ok_0 + lines_read(b)->Ok_0,
        ),
        lines_read(b) is Err ==> lines_read(a + b) == lines_read(b),
    decreases b.len(),
{
    if b.len() == 0 {
        assert(a + b =~= a);
        assert(lines_read(a)->Ok_0 + seq![] =~= lines_read(a)->Ok_0);
    } else {
        lemma_read_apart(a, b.drop_last());
        assert((a + b).drop_last() =~= a + b.drop_last());
        assert((a + b).last() == b.last());
        if let Ok(before) = lines_read(b.drop_last()) {
            lemma_line_adds(lines_read(a)->Ok_0 + before, b.last());
            lemma_line_adds(before, b.last());
            if let Ok(more) = line_read(seq![], b.last()) {
                assert(lines_read(a)->Ok_0 + (before + more) =~= (lines_read(a)->Ok_0 + before)
                    + more);
            }
        }
    }
}

proof fn lemma_line_adds(out: Seq<EventView>, line: JsonView)
    ensures
        line_read(out, line) == (match line_read(seq![], line) {
            Ok(more) => Ok::<Seq<EventView>, ErrorView>(out + more),
            Err(e) => Err(e),
        }),
{
    if let Ok(more) = line_read(seq![], line) {
        assert(out + seq![] =~= out);
        if more.len() > 0 {
            assert(more =~= seq![more[0]]);
            assert(out + more =~= out.push(more[0]));
        } else {
            assert(more =~= seq![]);
        }
    }
}

/// The lines of an answer are read one by one: what two answers tell, their lines one
/// behind the other tell, first the one and then the other; and a failure is that of the
/// first answer that fails.
pub proof fn law_answers_add_up(a: Seq<JsonView>, b: Seq<JsonView>)
    ensures
        match (codex_content(JsonView::Arr(a)), codex_content(JsonView::Arr(b))) {
            (Ok(x), Ok(y)) => codex_content(JsonView::Arr(a + b)) == Ok::<
                Seq<EventView>,
                ErrorView,
            >(x + y),
            (Ok(_), Err(e)) => codex_content(JsonView::Arr(a + b)) == Err::<
                Seq<EventView>,
                ErrorView,
            >(e),
            (Err(e), _) => codex_content(JsonView::Arr(a + b)) == Err::<
                Seq<EventView>,
                ErrorView,
            >(e),
        },
{
    if lines_read(a) is Ok {
        lemma_read_apart(a, b);
    } else {
        lemma_stays_failed(a, b);
    }
}

proof fn lemma_stays_failed(a: Seq<JsonView>, b: Seq<JsonView>)
    requires
        lines_read(a) is Err,
    ensures
        lines_read(a + b) == lines_read(a),
    decreases b.len(),
{
    if b.len() == 0 {
        assert(a + b =~= a);
    } else {
        lemma_stays_failed(a, b.drop_last());
        assert((a + b).drop_last() =~= a + b.drop_last());
    }
}

/// Whether a line holds this object, with each member once.
pub open spec fn is_written(line: JsonView, v: JsonView) -> bool {
    line matches JsonView::Str(s) && trimmed(s).len() > 0 && serde_parse(s) == Ok::<
        JsonView,
        Seq<char>,
    >(v) && v is Obj && spelled(s, v, 2)
}

/// The item of a line that says that it has been completed.
pub open spec fn completed_item(v: JsonView) -> JsonView {
    if field(v, "type"@) == JsonView::Str("item.completed"@) {
        field(v, "item"@)
    } else {
        JsonView::Null
    }
}

/// What a line tells: the text of a message, or of a thought.
pub open spec fn told_in(v: JsonView) -> Seq<Told> {
    let item = completed_item(v);
    let text = words(field(item, "text"@));
    if text.len() == 0 {
        seq![]
    } else if field(item, "type"@) == JsonView::Str("agent_message"@) {
        seq![Told::Said(text)]
    } else if field(item, "type"@) == JsonView::Str("reasoning"@) {
        seq![Told::Thought(text)]
    } else {
        seq![]
    }
}

/// What the lines tell, in their order.
pub open spec fn told_in_lines(s: Seq<JsonView>) -> Seq<Told>
    decreases s.len(),
{
    if s.len() == 0 {
        seq![]
    } else {
        told_in_lines(s.drop_last()) + told_in(s.last())
    }
}

/// Whether the kind of an item is given by its name, and not by a number.
pub open spec fn is_named_kind(v: JsonView) -> bool {
    !(field(completed_item(v), "type"@) is Num)
}

proof fn lemma_item_told(t: Seq<char>, item: JsonView)
    requires
        parse_or_null(t) == item,
        spelled(t, item, 1),
        !(field(item, "type"@) is Num),
    ensures
        ({
            let e = item_read(t);
            let text = words(field(item, "text"@));
            if field(item, "text"@) is Str && field(item, "type"@) == JsonView::Str(
                "agent_message"@,
            ) {
                e is AgentMessage && e->AgentMessage_text == text
            } else if field(item, "text"@) is Str && field(item, "type"@) == JsonView::Str(
                "reasoning"@,
            ) {
                e is Reasoning && e->Reasoning_text == text
            } else {
                e is Other
            }
        }),
{
    lemma_item_kinds();
    if let JsonView::Obj(m) = item {
        lemma_spelled_member(t, m, "type"@, 1);
        lemma_spelled_member(t, m, "text"@, 1);
    }
}

proof fn lemma_line_told(line: JsonView, v: JsonView)
    requires
        is_written(line, v),
        is_named_kind(v),
    ensures
        line_read(seq![], line) matches Ok(out) ==> told(out) == told_in(v),
{
    lemma_kinds();
    lemma_item_kinds();
    let t = line->Str_0;
    let m = v->Obj_0;
    lemma_spelled_member(t, m, "type"@, 2);
    lemma_spelled_member(t, m, "item"@, 2);
    if let Ok(out) = line_read(seq![], line) {
        lemma_none(Seq::<EventView>::empty());
        if m.contains_key("type"@) && m["type"@] == JsonView::Str("item.completed"@)
            && m.contains_key("item"@) {
            let x = named(members_of(t), "item"@)->0;
            let item = m["item"@];
            lemma_item_told(x.text, item);
            let text = words(field(item, "text"@));
            lemma_one_more(Seq::<EventView>::empty(), EventView::Delta { text });
            lemma_one_more(Seq::<EventView>::empty(), EventView::ThinkingDelta { text });
            assert(Seq::<EventView>::empty().push(EventView::Delta { text }) =~= seq![
                EventView::Delta { text },
            ]);
            assert(told(out) =~= told_in(v));
        } else {
            if out.len() > 0 {
                lemma_one_more(Seq::<EventView>::empty(), out[0]);
                assert(out =~= Seq::<EventView>::empty().push(out[0]));
            }
            assert(told(out) =~= seq![]);
        }
    }
}

proof fn lemma_told_apart(a: Seq<EventView>, b: Seq<EventView>)
    ensures
        told(a + b) == told(a) + told(b),
        deltas(a + b) == deltas(a) + deltas(b),
        thoughts(a + b) == thoughts(a) + thoughts(b),
        finishes(a + b) == finishes(a) + finishes(b),
    decreases b.len(),
{
    if b.len() == 0 {
        assert(a + b =~= a);
        assert(told(a) + told(b) =~= told(a));
        assert(deltas(a) + deltas(b) =~= deltas(a));
        assert(thoughts(a) + thoughts(b) =~= thoughts(a));
        assert(finishes(a) + finishes(b) =~= finishes(a));
    } else {
        lemma_told_apart(a, b.drop_last());
        assert((a + b).drop_last() =~= a + b.drop_last());
        assert(told(a + b) =~= told(a) + told(b));
        assert(deltas(a + b) =~= deltas(a) + deltas(b));
        assert(thoughts(a + b) =~= thoughts(a) + thoughts(b));
        assert(finishes(a + b) =~= finishes(a) + finishes(b));
    }
}

/// The texts among what is told.
pub open spec fn said(s: Seq<Told>) -> Seq<Seq<char>>
    decreases s.len(),
{
    if s.len() == 0 {
        seq![]
    } else {
        match s.last() {
            Told::Said(text) => said(s.drop_last()).push(text),
            _ => said(s.drop_last()),
        }
    }
}

proof fn lemma_said(s: Seq<EventView>)
    ensures
        said(told(s)) == deltas(s),
    decreases s.len(),
{
    if s.len() > 0 {
        lemma_said(s.drop_last());
        let before = told(s.drop_last());
        match s.last() {
            EventView::Delta { text } => {
                assert(before.push(Told::Said(text)).drop_last() =~= before);
            },
            EventView::ThinkingDelta { text } => {
                assert(before.push(Told::Thought(text)).drop_last() =~= before);
            },
            EventView::ToolCallStart { name, .. } => {
                assert(before.push(Told::Called(name)).drop_last() =~= before);
            },
            _ => {},
        }
    }
}

/// Everything that the model said and thought is told, in the order of the lines and none
/// left out: each completed message that holds a text, and each completed thought.
pub proof fn law_messages_are_told(
    lines: Seq<JsonView>,
    objects: Seq<JsonView>,
    out: Seq<EventView>,
)
    requires
        lines.len() == objects.len(),
        forall|i: int| 0 <= i < lines.len() ==> is_written(#[trigger] lines[i], objects[i]),
        forall|i: int| 0 <= i < lines.len() ==> is_named_kind(#[trigger] objects[i]),
        codex_content(JsonView::Arr(lines)) == Ok::<Seq<EventView>, ErrorView>(out),
    ensures
        told(out) == told_in_lines(objects),
        deltas(out) == said(told_in_lines(objects)),
    decreases lines.len(),
{
    if lines.len() == 0 {
        lemma_none(out);
    } else {
        let front = lines.drop_last();
        let fronts = objects.drop_last();
        assert forall|i: int| 0 <= i < front.len() implies is_written(
            #[trigger] front[i],
            fronts[i],
        ) by {
            assert(front[i] == lines[i]);
        }
        assert forall|i: int| 0 <= i < front.len() implies is_named_kind(#[trigger] fronts[i]) by {
            assert(fronts[i] == objects[i]);
        }
        let n = lines.len() - 1;
        assert(is_written(lines[n], objects[n]));
        assert(is_named_kind(objects[n]));
        let before = lines_read(front)->Ok_0;
        law_messages_are_told(front, fronts, before);
        lemma_line_adds(before, lines.last());
        lemma_line_told(lines[n], objects[n]);
        let more = line_read(seq![], lines.last())->Ok_0;
        lemma_told_apart(before, more);
        assert(out == before + more);
    }
    lemma_said(out);
}

/// A count in the usage of a turn; one that is missing is zero.
pub open spec fn turn_count(usage: JsonView, name: Seq<char>) -> int {
    match field(usage, name) {
        JsonView::Num(NumView::Int(n)) => if n < 0 {
            0
        } else {
            n
        },
        _ => 0,
    }
}

/// Whether a count is missing or an integer that can be held.
pub open spec fn is_count(usage: JsonView, name: Seq<char>) -> bool {
    has_field(usage, name) ==> (field(usage, name) matches JsonView::Num(NumView::Int(n))
        && i64::MIN <= n <= i64::MAX)
}

/// The count among the first members of an object, if it is there.
spec fn found(ms: Seq<MemberView>, name: Seq<char>, n: Option<i64>) -> bool {
    &&& n is Some <==> exists|i: int| 0 <= i < ms.len() && (#[trigger] ms[i]).key == name
    &&& forall|i: int|
        0 <= i < ms.len() && (#[trigger] ms[i]).key == name ==> ms[i].value() == JsonView::Num(
            NumView::Int(n->0 as int),
        )
}

proof fn lemma_counts_found(t: Seq<char>, usage: JsonView, k: int)
    requires
        usage is Obj,
        spelled(t, usage, 1),
        is_count(usage, "input_tokens"@),
        is_count(usage, "cached_input_tokens"@),
        is_count(usage, "output_tokens"@),
        is_count(usage, "reasoning_output_tokens"@),
        0 <= k <= members_of(t).len(),
    ensures
        counts_in(members_of(t).take(k)) matches Ok(c) && found(
            members_of(t).take(k),
            "input_tokens"@,
            c.input,
        ) && found(members_of(t).take(k), "cached_input_tokens"@, c.cached) && found(
            members_of(t).take(k),
            "output_tokens"@,
            c.output,
        ) && found(members_of(t).take(k), "reasoning_output_tokens"@, c.reasoning),
    decreases k,
{
    lemma_count_keys();
    let ms = members_of(t);
    let m = usage->Obj_0;
    if k > 0 {
        lemma_counts_found(t, usage, k - 1);
        let front = ms.take(k - 1);
        let now = ms.take(k);
        let x = ms[k - 1];
        assert(now.drop_last() =~= front);
        assert(now.last() == x);
        assert forall|i: int| 0 <= i < k - 1 implies (#[trigger] front[i]).key != x.key by {
            lemma_spelled_once(t, m, 1, i, k - 1);
        }
        lemma_spelled_member(t, m, x.key, 1);
        assert(x.value() == m[x.key]);
        lemma_next_named(ms, x.key, 0);
        assert(named(ms, x.key) is Some);
        assert(m.contains_key(x.key));
        assert(field(usage, x.key) == m[x.key]);
        let c = counts_in(front)->Ok_0;
        let d = counts_in(now)->Ok_0;
        lemma_found_step(front, x, "input_tokens"@, c.input);
        lemma_found_step(front, x, "cached_input_tokens"@, c.cached);
        lemma_found_step(front, x, "output_tokens"@, c.output);
        lemma_found_step(front, x, "reasoning_output_tokens"@, c.reasoning);
        assert(now =~= front.push(x));
    }
}

proof fn lemma_found_step(front: Seq<MemberView>, x: MemberView, name: Seq<char>, n: Option<i64>)
    requires
        found(front, name, n),
        forall|i: int| 0 <= i < front.len() ==> (#[trigger] front[i]).key != x.key,
    ensures
        x.key != name ==> found(front.push(x), name, n),
        x.key == name ==> n is None,
        forall|v: i64|
            x.key == name && x.value() == JsonView::Num(NumView::Int(v as int)) ==> #[trigger] found(
                front.push(x),
                name,
                Some(v),
            ),
{
    let now = front.push(x);
    if x.key != name {
        if n is Some {
            let i = choose|i: int| 0 <= i < front.len() && (#[trigger] front[i]).key == name;
            assert(now[i].key == name);
        }
        assert forall|i: int| 0 <= i < now.len() && (#[trigger] now[i]).key == name implies n is Some
            && now[i].value() == JsonView::Num(NumView::Int(n->0 as int)) by {
            assert(front[i] == now[i]);
        }
    } else {
        assert(now[front.len() as int].key == name);
        assert forall|v: i64|
            x.key == name && x.value() == JsonView::Num(NumView::Int(v as int)) implies #[trigger] found(
            front.push(x),
            name,
            Some(v),
        ) by {
            assert forall|i: int| 0 <= i < now.len() && (#[trigger] now[i]).key == name implies now[i].value()
                == JsonView::Num(NumView::Int(v as int)) by {
                if i < front.len() {
                    assert(front[i].key != x.key);
                }
            }
        }
    }
}

proof fn lemma_count_is(t: Seq<char>, usage: JsonView, name: Seq<char>, n: Option<i64>)
    requires
        usage is Obj,
        spelled(t, usage, 1),
        found(members_of(t), name, n),
        is_count(usage, name),
    ensures
        count(
            or_zero(n),
        ) == turn_count(usage, name),
{
    let ms = members_of(t);
    let m = usage->Obj_0;
    lemma_spelled_member(t, m, name, 1);
    lemma_next_named(ms, name, 0);
    let i = next_named(ms, name, 0);
    if m.contains_key(name) {
        assert(ms[i].key == name);
    } else {
        if n is Some {
            let j = choose|j: int| 0 <= j < ms.len() && (#[trigger] ms[j]).key == name;
            assert(i <= j);
        }
    }
}

/// The end of a turn is told with the token counts that the line gives; those that are
/// missing are zero, and so are those below it.
pub proof fn law_turn_ends_with_its_counts(line: JsonView, v: JsonView)
    requires
        is_written(line, v),
        field(v, "type"@) == JsonView::Str("turn.completed"@),
        field(v, "usage"@) is Obj,
        is_count(field(v, "usage"@), "input_tokens"@),
        is_count(field(v, "usage"@), "cached_input_tokens"@),
        is_count(field(v, "usage"@), "output_tokens"@),
        is_count(field(v, "usage"@), "reasoning_output_tokens"@),
    ensures
        codex_content(JsonView::Arr(seq![line])) matches Ok(out) && out.len() == 1 && (
        out[0] matches EventView::Finished { stop_reason, usage } && {
            let given = field(v, "usage"@);
            &&& stop_reason == StopReason::EndTurn
            &&& usage.input_tokens == turn_count(given, "input_tokens"@)
            &&& usage.cached_input_tokens == turn_count(given, "cached_input_tokens"@)
            &&& usage.output_tokens == turn_count(given, "output_tokens"@)
            &&& usage.thinking_tokens == turn_count(given, "reasoning_output_tokens"@)
            &&& usage.cache_creation_tokens == 0
        }),
{
    lemma_kinds();
    let t = line->Str_0;
    let m = v->Obj_0;
    lemma_spelled_member(t, m, "type"@, 2);
    lemma_spelled_member(t, m, "usage"@, 2);
    let x = named(members_of(t), "usage"@)->0;
    let given = m["usage"@];
    let ms = members_of(x.text);
    lemma_counts_found(x.text, given, ms.len() as int);
    assert(ms.take(ms.len() as int) =~= ms);
    let c = counts_in(ms)->Ok_0;
    lemma_count_is(x.text, given, "input_tokens"@, c.input);
    lemma_count_is(x.text, given, "cached_input_tokens"@, c.cached);
    lemma_count_is(x.text, given, "output_tokens"@, c.output);
    lemma_count_is(x.text, given, "reasoning_output_tokens"@, c.reasoning);
    reveal_with_fuel(lines_read, 2);
    assert(seq![line].drop_last() =~= seq![]);
}

/// A turn that failed and an error of the stream are errors that carry the message.
pub proof fn law_failures_carry_their_message(line: JsonView, v: JsonView, message: Seq<char>)
    requires
        is_written(line, v),
        (field(v, "type"@) == JsonView::Str("turn.failed"@) && field(v, "error"@) is Obj && field(
            field(v, "error"@),
            "message"@,
        ) == JsonView::Str(message)) || (field(v, "type"@) == JsonView::Str("error"@) && field(
            v,
            "message"@,
        ) == JsonView::Str(message)),
    ensures
        codex_content(JsonView::Arr(seq![line])) matches Err(
            ErrorView::CliSubprocessDied { exit_code, stderr },
        ) && exit_code is None && stderr.len() >= message.len() && stderr.skip(
            stderr.len() - message.len(),
        ) == message,
{
    lemma_kinds();
    let t = line->Str_0;
    let m = v->Obj_0;
    lemma_spelled_member(t, m, "type"@, 2);
    lemma_spelled_member(t, m, "error"@, 2);
    lemma_spelled_member(t, m, "message"@, 2);
    if m["type"@] == JsonView::Str("turn.failed"@) {
        let x = named(members_of(t), "error"@)->0;
        lemma_spelled_member(x.text, m["error"@]->Obj_0, "message"@, 1);
    }
    reveal_with_fuel(lines_read, 2);
    assert(seq![line].drop_last() =~= seq![]);
    let stderr = codex_content(JsonView::Arr(seq![line]))->Err_0->CliSubprocessDied_stderr;
    assert(stderr.skip(stderr.len() - message.len()) =~= message);
}

/// A line that is blank, is no JSON or is of another kind says nothing.
pub proof fn law_other_lines_are_passed_over(line: JsonView)
    requires
        match line {
            JsonView::Str(s) => trimmed(s).len() == 0 || serde_parse(s) is Err || (serde_parse(
                s,
            ) matches Ok(v) && is_written(line, v) && field(v, "type"@) != JsonView::Str(
                "item.completed"@,
            ) && field(v, "type"@) != JsonView::Str("turn.completed"@) && field(v, "type"@)
                != JsonView::Str("turn.failed"@) && field(v, "type"@) != JsonView::Str("error"@)),
            _ => true,
        },
    ensures
        codex_content(JsonView::Arr(seq![line])) == Ok::<Seq<EventView>, ErrorView>(seq![]),
{
    reveal_strlit("");
    assert(trimmed(""@).len() == 0);
    reveal_with_fuel(lines_read, 2);
    assert(seq![line].drop_last() =~= seq![]);
    if let JsonView::Str(s) = line {
        if trimmed(s).len() > 0 && serde_parse(s) is Ok {
            let m = (serde_parse(s)->Ok_0)->Obj_0;
            lemma_spelled_member(s, m, "type"@, 2);
        }
    }
}

/// Whether a line is a list of these texts, the first of which is its kind.
pub open spec fn is_listed(line: JsonView, kind: Seq<char>, parts: Seq<Seq<char>>) -> bool {
    line matches JsonView::Str(s) && trimmed(s).len() > 0 && (serde_parse(s) matches Ok(v)
        && v is Arr) && items_of(s).len() == parts.len() + 1 && items_of(s).skip(1) == parts
        && serde_parse(items_of(s)[0]) == Ok::<JsonView, Seq<char>>(JsonView::Str(kind))
}

/// A line that is a list is read by the places of its members: the token counts of a turn
/// in their order, the message of a failure.
pub proof fn law_lists_are_read_by_place(
    line: JsonView,
    a: i64,
    b: i64,
    c: i64,
    d: i64,
    message: Seq<char>,
    parts: Seq<Seq<char>>,
)
    requires
        parts.len() == 1,
    ensures
        is_listed(line, "turn.completed"@, parts) && serde_parse(parts[0]) == Ok::<
            JsonView,
            Seq<char>,
        >(JsonView::Arr(seq![number(a), number(b), number(c), number(d)])) ==> (codex_content(
            JsonView::Arr(seq![line]),
        ) matches Ok(out) && out.len() == 1 && (out[0] matches EventView::Finished {
            stop_reason,
            usage,
        } && stop_reason == StopReason::EndTurn && usage.input_tokens == at_least_zero(a)
            && usage.cached_input_tokens == at_least_zero(b) && usage.output_tokens
            == at_least_zero(c) && usage.thinking_tokens == at_least_zero(d))),
        is_listed(line, "turn.failed"@, parts) && serde_parse(parts[0]) == Ok::<
            JsonView,
            Seq<char>,
        >(JsonView::Arr(seq![JsonView::Str(message)])) ==> fails_with(line, message),
        is_listed(line, "error"@, parts) && serde_parse(parts[0]) == Ok::<JsonView, Seq<char>>(
            JsonView::Str(message),
        ) ==> fails_with(line, message),
{
    lemma_kinds();
    reveal_with_fuel(lines_read, 2);
    assert(seq![line].drop_last() =~= seq![]);
    if let JsonView::Str(s) = line {
        let items = items_of(s);
        if items.len() == 2 && items.skip(1) == parts {
            assert(items.skip(1)[0] == items[1]);
            assert(values(items.skip(1))[0] == parse_or_null(items[1]));
            if is_listed(line, "turn.failed"@, parts) || is_listed(line, "error"@, parts) {
                if let Err(ErrorView::CliSubprocessDied { exit_code, stderr }) = codex_content(
                    JsonView::Arr(seq![line]),
                ) {
                    let x = "codex turn failed: "@ + message;
                    assert(x.skip(x.len() - message.len()) =~= message);
                    let y = "codex stream error: "@ + message;
                    assert(y.skip(y.len() - message.len()) =~= message);
                }
            }
        }
    }
}

/// Whether an answer of this line alone fails with a message.
pub open spec fn fails_with(line: JsonView, message: Seq<char>) -> bool {
    codex_content(JsonView::Arr(seq![line])) matches Err(
        ErrorView::CliSubprocessDied { exit_code, stderr },
    ) && exit_code is None && message.is_suffix_of(stderr)
}

/// An integer as a value.
pub open spec fn number(n: i64) -> JsonView {
    JsonView::Num(NumView::Int(n as int))
}

/// An integer that is not below zero.
pub open spec fn at_least_zero(n: i64) -> int {
    if n < 0 {
        0
    } else {
        n as int
    }
}

} // verus!
