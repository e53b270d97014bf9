//! What holds of answers that are given beforehand.

use crate::backends::mock::{answer, CannedView, MockView};
use crate::terms::{finishes, lemma_none, lemma_one_more, models, told, Told};
use crate::text::byte_len;
use crate::types::{ChatRequest, ErrorView, EventView, StopReason};
use vstd::prelude::*;

verus! {

/// A text that is given beforehand is told as it is, by the model that was asked, and
/// counted as one token for every four bytes; events are told as they are, and a failure
/// with its message.
pub proof fn law_canned_answer_is_told(text: Seq<char>, s: Seq<EventView>, model: Seq<char>)
    requires
        byte_len(text) <= u64::MAX,
    ensures
        answer(CannedView::Text(text), model) matches Ok(out) && {
            &&& told(out) == seq![Told::Said(text)]
            &&& models(out) == seq![model]
            &&& out[0] is Started
            &&& finishes(out).len() == 1
            &&& finishes(out)[0].0 == StopReason::EndTurn
            &&& 4 * finishes(out)[0].1.output_tokens <= byte_len(text) < 4 * (finishes(
                out,
            )[0].1.output_tokens + 1)
            &&& finishes(out)[0].1.input_tokens == 0
        },
        answer(CannedView::Sequence(s), model) == Ok::<Seq<EventView>, ErrorView>(s),
        answer(CannedView::Error(text), model) == Err::<Seq<EventView>, ErrorView>(
            ErrorView::Internal(text),
        ),
{
    let out = answer(CannedView::Text(text), model)->Ok_0;
    let none = Seq::<EventView>::empty();
    lemma_none(none);
    lemma_one_more(none, out[0]);
    lemma_one_more(none.push(out[0]), out[1]);
    lemma_one_more(none.push(out[0]).push(out[1]), out[2]);
    assert(out =~= none.push(out[0]).push(out[1]).push(out[2]));
    assert(told(out) =~= seq![Told::Said(text)]);
    assert(models(out) =~= seq![model]);
}

/// A provider that was given one answer gives it to every call, and remembers each
/// request in its order.
pub proof fn law_one_answer_for_all(id: Seq<char>, c: CannedView, reqs: Seq<ChatRequest>)
    ensures
        MockView::always(id, c).after_all(reqs).next() == c,
        MockView::always(id, c).after_all(reqs).history == reqs,
        MockView::always(id, c).after_all(reqs).id == id,
{
    lemma_always(id, c, reqs);
}

proof fn lemma_always(id: Seq<char>, c: CannedView, reqs: Seq<ChatRequest>)
    ensures
        ({
            let m = MockView::always(id, c).after_all(reqs);
            m.id == id && m.response == c && m.queue.len() == 0 && m.history == reqs
        }),
    decreases reqs.len(),
{
    if reqs.len() == 0 {
        assert(reqs =~= seq![]);
    } else {
        lemma_always(id, c, reqs.drop_last());
        assert(reqs =~= reqs.drop_last().push(reqs.last()));
    }
}

} // verus!
