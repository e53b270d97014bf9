//! What holds of replies that are put together from events.

use crate::terms::{
    deltas, finishes, lemma_one_more, models, put_together, thoughts,
};
use crate::types::{EventView, ResponseView};
use vstd::prelude::*;

verus! {

proof fn lemma_together(s: Seq<Seq<char>>, x: Seq<char>)
    ensures
        put_together(s.push(x)) == put_together(s) + x,
{
    assert(s.push(x).drop_last() =~= s);
}

proof fn lemma_adds_up(r: ResponseView, s: Seq<EventView>)
    ensures
        ({
            let after = r.apply_all(s);
            &&& after.text == r.text + put_together(deltas(s))
            &&& after.thinking == r.thinking + put_together(thoughts(s))
            &&& finishes(s).len() == 0 ==> after.stop_reason == r.stop_reason && after.usage
                == r.usage
            &&& finishes(s).len() > 0 ==> after.stop_reason == Some(finishes(s).last().0)
                && after.usage == finishes(s).last().1
            &&& models(s).len() == 0 ==> after.actual_model == r.actual_model
            &&& models(s).len() > 0 ==> after.actual_model == models(s).last()
        }),
    decreases s.len(),
{
    if s.len() == 0 {
        assert(r.text + put_together(deltas(s)) =~= r.text);
        assert(r.thinking + put_together(thoughts(s)) =~= r.thinking);
    } else {
        let front = s.drop_last();
        let e = s.last();
        lemma_adds_up(r, front);
        assert(s =~= front.push(e));
        lemma_one_more(front, e);
        match e {
            EventView::Delta { text } => lemma_together(deltas(front), text),
            EventView::ThinkingDelta { text } => lemma_together(thoughts(front), text),
            _ => {},
        }
        let after = r.apply_all(s);
        assert(after.text =~= r.text + put_together(deltas(s)));
        assert(after.thinking =~= r.thinking + put_together(thoughts(s)));
    }
}

/// A reply is what its events say: all texts one after the other, all thoughts one after
/// the other, and the model, the stop reason and the token counts that were told last.
pub proof fn law_reply_adds_up(s: Seq<EventView>)
    ensures
        ({
            let r = ResponseView::empty().apply_all(s);
            &&& r.text == put_together(deltas(s))
            &&& r.thinking == put_together(thoughts(s))
            &&& finishes(s).len() == 0 ==> r.stop_reason is None
            &&& finishes(s).len() > 0 ==> r.stop_reason == Some(finishes(s).last().0) && r.usage
                == finishes(s).last().1
            &&& models(s).len() > 0 ==> r.actual_model == models(s).last()
        }),
{
    lemma_adds_up(ResponseView::empty(), s);
    let r = ResponseView::empty().apply_all(s);
    assert(r.text =~= put_together(deltas(s)));
    assert(r.thinking =~= put_together(thoughts(s)));
}

} // verus!
