//! What holds of the batches that are handed in to Anthropic, and of what comes back.

use crate::backends::anthropic::adapter::translated;
use crate::backends::anthropic::batch::{
    batch_body, batch_status, entries, message_response, message_text, result_entries, result_entry,
};
use crate::backends::anthropic::laws::{counts_are, lemma_stop_reasons, stops_as};
use crate::batch::{BatchItemId, ItemView, StatusView};
use crate::json::{serde_parse, JsonView};
use crate::terms::{amount, field, filled, has_field, put_together, list, words};
use crate::text::trimmed;
use crate::types::{ChatRequest, ErrorView, ResponseView, StopReason};
use vstd::prelude::*;
use vstd::string::*;

verus! {

proof fn lemma_entry_keys()
    ensures
        "custom_id"@ != "params"@,
{
    reveal_strlit("custom_id");
    reveal_strlit("params");
    assert("custom_id"@.len() == 9);
    assert("params"@.len() == 6);
}

proof fn lemma_entries(s: Seq<(BatchItemId, ChatRequest)>)
    ensures
        entries(s) matches Ok(out) ==> out.len() == s.len() && forall|i: int|
            0 <= i < s.len() ==> field(out[i], "custom_id"@) == JsonView::Str(
                (#[trigger] s[i]).0.id@,
            ) && translated(s[i].1) == Ok::<JsonView, ErrorView>(field(out[i], "params"@)),
        entries(s) is Ok <==> forall|i: int|
            0 <= i < s.len() ==> translated((#[trigger] s[i]).1) is Ok,
    decreases s.len(),
{
    lemma_entry_keys();
    if s.len() > 0 {
        let front = s.drop_last();
        lemma_entries(front);
        assert(s[s.len() - 1] == s.last());
        if let Ok(out) = entries(s) {
            let before = entries(front)->Ok_0;
            assert forall|i: int| 0 <= i < s.len() implies field(out[i], "custom_id"@)
                == JsonView::Str((#[trigger] s[i]).0.id@) && translated(s[i].1) == Ok::<
                JsonView,
                ErrorView,
            >(field(out[i], "params"@)) by {
                if i < front.len() {
                    assert(front[i] == s[i]);
                    assert(out[i] == before[i]);
                }
            }
        } else if forall|i: int| 0 <= i < s.len() ==> translated((#[trigger] s[i]).1) is Ok {
            assert forall|i: int| 0 <= i < front.len() implies translated(
                (#[trigger] front[i]).1,
            ) is Ok by {
                assert(front[i] == s[i]);
            }
        }
    }
}

/// Each request of a batch is handed in, in its place, under its own id and with its own
/// body, and nothing else is.
pub proof fn law_each_request_is_handed_in(s: Seq<(BatchItemId, ChatRequest)>, body: JsonView)
    requires
        batch_body(s) == Ok::<JsonView, ErrorView>(body),
    ensures
        list(field(body, "requests"@)).len() == s.len(),
        forall|i: int|
            0 <= i < s.len() ==> {
                let entry = list(field(body, "requests"@))[i];
                &&& field(entry, "custom_id"@) == JsonView::Str((#[trigger] s[i]).0.id@)
                &&& translated(s[i].1) == Ok::<JsonView, ErrorView>(field(entry, "params"@))
            },
{
    lemma_entries(s);
}

/// A batch can be handed in if it holds something and each of its requests can be
/// written. Where one cannot, the first of them says why.
pub proof fn law_sound_batches_are_handed_in(s: Seq<(BatchItemId, ChatRequest)>, k: int)
    requires
        0 <= k <= s.len(),
        forall|i: int| 0 <= i < k ==> translated((#[trigger] s[i]).1) is Ok,
        k < s.len() ==> translated(s[k].1) is Err,
    ensures
        s.len() == 0 ==> (batch_body(s) matches Err(e) && e is InvalidRequest),
        k == s.len() && s.len() > 0 ==> batch_body(s) is Ok,
        k < s.len() ==> batch_body(s) == Err::<JsonView, ErrorView>(translated(s[k].1)->Err_0),
    decreases s.len(),
{
    lemma_entries(s);
    if k < s.len() {
        let front = s.drop_last();
        if k < front.len() {
            assert(front[k] == s[k]);
            assert forall|i: int| 0 <= i < k implies translated((#[trigger] front[i]).1) is Ok by {
                assert(front[i] == s[i]);
            }
            law_sound_batches_are_handed_in(front, k);
        } else {
            lemma_entries(front);
            assert forall|i: int| 0 <= i < front.len() implies translated(
                (#[trigger] front[i]).1,
            ) is Ok by {
                assert(front[i] == s[i]);
            }
        }
    }
}

/// One of the counts of a batch.
pub open spec fn counted(v: JsonView, key: Seq<char>) -> int {
    amount(field(field(v, "request_counts"@), key))
}

/// How many requests of a batch have come to an end, whichever it was.
pub open spec fn ended_count(v: JsonView) -> int {
    counted(v, "succeeded"@) + counted(v, "errored"@) + counted(v, "canceled"@) + counted(
        v,
        "expired"@,
    )
}

proof fn lemma_states()
    ensures
        "canceling"@ != "ended"@,
        "canceling"@ != "in_progress"@,
        "ended"@ != "in_progress"@,
{
    reveal_strlit("canceling");
    reveal_strlit("ended");
    reveal_strlit("in_progress");
    assert("canceling"@.len() == 9);
    assert("ended"@.len() == 5);
    assert("in_progress"@.len() == 11);
}

/// Where a batch stands: while it runs, by how many requests have come to an end; then
/// it is complete, unless all of them were cancelled or all of them expired.
pub proof fn law_status_is_told(v: JsonView)
    requires
        ended_count(v) + counted(v, "processing"@) <= u32::MAX,
    ensures
        ({
            let state = field(v, "processing_status"@);
            let done = ended_count(v);
            let s = batch_status(v);
            &&& state == JsonView::Str("in_progress"@) || state == JsonView::Str("canceling"@)
                ==> s == Ok::<StatusView, ErrorView>(
                StatusView::InProgress {
                    processed: done as u32,
                    total: Some((done + counted(v, "processing"@)) as u32),
                },
            )
            &&& state == JsonView::Str("ended"@) ==> s is Ok && !(s->Ok_0 is InProgress)
                && !(s->Ok_0 is Failed)
            &&& state == JsonView::Str("ended"@) ==> (s->Ok_0 is Cancelled <==> done > 0
                && counted(v, "canceled"@) == done)
            &&& state == JsonView::Str("ended"@) ==> (s->Ok_0 is Expired <==> done > 0 && counted(
                v,
                "expired"@,
            ) == done)
            &&& state != JsonView::Str("in_progress"@) && state != JsonView::Str("canceling"@)
                && state != JsonView::Str("ended"@) ==> (s matches Err(e) && e is Parse)
        }),
{
    lemma_states();
}

/// The texts of the text blocks of a message.
pub open spec fn texts_in(blocks: Seq<JsonView>) -> Seq<Seq<char>>
    decreases blocks.len(),
{
    if blocks.len() == 0 {
        seq![]
    } else {
        let b = blocks.last();
        if field(b, "type"@) == JsonView::Str("text"@) && field(b, "text"@) is Str {
            texts_in(blocks.drop_last()).push(words(field(b, "text"@)))
        } else {
            texts_in(blocks.drop_last())
        }
    }
}

/// Whether a reply is the message that came.
pub open spec fn is_reply(r: ResponseView, msg: JsonView) -> bool {
    &&& r.text == put_together(texts_in(list(field(msg, "content"@))))
    &&& r.thinking.len() == 0
    &&& r.actual_model == (match field(msg, "model"@) {
        JsonView::Str(m) => m,
        _ => "anthropic"@,
    })
    &&& r.stop_reason is Some
    &&& match field(msg, "stop_reason"@) {
        JsonView::Str(s) => stops_as(s, r.stop_reason->0),
        _ => r.stop_reason == Some(StopReason::EndTurn),
    }
    &&& counts_are(r.usage, field(msg, "usage"@))
}

proof fn lemma_text(blocks: Seq<JsonView>)
    ensures
        message_text(blocks) == put_together(texts_in(blocks)),
    decreases blocks.len(),
{
    if blocks.len() > 0 {
        let front = blocks.drop_last();
        lemma_text(front);
        let b = blocks.last();
        if field(b, "type"@) == JsonView::Str("text"@) && field(b, "text"@) is Str {
            assert(texts_in(blocks).drop_last() =~= texts_in(front));
        }
    }
}

/// The reply that a message holds is that message: the text of its text blocks one after
/// the other, its model, why it stopped and its token counts.
pub proof fn law_message_is_told(msg: JsonView)
    ensures
        is_reply(message_response(msg), msg),
{
    lemma_stop_reasons();
    lemma_text(list(field(msg, "content"@)));
    assert(message_response(msg).text =~= put_together(texts_in(list(field(msg, "content"@)))));
}

/// Whether an error is the one that a request in a batch came to.
pub open spec fn is_item_error(e: ErrorView, err: JsonView) -> bool {
    let kind = field(err, "type"@);
    let says = field(err, "message"@);
    &&& kind == JsonView::Str("invalid_request_error"@) <==> e is InvalidRequest
    &&& kind == JsonView::Str("authentication_error"@) <==> e is Auth
    &&& kind == JsonView::Str("rate_limit_error"@) <==> e is RateLimited
    &&& kind == JsonView::Str("overloaded_error"@) <==> e is ModelOverloaded
    &&& says matches JsonView::Str(s) ==> match e {
        ErrorView::InvalidRequest(m) => m == s,
        ErrorView::Auth(m) => m == s,
        ErrorView::RateLimited { retry_after_ms } => retry_after_ms is None,
        ErrorView::ModelOverloaded => true,
        ErrorView::Internal(m) => s.is_suffix_of(m),
        _ => false,
    }
}

/// Whether a result is the one in a line that has been read.
pub open spec fn is_result(item: ItemView, v: JsonView) -> bool {
    let result = field(v, "result"@);
    let kind = field(result, "type"@);
    &&& field(v, "custom_id"@) == JsonView::Str(item.item_id)
    &&& kind is Str
    &&& kind == JsonView::Str("succeeded"@) <==> item.result is Ok
    &&& item.result matches Ok(r) ==> has_field(result, "message"@) && is_reply(
        r,
        field(result, "message"@),
    )
    &&& kind == JsonView::Str("errored"@) ==> (item.result matches Err(e) && is_item_error(
        e,
        field(result, "error"@),
    ))
    &&& kind == JsonView::Str("canceled"@) ==> item.result == Err::<ResponseView, ErrorView>(
        ErrorView::Internal("item cancelled"@),
    )
    &&& kind == JsonView::Str("expired"@) ==> item.result == Err::<ResponseView, ErrorView>(
        ErrorView::Internal("item expired"@),
    )
}

proof fn lemma_kinds()
    ensures
        "canceled"@ != "errored"@,
        "canceled"@ != "expired"@,
        "canceled"@ != "succeeded"@,
        "errored"@ != "expired"@,
        "errored"@ != "succeeded"@,
        "expired"@ != "succeeded"@,
{
    reveal_strlit("canceled");
    reveal_strlit("errored");
    reveal_strlit("expired");
    reveal_strlit("succeeded");
    assert("canceled"@.len() == 8);
    assert("errored"@.len() == 7);
    assert("expired"@.len() == 7);
    assert("succeeded"@.len() == 9);
    assert("errored"@[1] != "expired"@[1]);
}

proof fn lemma_error_kinds()
    ensures
        "authentication_error"@ != "error"@,
        "authentication_error"@ != "invalid_request_error"@,
        "authentication_error"@ != "overloaded_error"@,
        "authentication_error"@ != "rate_limit_error"@,
        "error"@ != "invalid_request_error"@,
        "error"@ != "overloaded_error"@,
        "error"@ != "rate_limit_error"@,
        "invalid_request_error"@ != "overloaded_error"@,
        "invalid_request_error"@ != "rate_limit_error"@,
        "overloaded_error"@ != "rate_limit_error"@,
{
    reveal_strlit("authentication_error");
    reveal_strlit("error");
    reveal_strlit("invalid_request_error");
    reveal_strlit("overloaded_error");
    reveal_strlit("rate_limit_error");
    assert("authentication_error"@.len() == 20);
    assert("error"@.len() == 5);
    assert("invalid_request_error"@.len() == 21);
    assert("overloaded_error"@.len() == 16);
    assert("rate_limit_error"@.len() == 16);
    assert("overloaded_error"@[0] != "rate_limit_error"@[0]);
}

proof fn lemma_result(v: JsonView, n: nat)
    ensures
        result_entry(v, n) matches Ok(item) ==> is_result(item, v),
        field(v, "custom_id"@) is Str && field(field(v, "result"@), "type"@) is Str && has_field(
            field(v, "result"@),
            "message"@,
        ) ==> result_entry(v, n) is Ok,
        result_entry(v, n) matches Err(e) ==> e is Parse,
{
    lemma_kinds();
    lemma_error_kinds();
    if let Ok(item) = result_entry(v, n) {
        law_message_is_told(field(field(v, "result"@), "message"@));
        if field(field(v, "result"@), "type"@) == JsonView::Str("errored"@) {
            let err = field(field(v, "result"@), "error"@);
            if let Err(ErrorView::Internal(m)) = item.result {
                if let JsonView::Str(s) = field(err, "message"@) {
                    assert(m.skip(m.len() - s.len()) =~= s);
                    assert(s.is_suffix_of(m));
                }
            }
        }
    }
}

/// Whether a line holds this result.
pub open spec fn holds(line: Seq<char>, item: ItemView) -> bool {
    serde_parse(line) matches Ok(v) && is_result(item, v)
}

/// The results file is read line by line: each line that is not blank gives the result
/// that it holds, in its place, and no line is left out.
pub proof fn law_results_are_told(s: Seq<Seq<char>>, out: Seq<ItemView>)
    requires
        result_entries(s) == Ok::<Seq<ItemView>, ErrorView>(out),
    ensures
        out.len() == filled(s).len(),
        forall|i: int| 0 <= i < out.len() ==> holds(filled(s)[i], #[trigger] out[i]),
    decreases s.len(),
{
    if s.len() > 0 {
        let before = result_entries(s.drop_last())->Ok_0;
        law_results_are_told(s.drop_last(), before);
        if trimmed(s.last()).len() > 0 {
            lemma_result(serde_parse(s.last())->Ok_0, s.len());
            assert forall|i: int| 0 <= i < out.len() implies holds(
                filled(s)[i],
                #[trigger] out[i],
            ) by {
                if i < before.len() {
                    assert(out[i] == before[i]);
                    assert(filled(s)[i] == filled(s.drop_last())[i]);
                }
            }
        }
    }
}

/// A results file is read if each of its lines is blank or holds a result with its id
/// and kind, and its message.
pub proof fn law_sound_results_are_read(s: Seq<Seq<char>>)
    requires
        forall|i: int|
            0 <= i < s.len() ==> trimmed(#[trigger] s[i]).len() == 0 || (serde_parse(
                s[i],
            ) matches Ok(v) && field(v, "custom_id"@) is Str && field(
                field(v, "result"@),
                "type"@,
            ) is Str && has_field(field(v, "result"@), "message"@)),
    ensures
        result_entries(s) is Ok,
    decreases s.len(),
{
    if s.len() > 0 {
        let front = s.drop_last();
        assert forall|i: int| 0 <= i < front.len() implies trimmed(#[trigger] front[i]).len() == 0
            || (serde_parse(front[i]) matches Ok(v) && field(v, "custom_id"@) is Str && field(
            field(v, "result"@),
            "type"@,
        ) is Str && has_field(field(v, "result"@), "message"@)) by {
            assert(front[i] == s[i]);
        }
        law_sound_results_are_read(front);
        assert(s[s.len() - 1] == s.last());
        if trimmed(s.last()).len() > 0 {
            lemma_result(serde_parse(s.last())->Ok_0, s.len());
        }
    }
}

} // verus!
