//! What holds of the batches that are handed in to OpenAI, and of what comes back.

use crate::backends::openai::adapter::translated;
use crate::backends::openai::batch::{
    batch_status, completion_response, create_value, entry_json, input_file, input_lines,
    result_entries, result_entry,
};
use crate::backends::openai::stream_laws::{counts_are, lemma_reasons};
use crate::batch::{BatchItemId, ItemView, StatusView};
use crate::json::{serde_parse, serde_print, JsonView};
use crate::terms::{amount, field, filled, has_field, list, words};
use crate::text::trimmed;
use crate::types::{ChatRequest, ErrorView, ResponseView, StopReason};
use vstd::prelude::*;
use vstd::string::*;

verus! {

/// Whether a row of the input file holds this request: its id, and its body for the
/// endpoint of chat completions.
pub open spec fn is_row(row: JsonView, item: (BatchItemId, ChatRequest)) -> bool {
    &&& field(row, "custom_id"@) == JsonView::Str(item.0.id@)
    &&& field(row, "method"@) == JsonView::Str("POST"@)
    &&& field(row, "url"@) == JsonView::Str("/v1/chat/completions"@)
    &&& translated(item.1) == Ok::<JsonView, ErrorView>(field(row, "body"@))
}

/// Whether rows hold these requests, one for one.
pub open spec fn are_rows(rows: Seq<JsonView>, s: Seq<(BatchItemId, ChatRequest)>) -> bool {
    rows.len() == s.len() && forall|i: int| 0 <= i < s.len() ==> is_row(rows[i], #[trigger] s[i])
}

/// Rows, each on a line of its own.
pub open spec fn written(rows: Seq<JsonView>) -> Seq<char>
    decreases rows.len(),
{
    if rows.len() == 0 {
        seq![]
    } else {
        (written(rows.drop_last()) + serde_print(rows.last())).push('\n')
    }
}

proof fn lemma_row_keys()
    ensures
        "body"@ != "custom_id"@,
        "body"@ != "method"@,
        "body"@ != "url"@,
        "custom_id"@ != "method"@,
        "custom_id"@ != "url"@,
        "method"@ != "url"@,
{
    reveal_strlit("body");
    reveal_strlit("custom_id");
    reveal_strlit("method");
    reveal_strlit("url");
    assert("body"@.len() == 4);
    assert("custom_id"@.len() == 9);
    assert("method"@.len() == 6);
    assert("url"@.len() == 3);
}

proof fn lemma_lines(s: Seq<(BatchItemId, ChatRequest)>) -> (rows: Seq<JsonView>)
    ensures
        input_lines(s) matches Ok(text) ==> are_rows(rows, s) && text == written(rows),
        input_lines(s) is Ok <==> forall|i: int|
            0 <= i < s.len() ==> translated((#[trigger] s[i]).1) is Ok,
    decreases s.len(),
{
    lemma_row_keys();
    if s.len() == 0 {
        seq![]
    } else {
        let front = s.drop_last();
        let before = lemma_lines(front);
        assert(s[s.len() - 1] == s.last());
        if forall|i: int| 0 <= i < s.len() ==> translated((#[trigger] s[i]).1) is Ok {
            assert forall|i: int| 0 <= i < front.len() implies translated(
                (#[trigger] front[i]).1,
            ) is Ok by {
                assert(front[i] == s[i]);
            }
        }
        if let Ok(text) = input_lines(s) {
            reveal_strlit("\n");
            let row = entry_json(s.last().0.id@, translated(s.last().1)->Ok_0);
            let rows = before.push(row);
            assert(rows.drop_last() =~= before);
            assert(text =~= written(rows));
            assert forall|i: int| 0 <= i < s.len() implies is_row(rows[i], #[trigger] s[i]) by {
                if i < front.len() {
                    assert(front[i] == s[i]);
                    assert(is_row(before[i], front[i]));
                }
            }
            rows
        } else {
            seq![]
        }
    }
}

/// Each request of a batch has a line of its own in the input file, in its place, under
/// its own id and with its own body, and there are no other lines.
pub proof fn law_each_request_is_handed_in(s: Seq<(BatchItemId, ChatRequest)>, text: Seq<char>)
    requires
        input_file(s) == Ok::<Seq<char>, ErrorView>(text),
    ensures
        exists|rows: Seq<JsonView>| #[trigger] are_rows(rows, s) && text == written(rows),
{
    let rows = lemma_lines(s);
    assert(are_rows(rows, s));
}

/// A batch can be handed in if it holds something and each of its requests can be
/// written. Where one cannot, the first of them says why.
pub proof fn law_sound_batches_are_handed_in(s: Seq<(BatchItemId, ChatRequest)>, k: int)
    requires
        0 <= k <= s.len(),
        forall|i: int| 0 <= i < k ==> translated((#[trigger] s[i]).1) is Ok,
        k < s.len() ==> translated(s[k].1) is Err,
    ensures
        s.len() == 0 ==> (input_file(s) matches Err(e) && e is InvalidRequest),
        k == s.len() && s.len() > 0 ==> input_file(s) is Ok,
        k < s.len() ==> input_file(s) == Err::<Seq<char>, ErrorView>(translated(s[k].1)->Err_0),
    decreases s.len(),
{
    let _ = lemma_lines(s);
    if k < s.len() {
        let front = s.drop_last();
        if k < front.len() {
            assert(front[k] == s[k]);
            assert forall|i: int| 0 <= i < k implies translated((#[trigger] front[i]).1) is Ok by {
                assert(front[i] == s[i]);
            }
            law_sound_batches_are_handed_in(front, k);
        } else {
            let _ = lemma_lines(front);
            assert forall|i: int| 0 <= i < front.len() implies translated(
                (#[trigger] front[i]).1,
            ) is Ok by {
                assert(front[i] == s[i]);
            }
        }
    }
}

proof fn lemma_create_keys()
    ensures
        "completion_window"@ != "endpoint"@,
        "completion_window"@ != "input_file_id"@,
        "endpoint"@ != "input_file_id"@,
{
    reveal_strlit("completion_window");
    reveal_strlit("endpoint");
    reveal_strlit("input_file_id");
    assert("completion_window"@.len() == 17);
    assert("endpoint"@.len() == 8);
    assert("input_file_id"@.len() == 13);
}

/// A batch is created from the file that was uploaded, for the endpoint of its requests.
pub proof fn law_batch_is_made_of_its_file(id: Seq<char>)
    ensures
        field(create_value(id), "input_file_id"@) == JsonView::Str(id),
        field(create_value(id), "endpoint"@) == JsonView::Str("/v1/chat/completions"@),
        field(create_value(id), "completion_window"@) == JsonView::Str("24h"@),
{
    lemma_create_keys();
}

/// One of the counts of a batch.
pub open spec fn counted(v: JsonView, key: Seq<char>) -> int {
    amount(field(field(v, "request_counts"@), key))
}

proof fn lemma_states()
    ensures
        "cancelled"@ != "cancelling"@,
        "cancelled"@ != "completed"@,
        "cancelled"@ != "expired"@,
        "cancelled"@ != "failed"@,
        "cancelled"@ != "finalizing"@,
        "cancelled"@ != "in_progress"@,
        "cancelled"@ != "validating"@,
        "cancelling"@ != "completed"@,
        "cancelling"@ != "expired"@,
        "cancelling"@ != "failed"@,
        "cancelling"@ != "finalizing"@,
        "cancelling"@ != "in_progress"@,
        "cancelling"@ != "validating"@,
        "completed"@ != "expired"@,
        "completed"@ != "failed"@,
        "completed"@ != "finalizing"@,
        "completed"@ != "in_progress"@,
        "completed"@ != "validating"@,
        "expired"@ != "failed"@,
        "expired"@ != "finalizing"@,
        "expired"@ != "in_progress"@,
        "expired"@ != "validating"@,
        "failed"@ != "finalizing"@,
        "failed"@ != "in_progress"@,
        "failed"@ != "validating"@,
        "finalizing"@ != "in_progress"@,
        "finalizing"@ != "validating"@,
        "in_progress"@ != "validating"@,
{
    reveal_strlit("cancelled");
    reveal_strlit("cancelling");
    reveal_strlit("completed");
    reveal_strlit("expired");
    reveal_strlit("failed");
    reveal_strlit("finalizing");
    reveal_strlit("in_progress");
    reveal_strlit("validating");
    assert("cancelled"@.len() == 9);
    assert("cancelling"@.len() == 10);
    assert("completed"@.len() == 9);
    assert("expired"@.len() == 7);
    assert("failed"@.len() == 6);
    assert("finalizing"@.len() == 10);
    assert("in_progress"@.len() == 11);
    assert("validating"@.len() == 10);
    assert("cancelled"@[1] != "completed"@[1]);
    assert("cancelling"@[0] != "finalizing"@[0]);
    assert("cancelling"@[0] != "validating"@[0]);
    assert("finalizing"@[0] != "validating"@[0]);
}

/// Where a batch stands: while it runs, by how many requests have come to an end; then
/// as its state says.
pub proof fn law_status_is_told(v: JsonView)
    requires
        counted(v, "completed"@) + counted(v, "failed"@) <= u32::MAX,
        counted(v, "total"@) <= u32::MAX,
    ensures
        ({
            let state = field(v, "status"@);
            let s = batch_status(v);
            let runs = state == JsonView::Str("validating"@) || state == JsonView::Str(
                "in_progress"@,
            ) || state == JsonView::Str("finalizing"@) || state == JsonView::Str("cancelling"@);
            &&& runs ==> (s matches Ok(StatusView::InProgress { processed, total }) && processed
                == counted(v, "completed"@) + counted(v, "failed"@) && (total matches Some(n)
                ==> n == counted(v, "total"@)) && (counted(v, "total"@) > 0 ==> total is Some))
            &&& runs <==> (s matches Ok(x) && x is InProgress)
            &&& state == JsonView::Str("completed"@) <==> (s matches Ok(x) && x is Completed)
            &&& state == JsonView::Str("expired"@) <==> (s matches Ok(x) && x is Expired)
            &&& state == JsonView::Str("cancelled"@) <==> (s matches Ok(x) && x is Cancelled)
            &&& state == JsonView::Str("failed"@) <==> (s matches Ok(x) && x is Failed)
            &&& s matches Err(e) ==> e is Parse
        }),
{
    lemma_states();
}

/// A batch that has failed says so in the words of its first error.
pub proof fn law_failed_batch_says_why(v: JsonView, says: Seq<char>)
    requires
        field(v, "status"@) == JsonView::Str("failed"@),
        list(field(field(v, "errors"@), "data"@)).len() > 0,
        field(list(field(field(v, "errors"@), "data"@))[0], "message"@) == JsonView::Str(says),
    ensures
        batch_status(v) matches Ok(StatusView::Failed { message, .. }) && message == says,
{
    lemma_states();
}

/// Whether a reply is that of the completion that came.
pub open spec fn is_reply(r: ResponseView, body: JsonView) -> bool {
    let choice = list(field(body, "choices"@))[0];
    let reason = field(choice, "finish_reason"@);
    &&& r.text == words(field(field(choice, "message"@), "content"@))
    &&& r.thinking.len() == 0
    &&& r.actual_model == (match field(body, "model"@) {
        JsonView::Str(m) => m,
        _ => "openai"@,
    })
    &&& r.stop_reason matches Some(stop) && {
        &&& stop == StopReason::MaxTokens <==> reason == JsonView::Str("length"@)
        &&& stop == StopReason::ContentFilter <==> reason == JsonView::Str("content_filter"@)
        &&& stop == StopReason::ToolUse <==> reason == JsonView::Str("tool_calls"@)
        &&& stop != StopReason::StopSequence
        &&& stop != StopReason::Other
    }
    &&& counts_are(r.usage, field(body, "usage"@))
}

/// The reply of a completion is that of its first choice: its text, the model, why it
/// stopped and the token counts. There is one if that choice has a message.
pub proof fn law_completion_is_told(body: JsonView)
    ensures
        completion_response(body) matches Ok(r) ==> is_reply(r, body),
        completion_response(body) is Ok <==> list(field(body, "choices"@)).len() > 0 && has_field(
            list(field(body, "choices"@))[0],
            "message"@,
        ),
        completion_response(body) matches Err(e) ==> e is Parse,
{
    reveal_strlit("");
    lemma_reasons();
    if let Ok(r) = completion_response(body) {
        let choice = list(field(body, "choices"@))[0];
        assert(r.text =~= words(field(field(choice, "message"@), "content"@)));
    }
}

/// Whether an error is the one that a request in a batch came to.
pub open spec fn is_item_error(e: ErrorView, err: JsonView) -> bool {
    let code = field(err, "code"@);
    &&& code == JsonView::Str("invalid_request"@) || code == JsonView::Str(
        "invalid_request_error"@,
    ) <==> e is InvalidRequest
    &&& code == JsonView::Str("rate_limit_exceeded"@) <==> e is RateLimited
    &&& field(err, "message"@) matches JsonView::Str(s) ==> match e {
        ErrorView::InvalidRequest(m) => m == s,
        ErrorView::RateLimited { retry_after_ms } => retry_after_ms is None,
        ErrorView::Internal(m) => s.is_suffix_of(m),
        _ => false,
    }
}

/// Whether a result is the one in a line that has been read. An error goes before a
/// reply.
pub open spec fn is_result(item: ItemView, v: JsonView) -> bool {
    let body = field(field(v, "response"@), "body"@);
    &&& field(v, "custom_id"@) == JsonView::Str(item.item_id)
    &&& field(v, "error"@) != JsonView::Null ==> (item.result matches Err(e) && is_item_error(
        e,
        field(v, "error"@),
    ))
    &&& field(v, "error"@) == JsonView::Null ==> (item.result is Ok <==> list(
        field(body, "choices"@),
    ).len() > 0 && has_field(list(field(body, "choices"@))[0], "message"@))
    &&& item.result matches Ok(r) ==> is_reply(r, body)
}

/// Whether a line holds this result.
pub open spec fn holds(line: Seq<char>, item: ItemView) -> bool {
    serde_parse(line) matches Ok(v) && is_result(item, v)
}

proof fn lemma_codes()
    ensures
        "error"@ != "invalid_request"@,
        "error"@ != "invalid_request_error"@,
        "error"@ != "rate_limit_exceeded"@,
        "invalid_request"@ != "invalid_request_error"@,
        "invalid_request"@ != "rate_limit_exceeded"@,
        "invalid_request_error"@ != "rate_limit_exceeded"@,
{
    reveal_strlit("error");
    reveal_strlit("invalid_request");
    reveal_strlit("invalid_request_error");
    reveal_strlit("rate_limit_exceeded");
    assert("error"@.len() == 5);
    assert("invalid_request"@.len() == 15);
    assert("invalid_request_error"@.len() == 21);
    assert("rate_limit_exceeded"@.len() == 19);
}

proof fn lemma_result(v: JsonView, n: nat)
    ensures
        result_entry(v, n) matches Ok(item) ==> is_result(item, v),
        field(v, "custom_id"@) is Str && (field(v, "error"@) != JsonView::Null || has_field(
            field(v, "response"@),
            "body"@,
        )) ==> result_entry(v, n) is Ok,
{
    lemma_codes();
    let body = field(field(v, "response"@), "body"@);
    law_completion_is_told(body);
    if let Ok(item) = result_entry(v, n) {
        if field(v, "error"@) != JsonView::Null {
            if let Err(ErrorView::Internal(m)) = item.result {
                if let JsonView::Str(s) = field(field(v, "error"@), "message"@) {
                    assert(m.skip(m.len() - s.len()) =~= s);
                    assert(s.is_suffix_of(m));
                }
            }
        }
    }
}

/// The output file is read line by line: each line that is not blank gives the result
/// that it holds, in its place, and no line is left out.
pub proof fn law_results_are_told(s: Seq<Seq<char>>, out: Seq<ItemView>)
    requires
        result_entries(s) == Ok::<Seq<ItemView>, ErrorView>(out),
    ensures
        out.len() == filled(s).len(),
        forall|i: int| 0 <= i < out.len() ==> holds(filled(s)[i], #[trigger] out[i]),
    decreases s.len(),
{
    if s.len() > 0 {
        let before = result_entries(s.drop_last())->Ok_0;
        law_results_are_told(s.drop_last(), before);
        if trimmed(s.last()).len() > 0 {
            lemma_result(serde_parse(s.last())->Ok_0, s.len());
            assert forall|i: int| 0 <= i < out.len() implies holds(
                filled(s)[i],
                #[trigger] out[i],
            ) by {
                if i < before.len() {
                    assert(out[i] == before[i]);
                    assert(filled(s)[i] == filled(s.drop_last())[i]);
                }
            }
        }
    }
}

/// Whether a line holds the id of a request, and its error or the body of its reply.
pub open spec fn is_sound(line: Seq<char>) -> bool {
    serde_parse(line) matches Ok(v) && field(v, "custom_id"@) is Str && (field(v, "error"@)
        != JsonView::Null || has_field(field(v, "response"@), "body"@))
}

/// An output file is read if each of its lines is blank or holds the id of a request, and
/// its error or the body of its reply.
pub proof fn law_sound_results_are_read(s: Seq<Seq<char>>)
    requires
        forall|i: int|
            0 <= i < s.len() ==> trimmed(#[trigger] s[i]).len() == 0 || is_sound(s[i]),
    ensures
        result_entries(s) is Ok,
    decreases s.len(),
{
    if s.len() > 0 {
        let front = s.drop_last();
        assert forall|i: int| 0 <= i < front.len() implies trimmed(#[trigger] front[i]).len() == 0
            || is_sound(front[i]) by {
            assert(front[i] == s[i]);
        }
        law_sound_results_are_read(front);
        assert(s[s.len() - 1] == s.last());
        if trimmed(s.last()).len() > 0 {
            lemma_result(serde_parse(s.last())->Ok_0, s.len());
        }
    }
}

} // verus!
