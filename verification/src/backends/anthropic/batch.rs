//! Anthropic's message batches: the body that hands a batch in, the state of a
//! batch, and its results.

use crate::backends::anthropic::adapter::{translated, AnthropicAdapter};
use crate::backends::anthropic::mapping::{map_stop_reason, parse_usage, stop_reason, usage_of};
use crate::batch::{
    item_result, items, items_result, line_error, line_problem, status_result, BatchItemId,
    BatchResultItem, BatchStatus, ItemView, StatusView,
};
use crate::http_base::{quote, quoted};
use crate::json::{
    at, items_view, jstr, lemma_items, parse_json, push_item, serde_parse, Json, JsonView,
};
use crate::text::{lines, same, split_lines, strs, trim, trimmed};
use crate::types::{
    json_result, no_cache_hit, ChatEvent, ChatRequest, ChatResponse, ChatResponseBuilder, ErrorView,
    ProviderError, ResponseView, StopReason,
};
use vstd::prelude::*;
use vstd::string::*;

verus! {

/// One request of a batch on the wire.
pub open spec fn entry_json(id: Seq<char>, body: JsonView) -> JsonView {
    JsonView::Obj(map!["custom_id"@ => jstr(id), "params"@ => body])
}

/// The requests of a batch on the wire, or the first error among them.
pub open spec fn entries(s: Seq<(BatchItemId, ChatRequest)>) -> Result<Seq<JsonView>, ErrorView>
    decreases s.len(),
{
    if s.len() == 0 {
        Ok(seq![])
    } else {
        match entries(s.drop_last()) {
            Err(e) => Err(e),
            Ok(before) => match translated(s.last().1) {
                Err(e) => Err(e),
                Ok(body) => Ok(before.push(entry_json(s.last().0.id@, body))),
            },
        }
    }
}

/// The body that hands a batch in, or why there is none.
pub open spec fn batch_body(s: Seq<(BatchItemId, ChatRequest)>) -> Result<JsonView, ErrorView> {
    if s.len() == 0 {
        Err(ErrorView::InvalidRequest("batch submit: items list must not be empty"@))
    } else {
        match entries(s) {
            Err(e) => Err(e),
            Ok(list) => Ok(JsonView::Obj(map!["requests"@ => JsonView::Arr(list)])),
        }
    }
}

/// The first error of a prefix is that of the whole.
proof fn lemma_entries_error(s: Seq<(BatchItemId, ChatRequest)>, k: int)
    requires
        0 <= k <= s.len(),
        entries(s.take(k)) is Err,
    ensures
        entries(s) == entries(s.take(k)),
    decreases s.len() - k,
{
    if k < s.len() {
        assert(s.take(k + 1).drop_last() =~= s.take(k));
        lemma_entries_error(s, k + 1);
    } else {
        assert(s.take(k) =~= s);
    }
}

/// Writes the body that hands a batch in.
pub fn submit_body(adapter: &AnthropicAdapter, batch: &Vec<(BatchItemId, ChatRequest)>) -> (r:
    Result<Json, ProviderError>)
    ensures
        json_result(r) == batch_body(batch@),
{
    if batch.len() == 0 {
        return Err(
            ProviderError::InvalidRequest("batch submit: items list must not be empty".to_owned()),
        );
    }
    let mut list: Vec<Json> = Vec::new();
    let mut i: usize = 0;
    assert(items_view(list@) =~= seq![]);
    assert(batch@.take(0) =~= seq![]);
    while i < batch.len()
        invariant
            i <= batch@.len(),
            entries(batch@.take(i as int)) == Ok::<Seq<JsonView>, ErrorView>(items_view(list@)),
        decreases batch@.len() - i,
    {
        assert(batch@.take(i + 1).drop_last() =~= batch@.take(i as int));
        match adapter.translate_request(&batch[i].1) {
            Err(e) => {
                proof {
                    lemma_entries_error(batch@, i + 1);
                }
                return Err(e);
            },
            Ok(body) => {
                push_item(
                    &mut list,
                    Json::object().with("custom_id", Json::Str(batch[i].0.id.clone())).with(
                        "params",
                        body,
                    ),
                );
            },
        }
        i += 1;
    }
    assert(batch@.take(batch@.len() as int) =~= batch@);
    Ok(Json::object().with("requests", Json::Arr(list)))
}

/// One of the counts of a batch, in 32 bits.
pub open spec fn count(v: JsonView, key: Seq<char>) -> u32 {
    v.at("request_counts"@).u64_or_zero(key) as u32
}

/// A sum of counts, or the largest count where it does not fit.
pub open spec fn capped_count(n: int) -> u32 {
    if n > u32::MAX {
        u32::MAX
    } else {
        n as u32
    }
}

/// How many requests have come to an end.
pub open spec fn processed_count(v: JsonView) -> u32 {
    capped_count(
        count(v, "succeeded"@) + count(v, "errored"@) + count(v, "canceled"@) + count(
            v,
            "expired"@,
        ),
    )
}

/// Where a batch stands. One that has ended is complete, unless every request was
/// cancelled or every request expired.
pub open spec fn batch_status(v: JsonView) -> Result<StatusView, ErrorView> {
    match v.at("processing_status"@).as_str() {
        None => Err(ErrorView::Parse("batch status: missing `processing_status`"@)),
        Some(s) => {
            let processed = processed_count(v);
            if s == "in_progress"@ || s == "canceling"@ {
                Ok(
                    StatusView::InProgress {
                        processed,
                        total: Some(capped_count(processed + count(v, "processing"@))),
                    },
                )
            } else if s == "ended"@ {
                if processed > 0 && count(v, "canceled"@) == processed {
                    Ok(StatusView::Cancelled)
                } else if processed > 0 && count(v, "expired"@) == processed {
                    Ok(StatusView::Expired)
                } else {
                    Ok(StatusView::Completed)
                }
            } else {
                Err(
                    ErrorView::Parse(
                        "batch status: unknown `processing_status` value: "@ + quoted(s),
                    ),
                )
            }
        },
    }
}

/// Reads where a batch stands.
pub fn translate_batch_status(v: &Json) -> (r: Result<BatchStatus, ProviderError>)
    ensures
        status_result(r) == batch_status(v@),
{
    let null: Json = Json::Null;
    let status: &str = match v.str_at("processing_status") {
        Some(s) => s,
        None => {
            return Err(
                ProviderError::Parse("batch status: missing `processing_status`".to_owned()),
            );
        },
    };
    let counts: &Json = at(v, "request_counts", &null);
    let processing: u32 = counts.u64_or_zero("processing") as u32;
    let succeeded: u32 = counts.u64_or_zero("succeeded") as u32;
    let errored: u32 = counts.u64_or_zero("errored") as u32;
    let canceled: u32 = counts.u64_or_zero("canceled") as u32;
    let expired: u32 = counts.u64_or_zero("expired") as u32;
    let processed: u32 = succeeded.saturating_add(errored).saturating_add(canceled).saturating_add(
        expired,
    );
    if same(status, "in_progress") || same(status, "canceling") {
        Ok(
            BatchStatus::InProgress {
                processed,
                total: Some(processed.saturating_add(processing)),
            },
        )
    } else if same(status, "ended") {
        if processed > 0 && canceled == processed {
            Ok(BatchStatus::Cancelled)
        } else if processed > 0 && expired == processed {
            Ok(BatchStatus::Expired)
        } else {
            Ok(BatchStatus::Completed)
        }
    } else {
        let mut msg: String = "batch status: unknown `processing_status` value: ".to_owned();
        msg.append(quote(status).as_str());
        Err(ProviderError::Parse(msg))
    }
}

/// The text of a message: that of its text blocks, one after the other.
pub open spec fn message_text(blocks: Seq<JsonView>) -> Seq<char>
    decreases blocks.len(),
{
    if blocks.len() == 0 {
        seq![]
    } else {
        let b = blocks.last();
        let before = message_text(blocks.drop_last());
        if b.at("type"@).as_str() == Some("text"@) && b.at("text"@).as_str() is Some {
            before + b.at("text"@).as_str()->0
        } else {
            before
        }
    }
}

/// The reply that a message holds. Tool calls are not part of it.
pub open spec fn message_response(msg: JsonView) -> ResponseView {
    ResponseView {
        actual_model: msg.str_or("model"@, "anthropic"@),
        cache_hit: no_cache_hit(),
        text: match msg.at("content"@).as_arr() {
            Some(blocks) => message_text(blocks),
            None => seq![],
        },
        thinking: seq![],
        stop_reason: Some(
            match msg.at("stop_reason"@).as_str() {
                Some(s) => stop_reason(s),
                None => StopReason::EndTurn,
            },
        ),
        usage: usage_of(msg.at("usage"@)),
    }
}

/// Reads the reply that a message holds.
pub fn message_to_chat_response(msg: &Json) -> (r: ChatResponse)
    ensures
        r@ == message_response(msg@),
{
    let null: Json = Json::Null;
    let mut acc: ChatResponseBuilder = ChatResponseBuilder::new();
    let model: String = msg.str_or("model", "anthropic");
    acc.apply(ChatEvent::started(model.as_str()));
    let ghost opened = acc@;
    if let Some(blocks) = at(msg, "content", &null).as_arr() {
        let mut i: usize = 0;
        proof {
            lemma_items(blocks@);
            assert(items_view(blocks@).take(0) =~= seq![]);
            assert(opened.text =~= message_text(seq![]));
        }
        while i < blocks.len()
            invariant
                i <= blocks@.len(),
                acc@ == (ResponseView {
                    text: message_text(items_view(blocks@).take(i as int)),
                    ..opened
                }),
            decreases blocks@.len() - i,
        {
            proof {
                lemma_items(blocks@);
                let p = items_view(blocks@).take(i + 1);
                assert(p.drop_last() =~= items_view(blocks@).take(i as int));
                assert(p.last() == blocks@[i as int]@);
            }
            let block: &Json = &blocks[i];
            if let Some(kind) = block.str_at("type") {
                if same(kind, "text") {
                    if let Some(text) = block.str_at("text") {
                        acc.apply(ChatEvent::Delta { text: text.to_owned() });
                    }
                }
            }
            i += 1;
        }
        assert(items_view(blocks@).take(blocks@.len() as int) =~= items_view(blocks@));
    }
    let stop: StopReason = match msg.str_at("stop_reason") {
        Some(s) => map_stop_reason(s),
        None => StopReason::EndTurn,
    };
    acc.apply(
        ChatEvent::Finished { stop_reason: stop, usage: parse_usage(at(msg, "usage", &null)) },
    );
    assert(acc@.text =~= message_response(msg@).text);
    assert(acc@.thinking =~= seq![]);
    acc.finish()
}

/// The error of a request that failed within a batch.
pub open spec fn entry_error(err: JsonView) -> ErrorView {
    let kind = err.str_or("type"@, "error"@);
    let msg = err.str_or("message"@, "(no message)"@);
    if kind == "invalid_request_error"@ {
        ErrorView::InvalidRequest(msg)
    } else if kind == "authentication_error"@ {
        ErrorView::Auth(msg)
    } else if kind == "rate_limit_error"@ {
        ErrorView::RateLimited { retry_after_ms: None }
    } else if kind == "overloaded_error"@ {
        ErrorView::ModelOverloaded
    } else {
        ErrorView::Internal("anthropic batch item error ("@ + kind + "): "@ + msg)
    }
}

/// The result in a line of the results file, or why the file cannot be read.
pub open spec fn result_entry(v: JsonView, n: nat) -> Result<ItemView, ErrorView> {
    let result = v.at("result"@);
    let kind = result.at("type"@).as_str();
    if v.at("custom_id"@).as_str() is None {
        Err(line_problem(n, "missing custom_id"@))
    } else if v.get("result"@) is None {
        Err(line_problem(n, "missing result"@))
    } else if kind is None {
        Err(line_problem(n, "missing result.type"@))
    } else if kind == Some("succeeded"@) && result.get("message"@) is None {
        Err(line_problem(n, "succeeded but missing message"@))
    } else {
        Ok(
            ItemView {
                item_id: v.at("custom_id"@).as_str()->0,
                result: if kind == Some("succeeded"@) {
                    Ok(message_response(result.at("message"@)))
                } else if kind == Some("errored"@) {
                    Err(entry_error(result.at("error"@)))
                } else if kind == Some("canceled"@) {
                    Err(ErrorView::Internal("item cancelled"@))
                } else if kind == Some("expired"@) {
                    Err(ErrorView::Internal("item expired"@))
                } else {
                    Err(line_problem(n, "unknown result.type "@ + quoted(kind->0)))
                },
            },
        )
    }
}

/// Reads the error of a request that failed within a batch.
fn parse_entry_error(err: &Json) -> (r: ProviderError)
    ensures
        r@ == entry_error(err@),
{
    let kind: String = err.str_or("type", "error");
    let msg: String = err.str_or("message", "(no message)");
    if same(kind.as_str(), "invalid_request_error") {
        ProviderError::InvalidRequest(msg)
    } else if same(kind.as_str(), "authentication_error") {
        ProviderError::Auth(msg)
    } else if same(kind.as_str(), "rate_limit_error") {
        ProviderError::RateLimited { retry_after_ms: None }
    } else if same(kind.as_str(), "overloaded_error") {
        ProviderError::ModelOverloaded
    } else {
        let mut text: String = "anthropic batch item error (".to_owned();
        text.append(kind.as_str());
        text.append("): ");
        text.append(msg.as_str());
        ProviderError::Internal(text)
    }
}

/// Reads the result in a line whose JSON has been parsed.
pub fn parse_result_entry(v: &Json, n: usize) -> (r: Result<BatchResultItem, ProviderError>)
    ensures
        item_result(r) == result_entry(v@, n as nat),
{
    let null: Json = Json::Null;
    let custom_id: String = match v.str_at("custom_id") {
        Some(s) => s.to_owned(),
        None => {
            return Err(line_error(n, "missing custom_id"));
        },
    };
    let result: &Json = match v.get("result") {
        Some(j) => j,
        None => {
            return Err(line_error(n, "missing result"));
        },
    };
    let kind: &str = match result.str_at("type") {
        Some(s) => s,
        None => {
            return Err(line_error(n, "missing result.type"));
        },
    };
    let outcome: Result<ChatResponse, ProviderError> = if same(kind, "succeeded") {
        match result.get("message") {
            Some(message) => Ok(message_to_chat_response(message)),
            None => {
                return Err(line_error(n, "succeeded but missing message"));
            },
        }
    } else if same(kind, "errored") {
        Err(parse_entry_error(at(result, "error", &null)))
    } else if same(kind, "canceled") {
        Err(ProviderError::Internal("item cancelled".to_owned()))
    } else if same(kind, "expired") {
        Err(ProviderError::Internal("item expired".to_owned()))
    } else {
        let mut what: String = "unknown result.type ".to_owned();
        what.append(quote(kind).as_str());
        Err(line_error(n, what.as_str()))
    };
    Ok(BatchResultItem { item_id: BatchItemId::new(custom_id), result: outcome })
}

/// The results in the lines of a results file. Blank lines are skipped, and the
/// first line that cannot be read ends it.
pub open spec fn result_entries(s: Seq<Seq<char>>) -> Result<Seq<ItemView>, ErrorView>
    decreases s.len(),
{
    if s.len() == 0 {
        Ok(seq![])
    } else {
        match result_entries(s.drop_last()) {
            Err(e) => Err(e),
            Ok(before) => if trimmed(s.last()).len() == 0 {
                Ok(before)
            } else {
                match serde_parse(s.last()) {
                    Err(e) => Err(line_problem(s.len(), "not JSON: "@ + e)),
                    Ok(v) => match result_entry(v, s.len()) {
                        Err(e) => Err(e),
                        Ok(item) => Ok(before.push(item)),
                    },
                }
            },
        }
    }
}

/// The first error of a prefix is that of the whole.
proof fn lemma_results_error(s: Seq<Seq<char>>, k: int)
    requires
        0 <= k <= s.len(),
        result_entries(s.take(k)) is Err,
    ensures
        result_entries(s) == result_entries(s.take(k)),
    decreases s.len() - k,
{
    if k < s.len() {
        assert(s.take(k + 1).drop_last() =~= s.take(k));
        lemma_results_error(s, k + 1);
    } else {
        assert(s.take(k) =~= s);
    }
}

/// Reads a results file.
pub fn parse_batch_results(text: &str) -> (r: Result<Vec<BatchResultItem>, ProviderError>)
    ensures
        items_result(r) == result_entries(lines(text@)),
{
    let all: Vec<String> = split_lines(text);
    let ghost views = strs(all@);
    let mut out: Vec<BatchResultItem> = Vec::new();
    let mut i: usize = 0;
    assert(items(out@) =~= seq![]);
    assert(views.take(0) =~= seq![]);
    while i < all.len()
        invariant
            i <= all@.len(),
            views == strs(all@),
            views == lines(text@),
            result_entries(views.take(i as int)) == Ok::<Seq<ItemView>, ErrorView>(items(out@)),
        decreases all@.len() - i,
    {
        proof {
            assert(views.take(i + 1).drop_last() =~= views.take(i as int));
            assert(views.take(i + 1).last() == all@[i as int]@);
        }
        let line: &str = all[i].as_str();
        if !trim(line).as_str().is_empty() {
            match parse_json(line) {
                Err(e) => {
                    proof {
                        lemma_results_error(views, i + 1);
                    }
                    let mut what: String = "not JSON: ".to_owned();
                    what.append(e.as_str());
                    return Err(line_error(i + 1, what.as_str()));
                },
                Ok(v) => match parse_result_entry(&v, i + 1) {
                    Err(e) => {
                        proof {
                            lemma_results_error(views, i + 1);
                        }
                        return Err(e);
                    },
                    Ok(item) => {
                        let ghost before = out@;
                        out.push(item);
                        assert(items(out@) =~= items(before).push(item@));
                    },
                },
            }
        }
        i += 1;
    }
    assert(views.take(views.len() as int) =~= views);
    Ok(out)
}

} // verus!
