//! OpenAI's batches: the input file, the body that creates a batch from it, the
//! state of a batch, and the output file.

use crate::backends::openai::adapter::{parse_openai_usage, translated, usage_of, OpenAiAdapter};
use crate::batch::{
    item_result, items, items_result, line_error, line_problem, status_result, BatchItemId,
    BatchResultItem, BatchStatus, ItemView, StatusView,
};
use crate::http_base::{quote, quoted};
use crate::json::{
    at, jstr, lemma_items, parse_json, print_json, serde_parse, serde_print, Json, JsonView,
};
use crate::text::{lines, same, split_lines, strs, trim, trimmed};
use crate::types::{
    no_cache_hit, text_result, ChatEvent, ChatRequest, ChatResponse, ChatResponseBuilder, ErrorView,
    ProviderError, ResponseView, StopReason,
};
use vstd::prelude::*;
use vstd::string::*;

verus! {

/// One request in the input file.
pub open spec fn entry_json(id: Seq<char>, body: JsonView) -> JsonView {
    JsonView::Obj(
        map![
            "custom_id"@ => jstr(id),
            "method"@ => jstr("POST"@),
            "url"@ => jstr("/v1/chat/completions"@),
            "body"@ => body,
        ],
    )
}

/// The lines of the input file, or the first error among the requests.
pub open spec fn input_lines(s: Seq<(BatchItemId, ChatRequest)>) -> Result<Seq<char>, ErrorView>
    decreases s.len(),
{
    if s.len() == 0 {
        Ok(seq![])
    } else {
        match input_lines(s.drop_last()) {
            Err(e) => Err(e),
            Ok(before) => match translated(s.last().1) {
                Err(e) => Err(e),
                Ok(body) => Ok(before + serde_print(entry_json(s.last().0.id@, body)) + "\n"@),
            },
        }
    }
}

/// The input file of a batch, or why there is none.
pub open spec fn input_file(s: Seq<(BatchItemId, ChatRequest)>) -> Result<Seq<char>, ErrorView> {
    if s.len() == 0 {
        Err(ErrorView::InvalidRequest("batch submit: items list must not be empty"@))
    } else {
        input_lines(s)
    }
}

/// The first error of a prefix is that of the whole.
proof fn lemma_input_error(s: Seq<(BatchItemId, ChatRequest)>, k: int)
    requires
        0 <= k <= s.len(),
        input_lines(s.take(k)) is Err,
    ensures
        input_lines(s) == input_lines(s.take(k)),
    decreases s.len() - k,
{
    if k < s.len() {
        assert(s.take(k + 1).drop_last() =~= s.take(k));
        lemma_input_error(s, k + 1);
    } else {
        assert(s.take(k) =~= s);
    }
}

/// Writes the input file of a batch.
pub fn batch_input(adapter: &OpenAiAdapter, batch: &Vec<(BatchItemId, ChatRequest)>) -> (r: Result<
    String,
    ProviderError,
>)
    ensures
        text_result(r) == input_file(batch@),
{
    if batch.len() == 0 {
        return Err(
            ProviderError::InvalidRequest("batch submit: items list must not be empty".to_owned()),
        );
    }
    let mut out: String = String::new();
    let mut i: usize = 0;
    assert(batch@.take(0) =~= seq![]);
    while i < batch.len()
        invariant
            i <= batch@.len(),
            input_lines(batch@.take(i as int)) == Ok::<Seq<char>, ErrorView>(out@),
        decreases batch@.len() - i,
    {
        assert(batch@.take(i + 1).drop_last() =~= batch@.take(i as int));
        match adapter.translate_request(&batch[i].1) {
            Err(e) => {
                proof {
                    lemma_input_error(batch@, i + 1);
                }
                return Err(e);
            },
            Ok(body) => {
                let entry: Json = Json::object().with(
                    "custom_id",
                    Json::Str(batch[i].0.id.clone()),
                ).with("method", Json::text("POST")).with(
                    "url",
                    Json::text("/v1/chat/completions"),
                ).with("body", body);
                out.append(print_json(&entry).as_str());
                out.append("\n");
            },
        }
        i += 1;
    }
    assert(batch@.take(batch@.len() as int) =~= batch@);
    Ok(out)
}

/// The body that creates a batch from an uploaded file.
pub open spec fn create_value(input_file_id: Seq<char>) -> JsonView {
    JsonView::Obj(
        map![
            "input_file_id"@ => jstr(input_file_id),
            "endpoint"@ => jstr("/v1/chat/completions"@),
            "completion_window"@ => jstr("24h"@),
        ],
    )
}

/// Writes the body that creates a batch from an uploaded file.
pub fn create_body(input_file_id: &str) -> (r: Json)
    ensures
        r@ == create_value(input_file_id@),
{
    Json::object().with("input_file_id", Json::text(input_file_id)).with(
        "endpoint",
        Json::text("/v1/chat/completions"),
    ).with("completion_window", Json::text("24h"))
}

/// A count in 32 bits, or the largest count where it does not fit.
pub open spec fn capped_count(n: int) -> u32 {
    if n > u32::MAX {
        u32::MAX
    } else {
        n as u32
    }
}

/// One of the counts of a batch.
pub open spec fn count(v: JsonView, key: Seq<char>) -> u32 {
    capped_count(v.at("request_counts"@).u64_or_zero(key) as int)
}

/// The message of a batch that failed as a whole.
pub open spec fn batch_failure(v: JsonView) -> Seq<char> {
    match v.at("errors"@).at("data"@).as_arr() {
        Some(list) if list.len() > 0 => list[0].str_or("message"@, "batch failed"@),
        _ => "batch failed"@,
    }
}

/// Where a batch stands.
pub open spec fn batch_status(v: JsonView) -> Result<StatusView, ErrorView> {
    match v.at("status"@).as_str() {
        None => Err(ErrorView::Parse("batch status: missing `status`"@)),
        Some(s) => if s == "validating"@ || s == "in_progress"@ || s == "finalizing"@ || s
            == "cancelling"@ {
            Ok(
                StatusView::InProgress {
                    processed: capped_count(count(v, "completed"@) + count(v, "failed"@)),
                    total: match v.at("request_counts"@).at("total"@).as_u64() {
                        Some(n) => Some(capped_count(n as int)),
                        None => None,
                    },
                },
            )
        } else if s == "completed"@ {
            Ok(StatusView::Completed)
        } else if s == "expired"@ {
            Ok(StatusView::Expired)
        } else if s == "cancelled"@ {
            Ok(StatusView::Cancelled)
        } else if s == "failed"@ {
            Ok(StatusView::Failed { kind: "batch_failed"@, message: batch_failure(v) })
        } else {
            Err(ErrorView::Parse("batch status: unknown `status` value: "@ + quoted(s)))
        },
    }
}

/// A count in 32 bits.
fn clamp_u32(n: u64) -> (r: u32)
    ensures
        r == capped_count(n as int),
{
    if n > u32::MAX as u64 {
        u32::MAX
    } else {
        n as u32
    }
}

/// Reads where a batch stands.
pub fn translate_openai_batch_status(v: &Json) -> (r: Result<BatchStatus, ProviderError>)
    ensures
        status_result(r) == batch_status(v@),
{
    let null: Json = Json::Null;
    let status: &str = match v.str_at("status") {
        Some(s) => s,
        None => {
            return Err(ProviderError::Parse("batch status: missing `status`".to_owned()));
        },
    };
    let counts: &Json = at(v, "request_counts", &null);
    let total: Option<u32> = match at(counts, "total", &null).as_u64() {
        Some(n) => Some(clamp_u32(n)),
        None => None,
    };
    let completed: u32 = clamp_u32(counts.u64_or_zero("completed"));
    let failed: u32 = clamp_u32(counts.u64_or_zero("failed"));
    let processed: u32 = completed.saturating_add(failed);
    if same(status, "validating") || same(status, "in_progress") || same(status, "finalizing")
        || same(status, "cancelling") {
        Ok(BatchStatus::InProgress { processed, total })
    } else if same(status, "completed") {
        Ok(BatchStatus::Completed)
    } else if same(status, "expired") {
        Ok(BatchStatus::Expired)
    } else if same(status, "cancelled") {
        Ok(BatchStatus::Cancelled)
    } else if same(status, "failed") {
        let message: String = match at(at(v, "errors", &null), "data", &null).as_arr() {
            Some(list) => {
                proof {
                    lemma_items(list@);
                }
                if list.len() > 0 {
                    list[0].str_or("message", "batch failed")
                } else {
                    "batch failed".to_owned()
                }
            },
            None => "batch failed".to_owned(),
        };
        Ok(BatchStatus::Failed { kind: "batch_failed".to_owned(), message })
    } else {
        let mut msg: String = "batch status: unknown `status` value: ".to_owned();
        msg.append(quote(status).as_str());
        Err(ProviderError::Parse(msg))
    }
}

/// What the finish reason of a whole reply means. An unknown one is the end of the
/// turn.
pub open spec fn final_stop(s: Option<Seq<char>>) -> StopReason {
    if s == Some("length"@) {
        StopReason::MaxTokens
    } else if s == Some("content_filter"@) {
        StopReason::ContentFilter
    } else if s == Some("tool_calls"@) {
        StopReason::ToolUse
    } else {
        StopReason::EndTurn
    }
}

/// The reply in the body of a chat completion. Tool calls are not part of it.
pub open spec fn completion_response(body: JsonView) -> Result<ResponseView, ErrorView> {
    match body.at("choices"@).as_arr() {
        Some(choices) if choices.len() > 0 => if choices[0].get("message"@) is None {
            Err(ErrorView::Parse("openai batch response: choice missing message"@))
        } else {
            Ok(
                ResponseView {
                    actual_model: body.str_or("model"@, "openai"@),
                    cache_hit: no_cache_hit(),
                    text: choices[0].at("message"@).str_or("content"@, ""@),
                    thinking: seq![],
                    stop_reason: Some(final_stop(choices[0].at("finish_reason"@).as_str())),
                    usage: usage_of(body.at("usage"@)),
                },
            )
        },
        _ => Err(ErrorView::Parse("openai batch response: choices empty"@)),
    }
}

/// What the outcome of reading a reply says.
pub open spec fn response_result(r: Result<ChatResponse, ProviderError>) -> Result<
    ResponseView,
    ErrorView,
> {
    match r {
        Ok(x) => Ok(x@),
        Err(e) => Err(e@),
    }
}

/// Reads the reply in the body of a chat completion.
pub fn openai_chat_completion_to_chat_response(body: &Json) -> (r: Result<
    ChatResponse,
    ProviderError,
>)
    ensures
        response_result(r) == completion_response(body@),
{
    proof {
        reveal_strlit("");
    }
    let null: Json = Json::Null;
    let choice: &Json = match at(body, "choices", &null).as_arr() {
        Some(list) => {
            proof {
                lemma_items(list@);
            }
            if list.len() == 0 {
                return Err(
                    ProviderError::Parse("openai batch response: choices empty".to_owned()),
                );
            }
            &list[0]
        },
        None => {
            return Err(ProviderError::Parse("openai batch response: choices empty".to_owned()));
        },
    };
    let message: &Json = match choice.get("message") {
        Some(m) => m,
        None => {
            return Err(
                ProviderError::Parse("openai batch response: choice missing message".to_owned()),
            );
        },
    };
    let mut acc: ChatResponseBuilder = ChatResponseBuilder::new();
    let model: String = body.str_or("model", "openai");
    acc.apply(ChatEvent::started(model.as_str()));
    let text: String = message.str_or("content", "");
    let ghost shown = text@;
    if !text.as_str().is_empty() {
        acc.apply(ChatEvent::Delta { text });
    }
    let stop: StopReason = match choice.str_at("finish_reason") {
        Some(s) => if same(s, "length") {
            StopReason::MaxTokens
        } else if same(s, "content_filter") {
            StopReason::ContentFilter
        } else if same(s, "tool_calls") {
            StopReason::ToolUse
        } else {
            StopReason::EndTurn
        },
        None => StopReason::EndTurn,
    };
    acc.apply(
        ChatEvent::Finished {
            stop_reason: stop,
            usage: parse_openai_usage(at(body, "usage", &null)),
        },
    );
    assert(acc@.text =~= shown);
    assert(acc@.thinking =~= seq![]);
    Ok(acc.finish())
}

/// The error of a request that failed within a batch.
pub open spec fn entry_error(err: JsonView) -> ErrorView {
    let code = err.str_or("code"@, "error"@);
    let msg = err.str_or("message"@, "(no message)"@);
    if code == "invalid_request"@ || code == "invalid_request_error"@ {
        ErrorView::InvalidRequest(msg)
    } else if code == "rate_limit_exceeded"@ {
        ErrorView::RateLimited { retry_after_ms: None }
    } else {
        ErrorView::Internal("openai batch item error ("@ + code + "): "@ + msg)
    }
}

/// The result in a line of the output file, or why the file cannot be read. An
/// error of the request goes before a reply.
pub open spec fn result_entry(v: JsonView, n: nat) -> Result<ItemView, ErrorView> {
    match v.at("custom_id"@).as_str() {
        None => Err(line_problem(n, "missing custom_id"@)),
        Some(item_id) => if v.at("error"@) != JsonView::Null {
            Ok(ItemView { item_id, result: Err(entry_error(v.at("error"@))) })
        } else if v.get("response"@) is None {
            Err(line_problem(n, "missing response and no error"@))
        } else if v.at("response"@).get("body"@) is None {
            Err(line_problem(n, "response missing body"@))
        } else {
            Ok(
                ItemView {
                    item_id,
                    result: completion_response(v.at("response"@).at("body"@)),
                },
            )
        },
    }
}

/// Reads the error of a request that failed within a batch.
fn parse_entry_error(err: &Json) -> (r: ProviderError)
    ensures
        r@ == entry_error(err@),
{
    let code: String = err.str_or("code", "error");
    let msg: String = err.str_or("message", "(no message)");
    if same(code.as_str(), "invalid_request") || same(code.as_str(), "invalid_request_error") {
        ProviderError::InvalidRequest(msg)
    } else if same(code.as_str(), "rate_limit_exceeded") {
        ProviderError::RateLimited { retry_after_ms: None }
    } else {
        let mut text: String = "openai batch item error (".to_owned();
        text.append(code.as_str());
        text.append("): ");
        text.append(msg.as_str());
        ProviderError::Internal(text)
    }
}

/// Reads the result in a line whose JSON has been parsed.
pub fn parse_result_entry(v: &Json, n: usize) -> (r: Result<BatchResultItem, ProviderError>)
    ensures
        item_result(r) == result_entry(v@, n as nat),
{
    let null: Json = Json::Null;
    let custom_id: String = match v.str_at("custom_id") {
        Some(s) => s.to_owned(),
        None => {
            return Err(line_error(n, "missing custom_id"));
        },
    };
    let err: &Json = at(v, "error", &null);
    let failed: bool = match err {
        Json::Null => false,
        _ => true,
    };
    if failed {
        return Ok(
            BatchResultItem {
                item_id: BatchItemId::new(custom_id),
                result: Err(parse_entry_error(err)),
            },
        );
    }
    let response: &Json = match v.get("response") {
        Some(j) => j,
        None => {
            return Err(line_error(n, "missing response and no error"));
        },
    };
    match response.get("body") {
        None => Err(line_error(n, "response missing body")),
        Some(body) => Ok(
            BatchResultItem {
                item_id: BatchItemId::new(custom_id),
                result: openai_chat_completion_to_chat_response(body),
            },
        ),
    }
}

/// The results in the lines of an output file. Blank lines are skipped, and the
/// first line that cannot be read ends it.
pub open spec fn result_entries(s: Seq<Seq<char>>) -> Result<Seq<ItemView>, ErrorView>
    decreases s.len(),
{
    if s.len() == 0 {
        Ok(seq![])
    } else {
        match result_entries(s.drop_last()) {
            Err(e) => Err(e),
            Ok(before) => if trimmed(s.last()).len() == 0 {
                Ok(before)
            } else {
                match serde_parse(s.last()) {
                    Err(e) => Err(line_problem(s.len(), "not JSON: "@ + e)),
                    Ok(v) => match result_entry(v, s.len()) {
                        Err(e) => Err(e),
                        Ok(item) => Ok(before.push(item)),
                    },
                }
            },
        }
    }
}

/// The first error of a prefix is that of the whole.
proof fn lemma_results_error(s: Seq<Seq<char>>, k: int)
    requires
        0 <= k <= s.len(),
        result_entries(s.take(k)) is Err,
    ensures
        result_entries(s) == result_entries(s.take(k)),
    decreases s.len() - k,
{
    if k < s.len() {
        assert(s.take(k + 1).drop_last() =~= s.take(k));
        lemma_results_error(s, k + 1);
    } else {
        assert(s.take(k) =~= s);
    }
}

/// Reads an output file.
pub fn parse_openai_batch_results(text: &str) -> (r: Result<Vec<BatchResultItem>, ProviderError>)
    ensures
        items_result(r) == result_entries(lines(text@)),
{
    let all: Vec<String> = split_lines(text);
    let ghost views = strs(all@);
    let mut out: Vec<BatchResultItem> = Vec::new();
    let mut i: usize = 0;
    assert(items(out@) =~= seq![]);
    assert(views.take(0) =~= seq![]);
    while i < all.len()
        invariant
            i <= all@.len(),
            views == strs(all@),
            views == lines(text@),
            result_entries(views.take(i as int)) == Ok::<Seq<ItemView>, ErrorView>(items(out@)),
        decreases all@.len() - i,
    {
        proof {
            assert(views.take(i + 1).drop_last() =~= views.take(i as int));
            assert(views.take(i + 1).last() == all@[i as int]@);
        }
        let line: &str = all[i].as_str();
        if !trim(line).as_str().is_empty() {
            match parse_json(line) {
                Err(e) => {
                    proof {
                        lemma_results_error(views, i + 1);
                    }
                    let mut what: String = "not JSON: ".to_owned();
                    what.append(e.as_str());
                    return Err(line_error(i + 1, what.as_str()));
                },
                Ok(v) => match parse_result_entry(&v, i + 1) {
                    Err(e) => {
                        proof {
                            lemma_results_error(views, i + 1);
                        }
                        return Err(e);
                    },
                    Ok(item) => {
                        let ghost before = out@;
                        out.push(item);
                        assert(items(out@) =~= items(before).push(item@));
                    },
                },
            }
        }
        i += 1;
    }
    assert(views.take(views.len() as int) =~= views);
    Ok(out)
}

} // verus!
