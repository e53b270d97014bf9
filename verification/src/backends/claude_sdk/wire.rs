//! The lines that go to the child process and come back from it.

use crate::backends::cli::prompt::{
    blocks_of, blocks_text, flatten_blocks, role_and_blocks, role_name, turn_text, under_name,
};
use crate::json::{
    fits_record, is_record, jint, jstr, parse_json, parse_lenient, parse_or_null, plain, print_json,
    record_at, record_member, serde_parse, serde_print, Json, JsonView, MAX_DEPTH,
};
use crate::members::{
    find_named, is_repeated, items_of, members_of, named, repeats, split_items, split_members,
    Member,
};
use crate::text::{is_empty, join, joined, opt_slice, opt_str, push_text, same, strs};
use crate::types::{
    no_usage, ChatRequest, ContentBlock, ErrorView, Message, ProviderError, StopReason, Usage,
};
use crate::text::{decimal, decimal_of};
use vstd::prelude::*;
use vstd::string::*;

verus! {

/// How many turns the child process may take for one call.
pub const MAX_TURNS: u64 = 7;

/// The turns of a conversation in which something is said.
pub open spec fn spoken_turns(s: Seq<Message>) -> Seq<Seq<char>>
    decreases s.len(),
{
    if s.len() == 0 {
        seq![]
    } else {
        let before = spoken_turns(s.drop_last());
        let said = blocks_text(blocks_of(s.last()), false);
        if said.len() > 0 {
            before.push(turn_text(role_name(s.last()), said))
        } else {
            before
        }
    }
}

/// A conversation as the one text that the child process takes.
pub open spec fn sdk_prompt(req: ChatRequest) -> Seq<char> {
    joined(spoken_turns(req.messages@), "\n\n"@)
}

/// A conversation as the one text that the child process takes.
pub fn serialize_messages(req: &ChatRequest) -> (r: String)
    ensures
        r@ == sdk_prompt(*req),
{
    let s: &Vec<Message> = &req.messages;
    let mut parts: Vec<String> = Vec::new();
    let mut i: usize = 0;
    assert(strs(parts@) =~= spoken_turns(s@.take(0)));
    while i < s.len()
        invariant
            i <= s@.len(),
            strs(parts@) == spoken_turns(s@.take(i as int)),
        decreases s@.len() - i,
    {
        assert(s@.take(i + 1).drop_last() =~= s@.take(i as int));
        let (name, blocks): (&'static str, &Vec<ContentBlock>) = role_and_blocks(&s[i]);
        let said: String = flatten_blocks(blocks, false);
        if !is_empty(said.as_str()) {
            push_text(&mut parts, under_name(name, said.as_str()));
        }
        i += 1;
    }
    assert(s@.take(s@.len() as int) =~= s@);
    join(&parts, "\n\n")
}

/// An object with a member where there is a value for it.
pub open spec fn with_opt(
    m: Map<Seq<char>, JsonView>,
    key: Seq<char>,
    value: Option<JsonView>,
) -> Map<Seq<char>, JsonView> {
    match value {
        Some(v) => m.insert(key, v),
        None => m,
    }
}

/// An optional text as a value.
pub open spec fn opt_text(s: Option<Seq<char>>) -> Option<JsonView> {
    match s {
        Some(x) => Some(jstr(x)),
        None => None,
    }
}

/// The object that asks the child process for an answer.
pub open spec fn chat_value(
    id: u64,
    prompt: Seq<char>,
    system: Option<Seq<char>>,
    model: Option<Seq<char>>,
    schema: Option<JsonView>,
) -> JsonView {
    let m = Map::<Seq<char>, JsonView>::empty().insert("id"@, jint(id as int)).insert(
        "prompt"@,
        jstr(prompt),
    ).insert("max_turns"@, jint(MAX_TURNS as int));
    JsonView::Obj(
        with_opt(
            with_opt(with_opt(m, "system"@, opt_text(system)), "model"@, opt_text(model)),
            "schema"@,
            schema,
        ),
    )
}

/// What an optional value denotes.
pub open spec fn schema_view(s: Option<&Json>) -> Option<JsonView> {
    match s {
        Some(j) => Some(j@),
        None => None,
    }
}

/// The line that asks the child process for an answer: an object that reads as it was
/// written, and the end of the line.
pub fn chat_line(
    id: u64,
    prompt: &str,
    system: Option<&str>,
    model: Option<&str>,
    schema: Option<&Json>,
) -> (r: String)
    ensures
        r@ == serde_print(
            chat_value(id, prompt@, opt_slice(system), opt_slice(model), schema_view(schema)),
        ).push('\n'),
        (schema_view(schema) matches Some(j) ==> plain(j, 126)) ==> serde_parse(r@.drop_last())
            == Ok::<JsonView, Seq<char>>(
            chat_value(id, prompt@, opt_slice(system), opt_slice(model), schema_view(schema)),
        ),
{
    let mut body: Json = Json::object().with("id", Json::Uint(id)).with(
        "prompt",
        Json::text(prompt),
    ).with("max_turns", Json::Uint(MAX_TURNS));
    if let Some(s) = system {
        body = body.with("system", Json::text(s));
    }
    if let Some(m) = model {
        body = body.with("model", Json::text(m));
    }
    if let Some(j) = schema {
        body = body.with("schema", j.clone());
    }
    let mut line: String = print_json(&body);
    proof {
        if schema_view(schema) matches Some(j) ==> plain(j, 126) {
            let m = body@->Obj_0;
            assert forall|k: Seq<char>| m.contains_key(k) implies plain(#[trigger] m[k], 126) by {}
            assert(plain(body@, MAX_DEPTH as nat));
        }
        assert(line@.push('\n').drop_last() =~= line@);
    }
    line.push('\n');
    line
}

/// The token counts of an answer, as far as they are given.
#[derive(Debug, Clone, Copy, PartialEq, Eq, Structural)]
pub struct RawUsage {
    pub input_tokens: Option<u64>,
    pub output_tokens: Option<u64>,
    pub cache_read_input_tokens: Option<u64>,
    pub cache_creation_input_tokens: Option<u64>,
}

/// A count that may be missing.
pub open spec fn or_zero(n: Option<u64>) -> u64 {
    match n {
        Some(x) => x,
        None => 0,
    }
}

/// The size of the whole prompt.
pub open spec fn whole_input(u: RawUsage) -> int {
    or_zero(u.input_tokens) + or_zero(u.cache_read_input_tokens) + or_zero(
        u.cache_creation_input_tokens,
    )
}

/// Whether the size of the whole prompt can be held.
pub open spec fn usage_fits(raw: Option<RawUsage>) -> bool {
    raw is Some ==> whole_input(raw->0) <= u64::MAX
}

/// The token counts of an answer. What was read from the cache and what was written
/// to it are part of the prompt.
pub open spec fn sdk_usage(raw: Option<RawUsage>) -> Usage {
    match raw {
        None => no_usage(),
        Some(u) => Usage {
            input_tokens: whole_input(u) as u64,
            output_tokens: or_zero(u.output_tokens),
            cached_input_tokens: or_zero(u.cache_read_input_tokens),
            cache_creation_tokens: or_zero(u.cache_creation_input_tokens),
            ..no_usage()
        },
    }
}

/// A count that may be missing.
fn count_or_zero(n: Option<u64>) -> (r: u64)
    ensures
        r == or_zero(n),
{
    match n {
        Some(x) => x,
        None => 0,
    }
}

/// Whether the size of the whole prompt can be held.
pub fn has_fitting_usage(raw: &Option<RawUsage>) -> (r: bool)
    ensures
        r == usage_fits(*raw),
{
    match raw {
        None => true,
        Some(u) => {
            let total: u128 = count_or_zero(u.input_tokens) as u128 + count_or_zero(
                u.cache_read_input_tokens,
            ) as u128 + count_or_zero(u.cache_creation_input_tokens) as u128;
            total <= u64::MAX as u128
        },
    }
}

/// The token counts of an answer.
pub fn normalize_usage(raw: &Option<RawUsage>) -> (r: Usage)
    requires
        usage_fits(*raw),
    ensures
        r == sdk_usage(*raw),
{
    match raw {
        None => Usage::default(),
        Some(u) => {
            let cached: u64 = count_or_zero(u.cache_read_input_tokens);
            let created: u64 = count_or_zero(u.cache_creation_input_tokens);
            let fresh: u64 = count_or_zero(u.input_tokens);
            Usage {
                input_tokens: fresh + cached + created,
                output_tokens: count_or_zero(u.output_tokens),
                cached_input_tokens: cached,
                cache_creation_tokens: created,
                ..Usage::default()
            }
        },
    }
}

/// What was read from the cache and written to it is part of the prompt.
pub proof fn law_input_covers_cache(raw: Option<RawUsage>)
    requires
        usage_fits(raw),
    ensures
        sdk_usage(raw).cached_input_tokens + sdk_usage(raw).cache_creation_tokens <= sdk_usage(
            raw,
        ).input_tokens,
{
}

/// Why an answer ended.
pub open spec fn stop_reason(subtype: Option<Seq<char>>) -> StopReason {
    match subtype {
        None => StopReason::EndTurn,
        Some(s) => if s == "success"@ || s == "end_turn"@ {
            StopReason::EndTurn
        } else if s == "max_tokens"@ {
            StopReason::MaxTokens
        } else {
            StopReason::Other
        },
    }
}

/// Why an answer ended.
pub fn map_stop_reason(subtype: Option<&str>) -> (r: StopReason)
    ensures
        r == stop_reason(opt_slice(subtype)),
{
    match subtype {
        None => StopReason::EndTurn,
        Some(s) => if same(s, "success") || same(s, "end_turn") {
            StopReason::EndTurn
        } else if same(s, "max_tokens") {
            StopReason::MaxTokens
        } else {
            StopReason::Other
        },
    }
}

/// An answer of the child process.
#[derive(Debug)]
pub struct DaemonChatReply {
    pub text: String,
    pub result_subtype: Option<String>,
    pub usage: Option<RawUsage>,
    pub model: Option<String>,
}

/// What an answer says.
pub struct ReplyView {
    pub text: Seq<char>,
    pub result_subtype: Option<Seq<char>>,
    pub usage: Option<RawUsage>,
    pub model: Option<Seq<char>>,
}

impl View for DaemonChatReply {
    type V = ReplyView;

    open spec fn view(&self) -> ReplyView {
        ReplyView {
            text: self.text@,
            result_subtype: opt_str(self.result_subtype),
            usage: self.usage,
            model: opt_str(self.model),
        }
    }
}

/// What comes back for a call.
pub open spec fn reply_result(r: Result<DaemonChatReply, ProviderError>) -> Result<
    ReplyView,
    ErrorView,
> {
    match r {
        Ok(x) => Ok(x@),
        Err(e) => Err(e@),
    }
}

/// A text that may be missing or null; nothing where it is something else.
pub open spec fn text_member(v: JsonView, key: Seq<char>, place: int) -> Option<Option<Seq<char>>> {
    match record_member(v, key, place) {
        JsonView::Null => Some(None),
        JsonView::Str(s) => Some(Some(s)),
        _ => None,
    }
}

/// A count that may be missing or null; nothing where it is something else.
pub open spec fn count_member(v: JsonView, key: Seq<char>, place: int) -> Option<Option<u64>> {
    match record_member(v, key, place) {
        JsonView::Null => Some(None),
        other => match other.as_u64() {
            Some(n) => Some(Some(n)),
            None => None,
        },
    }
}

/// Token counts, by name or in their order; nothing where they are something else.
pub open spec fn counts_read(u: JsonView) -> Option<RawUsage> {
    if !is_record(u, 4) {
        None
    } else {
        match (
            count_member(u, "input_tokens"@, 0),
            count_member(u, "output_tokens"@, 1),
            count_member(u, "cache_read_input_tokens"@, 2),
            count_member(u, "cache_creation_input_tokens"@, 3),
        ) {
            (Some(a), Some(b), Some(c), Some(d)) => Some(
                RawUsage {
                    input_tokens: a,
                    output_tokens: b,
                    cache_read_input_tokens: c,
                    cache_creation_input_tokens: d,
                },
            ),
            _ => None,
        }
    }
}

/// Token counts that may be missing or null; nothing where they are something else.
pub open spec fn usage_member(v: JsonView, place: int) -> Option<Option<RawUsage>> {
    match record_member(v, "usage"@, place) {
        JsonView::Null => Some(None),
        u => match counts_read(u) {
            Some(x) => Some(Some(x)),
            None => None,
        },
    }
}

/// Whether token counts in a text hold one of them twice.
pub open spec fn counts_repeat(t: Seq<char>) -> bool {
    let ms = members_of(t);
    parse_or_null(t) is Obj && (is_repeated(ms, "input_tokens"@) || is_repeated(
        ms,
        "output_tokens"@,
    ) || is_repeated(ms, "cache_read_input_tokens"@) || is_repeated(
        ms,
        "cache_creation_input_tokens"@,
    ))
}

/// Whether a line holds a member twice.
pub open spec fn reply_repeats(line: Seq<char>, v: JsonView) -> bool {
    match v {
        JsonView::Obj(_) => {
            let ms = members_of(line);
            ||| is_repeated(ms, "id"@)
            ||| is_repeated(ms, "text"@)
            ||| is_repeated(ms, "result_subtype"@)
            ||| is_repeated(ms, "usage"@)
            ||| is_repeated(ms, "model"@)
            ||| is_repeated(ms, "error"@)
            ||| (named(ms, "usage"@) matches Some(m) && counts_repeat(m.text))
        },
        JsonView::Arr(_) => items_of(line).len() > 3 && counts_repeat(items_of(line)[3]),
        _ => false,
    }
}

/// What a line from the child process says: which call it is for, and what comes back
/// for it. Its members are read by name, or in their order where the line is a list.
/// Nothing where the line is malformed or holds a member twice. One that holds neither an answer nor an error
/// is an error.
pub open spec fn reply_read(line: Seq<char>) -> Option<(u64, Result<ReplyView, ErrorView>)> {
    match serde_parse(line) {
        Err(e) => None,
        Ok(v) => match (
            record_member(v, "id"@, 0).as_u64(),
            text_member(v, "text"@, 1),
            text_member(v, "result_subtype"@, 2),
            usage_member(v, 3),
            text_member(v, "model"@, 4),
            text_member(v, "error"@, 5),
        ) {
            (Some(id), Some(text), Some(result_subtype), Some(usage), Some(model), Some(error))
                if is_record(v, 6) && !reply_repeats(line, v) => {
                let result = match (error, text) {
                    (Some(err), _) => Err(ErrorView::Internal("claude_sdk daemon: "@ + err)),
                    (None, Some(text)) => Ok(ReplyView { text, result_subtype, usage, model }),
                    (None, None) => Err(
                        ErrorView::Parse(
                            "claude_sdk daemon: reply id="@ + decimal(id as nat)
                                + " has neither `error` nor `text`"@,
                        ),
                    ),
                };
                Some((id, result))
            },
            _ => None,
        },
    }
}

/// What a text that may be missing says.
pub open spec fn member_view(r: Option<Option<String>>) -> Option<Option<Seq<char>>> {
    match r {
        Some(x) => Some(opt_str(x)),
        None => None,
    }
}

fn read_text(v: &Json, key: &str, place: usize) -> (r: Option<Option<String>>)
    ensures
        member_view(r) == text_member(v@, key@, place as int),
{
    let null: Json = Json::Null;
    match record_at(v, key, place, &null) {
        Json::Null => Some(None),
        Json::Str(s) => Some(Some(s.clone())),
        _ => None,
    }
}

fn read_count(v: &Json, key: &str, place: usize) -> (r: Option<Option<u64>>)
    ensures
        r == count_member(v@, key@, place as int),
{
    let null: Json = Json::Null;
    let j: &Json = record_at(v, key, place, &null);
    match j {
        Json::Null => Some(None),
        _ => match j.as_u64() {
            Some(n) => Some(Some(n)),
            None => None,
        },
    }
}

fn read_counts(u: &Json) -> (r: Option<RawUsage>)
    ensures
        r == counts_read(u@),
{
    if !fits_record(u, 4) {
        return None;
    }
    match (
        read_count(u, "input_tokens", 0),
        read_count(u, "output_tokens", 1),
        read_count(u, "cache_read_input_tokens", 2),
        read_count(u, "cache_creation_input_tokens", 3),
    ) {
        (Some(a), Some(b), Some(c), Some(d)) => Some(
            RawUsage {
                input_tokens: a,
                output_tokens: b,
                cache_read_input_tokens: c,
                cache_creation_input_tokens: d,
            },
        ),
        _ => None,
    }
}

fn read_usage(v: &Json, place: usize) -> (r: Option<Option<RawUsage>>)
    ensures
        r == usage_member(v@, place as int),
{
    let null: Json = Json::Null;
    let u: &Json = record_at(v, "usage", place, &null);
    match u {
        Json::Null => Some(None),
        _ => match read_counts(u) {
            Some(x) => Some(Some(x)),
            None => None,
        },
    }
}

/// What a line from the child process says.
pub open spec fn read_view(r: Option<(u64, Result<DaemonChatReply, ProviderError>)>) -> Option<
    (u64, Result<ReplyView, ErrorView>),
> {
    match r {
        Some((id, x)) => Some((id, reply_result(x))),
        None => None,
    }
}

fn repeats_count(text: &str) -> (r: bool)
    ensures
        r == counts_repeat(text@),
{
    let ms: Vec<Member> = split_members(text);
    parse_lenient(text).is_object() && (repeats(&ms, "input_tokens") || repeats(
        &ms,
        "output_tokens",
    ) || repeats(&ms, "cache_read_input_tokens") || repeats(&ms, "cache_creation_input_tokens"))
}

fn repeats_member(line: &str, v: &Json) -> (r: bool)
    ensures
        r == reply_repeats(line@, v@),
{
    match v {
        Json::Obj(_) => {
            let ms: Vec<Member> = split_members(line);
            if repeats(&ms, "id") || repeats(&ms, "text") || repeats(&ms, "result_subtype")
                || repeats(&ms, "usage") || repeats(&ms, "model") || repeats(&ms, "error") {
                return true;
            }
            match find_named(&ms, "usage") {
                Some(m) => repeats_count(m.text.as_str()),
                None => false,
            }
        },
        Json::Arr(_) => {
            let items: Vec<String> = split_items(line);
            items.len() > 3 && repeats_count(items[3].as_str())
        },
        _ => false,
    }
}

/// Reads a line from the child process.
pub fn read_reply_line(line: &str) -> (r: Option<(u64, Result<DaemonChatReply, ProviderError>)>)
    ensures
        read_view(r) == reply_read(line@),
{
    let null: Json = Json::Null;
    let v: Json = match parse_json(line) {
        Ok(v) => v,
        Err(_) => {
            return None;
        },
    };
    if !fits_record(&v, 6) || repeats_member(line, &v) {
        return None;
    }
    let id: u64 = match record_at(&v, "id", 0, &null).as_u64() {
        Some(n) => n,
        None => {
            return None;
        },
    };
    match (
        read_text(&v, "text", 1),
        read_text(&v, "result_subtype", 2),
        read_usage(&v, 3),
        read_text(&v, "model", 4),
        read_text(&v, "error", 5),
    ) {
        (Some(text), Some(result_subtype), Some(usage), Some(model), Some(error)) => {
            let result: Result<DaemonChatReply, ProviderError> = match (error, text) {
                (Some(err), _) => {
                    let mut msg: String = "claude_sdk daemon: ".to_owned();
                    msg.append(err.as_str());
                    Err(ProviderError::Internal(msg))
                },
                (None, Some(text)) => Ok(DaemonChatReply { text, result_subtype, usage, model }),
                (None, None) => {
                    let mut msg: String = "claude_sdk daemon: reply id=".to_owned();
                    msg.append(decimal_of(id).as_str());
                    msg.append(" has neither `error` nor `text`");
                    Err(ProviderError::Parse(msg))
                },
            };
            Some((id, result))
        },
        _ => None,
    }
}

} // verus!
