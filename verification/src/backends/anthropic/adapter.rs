//! Translation to and from Anthropic's wire format.

use crate::auth::{AuthView, ResolvedAuth};
use crate::backends::anthropic::mapping::{map_stop_reason, parse_usage, stop_reason, usage_of};
use crate::http_base::{
    check_header, ellipsized, error_message, failure_message, header_text, header_views,
    headers_result, http_status_text, lowercase, no_end_slash, parse_retry_after, parse_url,
    retry_after, status_message, status_text, to_lowercase, trim_end_slashes, truncate,
    url_or_error, url_outcome, url_parse, HttpProviderExtras, SseEvent,
};
use crate::json::{
    at, items_view, jint, jstr, lemma_items, number_view, one_item, parse_json, parse_lenient,
    parse_or_null, push_item, serde_parse, str_array, str_items, Json, JsonView,
};
use crate::text::{contains_text, has_part, opt_str, same};
use crate::tool_buffer::{BufferView, ToolCallBuffer};
use crate::types::{
    emit, events, events_result, json_result, no_cache_hit, no_usage, text_result, CacheDirective,
    CacheHitInfo, ChatEvent, ChatRequest, ContentBlock, ErrorView, EventView, ImageData, Message,
    ProviderError, StopReason, ThinkingMode, ToolCall, ToolChoice, ToolSpec, Usage,
};
use vstd::prelude::*;
use vstd::string::*;

verus! {

/// The index of the block that a payload speaks of.
pub open spec fn block_index(v: JsonView) -> usize {
    v.u64_or_zero("index"@) as usize
}

/// The event that opens a message.
pub open spec fn message_started(v: JsonView) -> EventView {
    let usage = v.at("message"@).at("usage"@);
    EventView::Started {
        actual_model: v.at("message"@).str_or("model"@, ""@),
        cache_hit: CacheHitInfo {
            cached_input_tokens: usage.u64_or_zero("cache_read_input_tokens"@),
            ..no_cache_hit()
        },
    }
}

/// The events of a block that begins, and the buffer after it.
pub open spec fn block_started(v: JsonView, buf: BufferView) -> (Seq<EventView>, BufferView) {
    let index = block_index(v);
    let block = v.at("content_block"@);
    let kind = block.at("type"@).as_str();
    if kind == Some("tool_use"@) {
        let id = block.str_or("id"@, ""@);
        let name = block.str_or("name"@, ""@);
        (seq![EventView::ToolCallStart { index, id, name }], buf.on_start(index, id, name))
    } else if kind == Some("text"@) && block.str_or("text"@, ""@).len() > 0 {
        (seq![EventView::Delta { text: block.str_or("text"@, ""@) }], buf)
    } else if kind == Some("thinking"@) && block.str_or("thinking"@, ""@).len() > 0 {
        (seq![EventView::ThinkingDelta { text: block.str_or("thinking"@, ""@) }], buf)
    } else {
        (seq![], buf)
    }
}

/// The events of a piece of a block, and the buffer after it.
pub open spec fn block_grew(v: JsonView, buf: BufferView) -> (Seq<EventView>, BufferView) {
    let index = block_index(v);
    let delta = v.at("delta"@);
    let kind = delta.at("type"@).as_str();
    if kind == Some("text_delta"@) {
        match delta.at("text"@).as_str() {
            Some(text) => (seq![EventView::Delta { text }], buf),
            None => (seq![], buf),
        }
    } else if kind == Some("input_json_delta"@) {
        match delta.at("partial_json"@).as_str() {
            Some(p) => (
                seq![EventView::ToolCallArgsDelta { index, args_delta: p }],
                buf.on_delta(index, p),
            ),
            None => (seq![], buf),
        }
    } else if kind == Some("thinking_delta"@) {
        match delta.at("thinking"@).as_str() {
            Some(text) => (seq![EventView::ThinkingDelta { text }], buf),
            None => (seq![], buf),
        }
    } else {
        (seq![], buf)
    }
}

/// The events of a block that ends, and the buffer after it. A block that is no
/// tool call gives none, nor does a call whose arguments cannot be read.
pub open spec fn block_stopped(v: JsonView, buf: BufferView) -> (Seq<EventView>, BufferView) {
    let index = block_index(v);
    (
        match buf.finalized(index) {
            Ok((id, name, args)) => seq![
                EventView::ToolCallEnd { index, id, parsed_args: args },
            ],
            Err(_) => seq![],
        },
        buf.without(index),
    )
}

/// The events of a change of the message, and the buffer after it.
pub open spec fn message_changed(v: JsonView, buf: BufferView) -> (Seq<EventView>, BufferView) {
    match v.at("delta"@).at("stop_reason"@).as_str() {
        Some(s) if v.at("usage"@) is Obj => (
            seq![
                EventView::Finished {
                    stop_reason: stop_reason(s),
                    usage: usage_of(v.at("usage"@)),
                },
            ],
            BufferView { finished: true, ..buf },
        ),
        _ => (seq![], buf),
    }
}

/// The events of the end of a message, and the buffer after it: the stream is
/// ended here if nothing has ended it before.
pub open spec fn message_stopped(buf: BufferView) -> (Seq<EventView>, BufferView) {
    if buf.finished {
        (seq![], buf)
    } else {
        (
            seq![EventView::Finished { stop_reason: StopReason::Other, usage: no_usage() }],
            BufferView { finished: true, ..buf },
        )
    }
}

/// The events of a payload, and the buffer after it.
pub open spec fn payload_events(event: Seq<char>, v: JsonView, buf: BufferView) -> (
    Seq<EventView>,
    BufferView,
) {
    if event == "message_start"@ {
        (seq![message_started(v)], buf)
    } else if event == "content_block_start"@ {
        block_started(v, buf)
    } else if event == "content_block_delta"@ {
        block_grew(v, buf)
    } else if event == "content_block_stop"@ {
        block_stopped(v, buf)
    } else if event == "message_delta"@ {
        message_changed(v, buf)
    } else if event == "message_stop"@ {
        message_stopped(buf)
    } else {
        (seq![], buf)
    }
}

/// The outcome of one server-sent event, and the buffer after it.
pub open spec fn event_outcome(event: Seq<char>, data: Seq<char>, buf: BufferView) -> (
    Result<Seq<EventView>, ErrorView>,
    BufferView,
) {
    if data.len() == 0 || event == "ping"@ {
        (Ok(seq![]), buf)
    } else if event == "error"@ {
        (
            Err(
                ErrorView::Internal(
                    parse_or_null(data).at("error"@).str_or(
                        "message"@,
                        "anthropic mid-stream error"@,
                    ),
                ),
            ),
            buf,
        )
    } else {
        match serde_parse(data) {
            Err(e) => (
                Err(
                    ErrorView::Parse(
                        "anthropic sse: "@ + e + " (raw: "@ + ellipsized(data, 200) + ")"@,
                    ),
                ),
                buf,
            ),
            Ok(v) => {
                let (out, next) = payload_events(event, v, buf);
                (Ok(out), next)
            },
        }
    }
}

/// Reads a block that begins.
fn start_block(v: &Json, buf: &mut ToolCallBuffer) -> (out: Vec<ChatEvent>)
    ensures
        (events(out@), final(buf)@) == block_started(v@, old(buf)@),
{
    let null: Json = Json::Null;
    let index: usize = v.u64_or_zero("index") as usize;
    let block: &Json = at(v, "content_block", &null);
    let mut out: Vec<ChatEvent> = Vec::new();
    assert(events(out@) =~= seq![]);
    if let Some(kind) = block.str_at("type") {
        if same(kind, "tool_use") {
            let id: String = block.str_or("id", "");
            let name: String = block.str_or("name", "");
            emit(&mut out, ChatEvent::ToolCallStart { index, id: id.clone(), name: name.clone() });
            buf.on_start(index, id, name);
        } else if same(kind, "text") {
            let text: String = block.str_or("text", "");
            proof {
                reveal_strlit("");
            }
            if !text.as_str().is_empty() {
                emit(&mut out, ChatEvent::Delta { text });
            }
        } else if same(kind, "thinking") {
            let text: String = block.str_or("thinking", "");
            if !text.as_str().is_empty() {
                emit(&mut out, ChatEvent::ThinkingDelta { text });
            }
        }
    }
    out
}

/// Reads a piece of a block.
fn grow_block(v: &Json, buf: &mut ToolCallBuffer) -> (out: Vec<ChatEvent>)
    ensures
        (events(out@), final(buf)@) == block_grew(v@, old(buf)@),
{
    let null: Json = Json::Null;
    let index: usize = v.u64_or_zero("index") as usize;
    let delta: &Json = at(v, "delta", &null);
    let mut out: Vec<ChatEvent> = Vec::new();
    assert(events(out@) =~= seq![]);
    if let Some(kind) = delta.str_at("type") {
        if same(kind, "text_delta") {
            if let Some(t) = delta.str_at("text") {
                emit(&mut out, ChatEvent::Delta { text: t.to_owned() });
            }
        } else if same(kind, "input_json_delta") {
            if let Some(p) = delta.str_at("partial_json") {
                emit(&mut out, ChatEvent::ToolCallArgsDelta { index, args_delta: p.to_owned() });
                buf.on_delta(index, p);
            }
        } else if same(kind, "thinking_delta") {
            if let Some(t) = delta.str_at("thinking") {
                emit(&mut out, ChatEvent::ThinkingDelta { text: t.to_owned() });
            }
        }
    }
    out
}

/// Reads a payload whose JSON has been parsed.
pub fn parse_payload(event: &str, v: &Json, buf: &mut ToolCallBuffer) -> (out: Vec<ChatEvent>)
    ensures
        (events(out@), final(buf)@) == payload_events(event@, v@, old(buf)@),
{
    let null: Json = Json::Null;
    let mut out: Vec<ChatEvent> = Vec::new();
    assert(events(out@) =~= seq![]);
    if same(event, "message_start") {
        let message: &Json = at(v, "message", &null);
        let usage: &Json = at(message, "usage", &null);
        emit(
            &mut out,
            ChatEvent::Started {
                actual_model: message.str_or("model", ""),
                cache_hit: CacheHitInfo {
                    cached_input_tokens: usage.u64_or_zero("cache_read_input_tokens"),
                    used_explicit_handle: false,
                    replayed_from_cache: false,
                },
            },
        );
        out
    } else if same(event, "content_block_start") {
        start_block(v, buf)
    } else if same(event, "content_block_delta") {
        grow_block(v, buf)
    } else if same(event, "content_block_stop") {
        let index: usize = v.u64_or_zero("index") as usize;
        if let Ok((id, _name, args)) = buf.finalize(index) {
            emit(&mut out, ChatEvent::ToolCallEnd { index, id, parsed_args: args });
        }
        out
    } else if same(event, "message_delta") {
        let delta: &Json = at(v, "delta", &null);
        let usage: &Json = at(v, "usage", &null);
        if let Some(s) = delta.str_at("stop_reason") {
            if usage.is_object() {
                emit(
                    &mut out,
                    ChatEvent::Finished {
                        stop_reason: map_stop_reason(s),
                        usage: parse_usage(usage),
                    },
                );
                buf.mark_finished();
            }
        }
        out
    } else if same(event, "message_stop") {
        if !buf.finished_emitted() {
            emit(
                &mut out,
                ChatEvent::Finished { stop_reason: StopReason::Other, usage: Usage::default() },
            );
            buf.mark_finished();
        }
        out
    } else {
        out
    }
}

/// The name of the tool that stands for a structured reply.
pub const STRUCTURED_OUTPUT_TOOL: &'static str = "__respond_with__";

/// The output limit of a request that sets none.
pub const DEFAULT_MAX_TOKENS: u32 = 4096;

/// A block of text.
pub open spec fn text_block(s: Seq<char>) -> JsonView {
    JsonView::Obj(map!["type"@ => jstr("text"@), "text"@ => jstr(s)])
}

/// A content block on the wire.
pub open spec fn block_json(b: ContentBlock) -> JsonView {
    match b {
        ContentBlock::Text { text } => text_block(text@),
        ContentBlock::Image { mime, data } => {
            let source = match data {
                ImageData::Url(u) => JsonView::Obj(
                    map!["type"@ => jstr("url"@), "url"@ => jstr(u@)],
                ),
                ImageData::Base64(d) => JsonView::Obj(
                    map![
                        "type"@ => jstr("base64"@),
                        "media_type"@ => jstr(mime@),
                        "data"@ => jstr(d@),
                    ],
                ),
            };
            JsonView::Obj(map!["type"@ => jstr("image"@), "source"@ => source])
        },
    }
}

/// Content blocks on the wire.
pub open spec fn content_json(s: Seq<ContentBlock>) -> Seq<JsonView> {
    s.map_values(|b: ContentBlock| block_json(b))
}

/// A tool call on the wire.
pub open spec fn tool_use_json(tc: ToolCall) -> JsonView {
    JsonView::Obj(
        map![
            "type"@ => jstr("tool_use"@),
            "id"@ => jstr(tc.id@),
            "name"@ => jstr(tc.name@),
            "input"@ => tc.arguments@,
        ],
    )
}

/// Tool calls on the wire.
pub open spec fn tool_uses_json(s: Seq<ToolCall>) -> Seq<JsonView> {
    s.map_values(|tc: ToolCall| tool_use_json(tc))
}

/// A turn on the wire.
pub open spec fn turn(role: Seq<char>, content: Seq<JsonView>) -> JsonView {
    JsonView::Obj(map!["role"@ => jstr(role), "content"@ => JsonView::Arr(content)])
}

/// The result of a tool on the wire.
pub open spec fn tool_result_json(id: Seq<char>, content: Seq<ContentBlock>, failed: bool) -> JsonView {
    let result = map![
        "type"@ => jstr("tool_result"@),
        "tool_use_id"@ => jstr(id),
        "content"@ => JsonView::Arr(content_json(content)),
    ];
    JsonView::Obj(
        if failed {
            result.insert("is_error"@, JsonView::Bool(true))
        } else {
            result
        },
    )
}

/// A message on the wire. There is no role for tool results or for system text:
/// both are user turns, the latter behind a marker.
pub open spec fn message_json(m: Message) -> JsonView {
    match m {
        Message::User { content } => turn("user"@, content_json(content@)),
        Message::Assistant { content, tool_calls } => turn(
            "assistant"@,
            content_json(content@) + tool_uses_json(tool_calls@),
        ),
        Message::Tool { tool_call_id, content, is_error } => turn(
            "user"@,
            seq![tool_result_json(tool_call_id@, content@, is_error)],
        ),
        Message::System { content } => turn(
            "user"@,
            seq![text_block("[system]"@)] + content_json(content@),
        ),
    }
}

/// Messages on the wire.
pub open spec fn messages_json(s: Seq<Message>) -> Seq<JsonView> {
    s.map_values(|m: Message| message_json(m))
}

/// A tool on the wire.
pub open spec fn tool_json(name: Seq<char>, description: Seq<char>, schema: JsonView) -> JsonView {
    JsonView::Obj(
        map![
            "name"@ => jstr(name),
            "description"@ => jstr(description),
            "input_schema"@ => schema,
        ],
    )
}

/// Tools on the wire.
pub open spec fn tools_json(s: Seq<ToolSpec>) -> Seq<JsonView> {
    s.map_values(|t: ToolSpec| tool_json(t.name@, t.description@, t.input_schema.schema@))
}

/// The names of tools.
pub open spec fn tool_names(s: Seq<ToolSpec>) -> Seq<Seq<char>> {
    s.map_values(|t: ToolSpec| t.name@)
}

/// The first name that has occurred before.
pub open spec fn first_repeat(names: Seq<Seq<char>>) -> Option<Seq<char>>
    decreases names.len(),
{
    if names.len() == 0 {
        None
    } else {
        match first_repeat(names.drop_last()) {
            Some(n) => Some(n),
            None => if names.drop_last().contains(names.last()) {
                Some(names.last())
            } else {
                None
            },
        }
    }
}

/// The marker that asks for caching up to a block.
pub open spec fn cache_marker() -> JsonView {
    JsonView::Obj(map!["type"@ => jstr("ephemeral"@)])
}

/// Blocks with a cache marker on the last one.
pub open spec fn mark_last(blocks: Seq<JsonView>) -> Seq<JsonView> {
    if blocks.len() == 0 {
        blocks
    } else {
        blocks.drop_last().push(
            match blocks.last() {
                JsonView::Obj(m) => JsonView::Obj(m.insert("cache_control"@, cache_marker())),
                other => other,
            },
        )
    }
}

/// A message with a cache marker on its last block.
pub open spec fn mark_message(m: JsonView) -> JsonView {
    match m {
        JsonView::Obj(o) => match m.at("content"@) {
            JsonView::Arr(blocks) => JsonView::Obj(
                o.insert("content"@, JsonView::Arr(mark_last(blocks))),
            ),
            _ => m,
        },
        _ => m,
    }
}

/// Messages with a cache marker on the last user turn.
pub open spec fn mark_last_user(s: Seq<JsonView>) -> Seq<JsonView>
    decreases s.len(),
{
    if s.len() == 0 {
        s
    } else if s.last().at("role"@).as_str() == Some("user"@) {
        s.drop_last().push(mark_message(s.last()))
    } else {
        mark_last_user(s.drop_last()).push(s.last())
    }
}

/// Whether the caller asks for a cache marker.
pub open spec fn wants_marker(s: Seq<CacheDirective>) -> bool {
    exists|i: int| 0 <= i < s.len() && #[trigger] s[i] is MarkBoundary
}

/// The `tool_choice` of a request without structured output.
pub open spec fn choice_json(c: ToolChoice) -> JsonView {
    match c {
        ToolChoice::Auto => JsonView::Obj(map!["type"@ => jstr("auto"@)]),
        ToolChoice::NoTool => JsonView::Obj(map!["type"@ => jstr("none"@)]),
        ToolChoice::Required => JsonView::Obj(map!["type"@ => jstr("any"@)]),
        ToolChoice::Specific(name) => JsonView::Obj(
            map!["type"@ => jstr("tool"@), "name"@ => jstr(name@)],
        ),
    }
}

/// The output limit of a request.
pub open spec fn max_tokens_of(req: ChatRequest) -> u32 {
    match req.max_output_tokens {
        Some(n) => n,
        None => DEFAULT_MAX_TOKENS,
    }
}

/// Why a request cannot be sent, where it cannot.
pub open spec fn request_problem(req: ChatRequest) -> Option<ErrorView> {
    let names = tool_names(req.tools@);
    if req.model.explicit_view() is None {
        Some(ErrorView::InvalidRequest("model must be explicit"@))
    } else if req.messages@.len() == 0 {
        Some(
            ErrorView::InvalidRequest(
                "anthropic: messages array must contain at least one message"@,
            ),
        )
    } else if first_repeat(names) is Some {
        Some(
            ErrorView::InvalidRequest(
                "anthropic: duplicate tool name `"@ + first_repeat(names)->0 + "` in request"@,
            ),
        )
    } else if req.structured_output is Some && names.contains(STRUCTURED_OUTPUT_TOOL@) {
        Some(
            ErrorView::InvalidRequest(
                "anthropic: tool name `"@ + STRUCTURED_OUTPUT_TOOL@
                    + "` is reserved for structured-output emulation"@,
            ),
        )
    } else if max_tokens_of(req) == 0 {
        Some(ErrorView::InvalidRequest("anthropic: max_output_tokens must be > 0"@))
    } else {
        match req.tool_choice {
            ToolChoice::Specific(name) if req.structured_output is None && names.len() > 0
                && !names.contains(name@) => Some(
                ErrorView::InvalidRequest(
                    "anthropic: tool_choice references unknown tool `"@ + name@ + "`"@,
                ),
            ),
            _ => None,
        }
    }
}

/// The tools of a request, with the one that stands for a structured reply.
pub open spec fn request_tools(req: ChatRequest) -> Seq<JsonView> {
    match req.structured_output {
        Some(schema) => tools_json(req.tools@).push(
            tool_json(
                STRUCTURED_OUTPUT_TOOL@,
                "Return the response strictly conforming to the schema."@,
                schema.schema@,
            ),
        ),
        None => tools_json(req.tools@),
    }
}

/// Thinking with a budget.
pub open spec fn thinking_json(budget: u32) -> JsonView {
    JsonView::Obj(map!["type"@ => jstr("enabled"@), "budget_tokens"@ => jint(budget as int)])
}

/// The body of a request that can be sent.
pub open spec fn request_body(req: ChatRequest) -> JsonView {
    let mark = wants_marker(req.cache_directives@);
    let messages = messages_json(req.messages@);
    let b0 = map![
        "model"@ => jstr(req.model.explicit_view()->0),
        "messages"@ => JsonView::Arr(if mark { mark_last_user(messages) } else { messages }),
        "max_tokens"@ => jint(max_tokens_of(req) as int),
        "stream"@ => JsonView::Bool(true),
    ];
    let b1 = match req.system {
        Some(s) => {
            let blocks = seq![text_block(s@)];
            b0.insert("system"@, JsonView::Arr(if mark { mark_last(blocks) } else { blocks }))
        },
        None => b0,
    };
    let b2 = match req.temperature {
        Some(t) => b1.insert("temperature"@, JsonView::Num(number_view(t))),
        None => b1,
    };
    let b3 = if req.stop_sequences@.len() > 0 {
        b2.insert("stop_sequences"@, JsonView::Arr(str_items(req.stop_sequences@)))
    } else {
        b2
    };
    let b4 = if req.structured_output is Some {
        b3.insert(
            "tool_choice"@,
            JsonView::Obj(map!["type"@ => jstr("tool"@), "name"@ => jstr(STRUCTURED_OUTPUT_TOOL@)]),
        )
    } else if req.tools@.len() > 0 {
        b3.insert("tool_choice"@, choice_json(req.tool_choice))
    } else {
        b3
    };
    let b5 = if request_tools(req).len() > 0 {
        b4.insert("tools"@, JsonView::Arr(request_tools(req)))
    } else {
        b4
    };
    let b6 = match req.thinking {
        ThinkingMode::Off => b5,
        ThinkingMode::Auto => b5.insert("thinking"@, thinking_json(4096)),
        ThinkingMode::Budget(n) => b5.insert("thinking"@, thinking_json(n)),
    };
    JsonView::Obj(b6)
}

/// The body of a request, or why there is none.
pub open spec fn translated(req: ChatRequest) -> Result<JsonView, ErrorView> {
    match request_problem(req) {
        Some(e) => Err(e),
        None => Ok(request_body(req)),
    }
}

/// Writes a content block.
pub fn translate_block(b: &ContentBlock) -> (r: Json)
    ensures
        r@ == block_json(*b),
{
    match b {
        ContentBlock::Text { text } => Json::object().with("type", Json::text("text")).with(
            "text",
            Json::Str(text.clone()),
        ),
        ContentBlock::Image { mime, data } => {
            let source: Json = match data {
                ImageData::Url(u) => Json::object().with("type", Json::text("url")).with(
                    "url",
                    Json::Str(u.clone()),
                ),
                ImageData::Base64(d) => Json::object().with("type", Json::text("base64")).with(
                    "media_type",
                    Json::Str(mime.clone()),
                ).with("data", Json::Str(d.clone())),
            };
            Json::object().with("type", Json::text("image")).with("source", source)
        },
    }
}

/// Writes content blocks behind those that are there.
fn append_content(out: &mut Vec<Json>, blocks: &Vec<ContentBlock>)
    ensures
        items_view(final(out)@) == items_view(old(out)@) + content_json(blocks@),
{
    let ghost before = items_view(out@);
    let mut i: usize = 0;
    assert(before + content_json(blocks@).take(0) =~= before);
    while i < blocks.len()
        invariant
            i <= blocks@.len(),
            items_view(out@) == before + content_json(blocks@).take(i as int),
        decreases blocks@.len() - i,
    {
        push_item(out, translate_block(&blocks[i]));
        assert((before + content_json(blocks@).take(i as int)).push(block_json(blocks@[i as int]))
            =~= before + content_json(blocks@).take(i + 1));
        i += 1;
    }
    assert(content_json(blocks@).take(blocks@.len() as int) =~= content_json(blocks@));
}

/// Writes content blocks.
pub fn translate_content(blocks: &Vec<ContentBlock>) -> (r: Vec<Json>)
    ensures
        items_view(r@) == content_json(blocks@),
{
    let mut out: Vec<Json> = Vec::new();
    append_content(&mut out, blocks);
    assert(items_view(out@) =~= content_json(blocks@));
    out
}

/// Writes a message.
pub fn translate_message(m: &Message) -> (r: Json)
    ensures
        r@ == message_json(*m),
{
    match m {
        Message::User { content } => Json::object().with("role", Json::text("user")).with(
            "content",
            Json::Arr(translate_content(content)),
        ),
        Message::Assistant { content, tool_calls } => {
            let mut blocks: Vec<Json> = translate_content(content);
            let ghost before = content_json(content@);
            let mut i: usize = 0;
            assert(before + tool_uses_json(tool_calls@).take(0) =~= before);
            while i < tool_calls.len()
                invariant
                    i <= tool_calls@.len(),
                    items_view(blocks@) == before + tool_uses_json(tool_calls@).take(i as int),
                decreases tool_calls@.len() - i,
            {
                let tc: &ToolCall = &tool_calls[i];
                push_item(
                    &mut blocks,
                    Json::object().with("type", Json::text("tool_use")).with(
                        "id",
                        Json::Str(tc.id.clone()),
                    ).with("name", Json::Str(tc.name.clone())).with("input", tc.arguments.clone()),
                );
                assert((before + tool_uses_json(tool_calls@).take(i as int)).push(
                    tool_use_json(tool_calls@[i as int]),
                ) =~= before + tool_uses_json(tool_calls@).take(i + 1));
                i += 1;
            }
            assert(tool_uses_json(tool_calls@).take(tool_calls@.len() as int) =~= tool_uses_json(
                tool_calls@,
            ));
            Json::object().with("role", Json::text("assistant")).with("content", Json::Arr(blocks))
        },
        Message::Tool { tool_call_id, content, is_error } => {
            let mut result: Json = Json::object().with("type", Json::text("tool_result")).with(
                "tool_use_id",
                Json::Str(tool_call_id.clone()),
            ).with("content", Json::Arr(translate_content(content)));
            if *is_error {
                result.set("is_error", Json::Bool(true));
            }
            Json::object().with("role", Json::text("user")).with("content", one_item(result))
        },
        Message::System { content } => {
            let mut blocks: Vec<Json> = Vec::new();
            assert(items_view(blocks@) =~= seq![]);
            push_item(
                &mut blocks,
                Json::object().with("type", Json::text("text")).with(
                    "text",
                    Json::text("[system]"),
                ),
            );
            assert(items_view(blocks@) =~= seq![text_block("[system]"@)]);
            append_content(&mut blocks, content);
            Json::object().with("role", Json::text("user")).with("content", Json::Arr(blocks))
        },
    }
}

/// Puts a cache marker on the last block.
fn mark_last_block(blocks: &mut Vec<Json>)
    ensures
        items_view(final(blocks)@) == mark_last(items_view(old(blocks)@)),
{
    let ghost before = blocks@;
    proof {
        lemma_items(before);
    }
    match blocks.pop() {
        None => {
            assert(blocks@ =~= before);
        },
        Some(block) => {
            let mut last: Json = block;
            last.set("cache_control", Json::object().with("type", Json::text("ephemeral")));
            proof {
                lemma_items(blocks@);
                assert(items_view(blocks@) =~= items_view(before).drop_last());
            }
            push_item(blocks, last);
        },
    }
}

/// Puts a cache marker on the last block of a message.
fn mark_message_block(m: Json) -> (r: Json)
    ensures
        r@ == mark_message(m@),
{
    let content: Option<Vec<Json>> = match m.get("content") {
        Some(Json::Arr(blocks)) => {
            let mut copy: Vec<Json> = Vec::new();
            let mut i: usize = 0;
            assert(items_view(copy@) =~= items_view(blocks@).take(0));
            while i < blocks.len()
                invariant
                    i <= blocks@.len(),
                    items_view(copy@) == items_view(blocks@).take(i as int),
                decreases blocks@.len() - i,
            {
                push_item(&mut copy, blocks[i].clone());
                proof {
                    lemma_items(blocks@);
                    assert(items_view(blocks@).take(i + 1) =~= items_view(blocks@).take(
                        i as int,
                    ).push(blocks@[i as int]@));
                }
                i += 1;
            }
            proof {
                lemma_items(blocks@);
                assert(items_view(blocks@).take(blocks@.len() as int) =~= items_view(blocks@));
            }
            Some(copy)
        },
        _ => None,
    };
    let mut whole: Json = m;
    if let Some(blocks) = content {
        let mut marked: Vec<Json> = blocks;
        mark_last_block(&mut marked);
        whole.set("content", Json::Arr(marked));
    }
    whole
}

/// Puts a cache marker on the last user turn.
fn mark_last_user_turn(messages: &mut Vec<Json>)
    ensures
        items_view(final(messages)@) == mark_last_user(items_view(old(messages)@)),
{
    let ghost all = messages@;
    let ghost whole = items_view(all);
    let n: usize = messages.len();
    let mut k: usize = n;
    proof {
        lemma_items(all);
        assert(whole.take(n as int) =~= whole);
        assert(mark_last_user(whole) + whole.skip(n as int) =~= mark_last_user(whole));
    }
    while k > 0
        invariant
            k <= n == all.len(),
            whole == items_view(all),
            whole.len() == n,
            messages@ == all,
            all == old(messages)@,
            mark_last_user(whole.take(k as int)) + whole.skip(k as int) == mark_last_user(whole),
        decreases k,
    {
        proof {
            lemma_items(all);
        }
        k -= 1;
        let ghost front = whole.take(k + 1);
        assert(front.drop_last() =~= whole.take(k as int));
        assert(front.last() == all[k as int]@);
        let is_user: bool = match messages[k].str_at("role") {
            Some(role) => same(role, "user"),
            None => false,
        };
        if is_user {
            let m: Json = messages.remove(k);
            let marked: Json = mark_message_block(m);
            messages.insert(k, marked);
            proof {
                lemma_items(messages@);
                assert(items_view(messages@) =~= whole.take(k as int).push(mark_message(whole[k as int]))
                    + whole.skip(k + 1));
            }
            return ;
        }
        assert(mark_last_user(whole.take(k as int)).push(whole[k as int]) + whole.skip(k + 1)
            =~= mark_last_user(whole.take(k as int)) + whole.skip(k as int));
    }
    assert(mark_last_user(whole.take(0)) + whole.skip(0) =~= whole);
}

/// Puts cache markers where the caller asks for them: on the last block of the
/// system prompt and on the last block of the last user turn.
fn apply_cache_directives(
    system: &mut Vec<Json>,
    messages: &mut Vec<Json>,
    directives: &Vec<CacheDirective>,
)
    ensures
        items_view(final(system)@) == (if wants_marker(directives@) {
            mark_last(items_view(old(system)@))
        } else {
            items_view(old(system)@)
        }),
        items_view(final(messages)@) == (if wants_marker(directives@) {
            mark_last_user(items_view(old(messages)@))
        } else {
            items_view(old(messages)@)
        }),
{
    let mut wanted: bool = false;
    let mut i: usize = 0;
    while i < directives.len()
        invariant
            i <= directives@.len(),
            wanted == (exists|j: int| 0 <= j < i && #[trigger] directives@[j] is MarkBoundary),
        decreases directives@.len() - i,
    {
        if let CacheDirective::MarkBoundary { .. } = &directives[i] {
            assert(directives@[i as int] is MarkBoundary);
            wanted = true;
        }
        i += 1;
    }
    if !wanted {
        return ;
    }
    mark_last_block(system);
    mark_last_user_turn(messages);
}

/// Looks for the first tool name that has occurred before.
fn find_repeat(tools: &Vec<ToolSpec>) -> (r: Option<String>)
    ensures
        opt_str(r) == first_repeat(tool_names(tools@)),
{
    let ghost names = tool_names(tools@);
    let mut i: usize = 0;
    assert(names.take(0) =~= seq![]);
    while i < tools.len()
        invariant
            i <= tools@.len(),
            names == tool_names(tools@),
            first_repeat(names.take(i as int)) is None,
        decreases tools@.len() - i,
    {
        let ghost front = names.take(i + 1);
        assert(front.drop_last() =~= names.take(i as int));
        let mut j: usize = 0;
        while j < i
            invariant
                j <= i < tools@.len(),
                names == tool_names(tools@),
                front == names.take(i + 1),
                front.drop_last() == names.take(i as int),
                first_repeat(names.take(i as int)) is None,
                forall|k: int| 0 <= k < j ==> #[trigger] names[k] != names[i as int],
            decreases i - j,
        {
            if same(tools[j].name.as_str(), tools[i].name.as_str()) {
                proof {
                    assert(names.take(i as int)[j as int] == names[i as int]);
                    lemma_repeat_stays(names, i + 1);
                }
                return Some(tools[i].name.clone());
            }
            j += 1;
        }
        assert(!names.take(i as int).contains(names[i as int])) by {
            if names.take(i as int).contains(names[i as int]) {
                let k = choose|k: int| 0 <= k < i && names.take(i as int)[k] == names[i as int];
                assert(names[k] == names[i as int]);
            }
        }
        i += 1;
    }
    assert(names.take(names.len() as int) =~= names);
    None
}

/// The first repeated name of a prefix is that of the whole.
proof fn lemma_repeat_stays(names: Seq<Seq<char>>, k: int)
    requires
        0 <= k <= names.len(),
        first_repeat(names.take(k)) is Some,
    ensures
        first_repeat(names) == first_repeat(names.take(k)),
    decreases names.len() - k,
{
    if k < names.len() {
        assert(names.take(k + 1).drop_last() =~= names.take(k));
        lemma_repeat_stays(names, k + 1);
    } else {
        assert(names.take(k) =~= names);
    }
}

/// Whether a tool has this name.
fn has_tool(tools: &Vec<ToolSpec>, name: &str) -> (r: bool)
    ensures
        r == tool_names(tools@).contains(name@),
{
    let mut i: usize = 0;
    while i < tools.len()
        invariant
            i <= tools@.len(),
            forall|k: int| 0 <= k < i ==> #[trigger] tool_names(tools@)[k] != name@,
        decreases tools@.len() - i,
    {
        if same(tools[i].name.as_str(), name) {
            assert(tool_names(tools@)[i as int] == name@);
            return true;
        }
        i += 1;
    }
    false
}

/// Writes a tool.
fn translate_tool(name: &str, description: &str, schema: &Json) -> (r: Json)
    ensures
        r@ == tool_json(name@, description@, schema@),
{
    Json::object().with("name", Json::text(name)).with("description", Json::text(description)).with(
        "input_schema",
        schema.clone(),
    )
}

/// Writes the tools of a request.
fn translate_tools(req: &ChatRequest) -> (r: Vec<Json>)
    ensures
        items_view(r@) == request_tools(*req),
{
    let tools: &Vec<ToolSpec> = &req.tools;
    let mut out: Vec<Json> = Vec::new();
    let mut i: usize = 0;
    assert(items_view(out@) =~= tools_json(tools@).take(0));
    while i < tools.len()
        invariant
            i <= tools@.len(),
            items_view(out@) == tools_json(tools@).take(i as int),
        decreases tools@.len() - i,
    {
        let t: &ToolSpec = &tools[i];
        push_item(
            &mut out,
            translate_tool(t.name.as_str(), t.description.as_str(), &t.input_schema.schema),
        );
        assert(tools_json(tools@).take(i + 1) =~= tools_json(tools@).take(i as int).push(
            tools_json(tools@)[i as int],
        ));
        i += 1;
    }
    assert(tools_json(tools@).take(tools@.len() as int) =~= tools_json(tools@));
    if let Some(schema) = &req.structured_output {
        push_item(
            &mut out,
            translate_tool(
                STRUCTURED_OUTPUT_TOOL,
                "Return the response strictly conforming to the schema.",
                &schema.schema,
            ),
        );
    }
    out
}

/// Looks for a reason why a request cannot be sent.
fn find_problem(req: &ChatRequest) -> (r: Option<ProviderError>)
    ensures
        match r {
            Some(e) => request_problem(*req) == Some(e@),
            None => request_problem(*req) is None,
        },
{
    if req.model.explicit().is_none() {
        return Some(ProviderError::InvalidRequest("model must be explicit".to_owned()));
    }
    if req.messages.len() == 0 {
        return Some(
            ProviderError::InvalidRequest(
                "anthropic: messages array must contain at least one message".to_owned(),
            ),
        );
    }
    if let Some(name) = find_repeat(&req.tools) {
        let mut msg: String = "anthropic: duplicate tool name `".to_owned();
        msg.append(name.as_str());
        msg.append("` in request");
        return Some(ProviderError::InvalidRequest(msg));
    }
    if req.structured_output.is_some() && has_tool(&req.tools, STRUCTURED_OUTPUT_TOOL) {
        let mut msg: String = "anthropic: tool name `".to_owned();
        msg.append(STRUCTURED_OUTPUT_TOOL);
        msg.append("` is reserved for structured-output emulation");
        return Some(ProviderError::InvalidRequest(msg));
    }
    let max_tokens: u32 = match req.max_output_tokens {
        Some(n) => n,
        None => DEFAULT_MAX_TOKENS,
    };
    if max_tokens == 0 {
        return Some(
            ProviderError::InvalidRequest("anthropic: max_output_tokens must be > 0".to_owned()),
        );
    }
    if let ToolChoice::Specific(name) = &req.tool_choice {
        if req.structured_output.is_none() && req.tools.len() > 0 && !has_tool(
            &req.tools,
            name.as_str(),
        ) {
            let mut msg: String = "anthropic: tool_choice references unknown tool `".to_owned();
            msg.append(name.as_str());
            msg.append("`");
            return Some(ProviderError::InvalidRequest(msg));
        }
    }
    None
}

/// Writes a tool choice.
fn translate_choice(c: &ToolChoice) -> (r: Json)
    ensures
        r@ == choice_json(*c),
{
    match c {
        ToolChoice::Auto => Json::object().with("type", Json::text("auto")),
        ToolChoice::NoTool => Json::object().with("type", Json::text("none")),
        ToolChoice::Required => Json::object().with("type", Json::text("any")),
        ToolChoice::Specific(name) => Json::object().with("type", Json::text("tool")).with(
            "name",
            Json::Str(name.clone()),
        ),
    }
}

/// Writes thinking with a budget.
fn translate_thinking(budget: u32) -> (r: Json)
    ensures
        r@ == thinking_json(budget),
{
    Json::object().with("type", Json::text("enabled")).with(
        "budget_tokens",
        Json::Uint(budget as u64),
    )
}

/// The headers of a request, or why there are none.
pub open spec fn request_headers(version: Seq<char>, auth: AuthView) -> Result<
    Seq<(Seq<char>, Seq<char>)>,
    ErrorView,
> {
    if !header_text(version) {
        Err(ErrorView::Internal("bad version header: "@ + "failed to parse header value"@))
    } else {
        match auth {
            AuthView::Absent => Err(
                ErrorView::Auth("Anthropic requires an x-api-key; got Auth::None"@),
            ),
            AuthView::ApiKey(k) | AuthView::Bearer(k) => if !header_text(k) {
                Err(ErrorView::Auth("malformed x-api-key value: "@ + "failed to parse header value"@))
            } else {
                Ok(
                    seq![
                        ("content-type"@, "application/json"@),
                        ("anthropic-version"@, version),
                        ("x-api-key"@, k),
                    ],
                )
            },
        }
    }
}

/// What a failed HTTP exchange means, from the status, the delay that the server
/// asks for, its message, the message in lower case and the status written out.
pub open spec fn failure(
    status: u16,
    retry: Option<u64>,
    message: Seq<char>,
    lower: Seq<char>,
    line: Seq<char>,
) -> ErrorView {
    if status == 401 || status == 403 {
        ErrorView::Auth(message)
    } else if status == 429 {
        ErrorView::RateLimited { retry_after_ms: retry }
    } else if status == 503 || status == 504 {
        ErrorView::ModelOverloaded
    } else if status == 400 {
        if has_part(lower, "max_tokens"@) || has_part(lower, "context"@) {
            ErrorView::ContextTooLong { limit: 0, requested: 0 }
        } else {
            ErrorView::InvalidRequest(message)
        }
    } else if 500 <= status < 600 {
        ErrorView::Internal("status "@ + line + ": "@ + message)
    } else {
        ErrorView::InvalidRequest("status "@ + line + ": "@ + message)
    }
}

/// Classifies a failed HTTP exchange.
pub fn classify(
    status: u16,
    retry: Option<u64>,
    message: String,
    lower: &str,
    line: &str,
) -> (r: ProviderError)
    ensures
        r@ == failure(status, retry, message@, lower@, line@),
{
    if status == 401 || status == 403 {
        ProviderError::Auth(message)
    } else if status == 429 {
        ProviderError::RateLimited { retry_after_ms: retry }
    } else if status == 503 || status == 504 {
        ProviderError::ModelOverloaded
    } else if status == 400 {
        if contains_text(lower, "max_tokens") || contains_text(lower, "context") {
            ProviderError::ContextTooLong { limit: 0, requested: 0 }
        } else {
            ProviderError::InvalidRequest(message)
        }
    } else {
        let text: String = status_message(line, message.as_str());
        if 500 <= status && status < 600 {
            ProviderError::Internal(text)
        } else {
            ProviderError::InvalidRequest(text)
        }
    }
}

/// The adapter for Anthropic's messages API.
pub struct AnthropicAdapter {
    pub base_url: String,
    pub api_version: String,
    pub extras: HttpProviderExtras,
}

impl AnthropicAdapter {
    /// An adapter for this server.
    pub fn new(base_url: String, api_version: String, extras: HttpProviderExtras) -> (r: Self)
        ensures
            r == (AnthropicAdapter { base_url, api_version, extras }),
    {
        AnthropicAdapter { base_url, api_version, extras }
    }

    /// The text of the messages URL.
    pub fn messages_url_text(&self) -> (r: String)
        ensures
            r@ == no_end_slash(self.base_url@) + "/v1/messages"@,
    {
        let mut url: String = trim_end_slashes(self.base_url.as_str());
        url.append("/v1/messages");
        url
    }

    /// The text of a batch URL: `""` is the collection, `"/<id>"` one job.
    pub fn batch_url_text(&self, suffix: &str) -> (r: String)
        ensures
            r@ == no_end_slash(self.base_url@) + "/v1/messages/batches"@ + suffix@,
    {
        let mut url: String = trim_end_slashes(self.base_url.as_str());
        url.append("/v1/messages/batches");
        url.append(suffix);
        url
    }

    /// The messages URL. It is the same for every model.
    pub fn build_url(&self, _model: &str) -> (r: Result<String, ProviderError>)
        ensures
            text_result(r) == url_outcome(
                url_parse(no_end_slash(self.base_url@) + "/v1/messages"@),
                "bad anthropic base_url: "@,
            ),
    {
        url_or_error(parse_url(self.messages_url_text().as_str()), "bad anthropic base_url: ")
    }

    /// A batch URL.
    pub fn batch_url(&self, suffix: &str) -> (r: Result<String, ProviderError>)
        ensures
            text_result(r) == url_outcome(
                url_parse(no_end_slash(self.base_url@) + "/v1/messages/batches"@ + suffix@),
                "bad anthropic batch url: "@,
            ),
    {
        url_or_error(parse_url(self.batch_url_text(suffix).as_str()), "bad anthropic batch url: ")
    }

    /// The headers of a request: the API version and the key. A bearer token is
    /// sent as a key.
    pub fn build_headers(&self, auth: &ResolvedAuth) -> (r: Result<
        Vec<(String, String)>,
        ProviderError,
    >)
        ensures
            headers_result(r) == request_headers(self.api_version@, auth@),
    {
        if let Err(e) = check_header(self.api_version.as_str()) {
            let mut msg: String = "bad version header: ".to_owned();
            msg.append(e.as_str());
            return Err(ProviderError::Internal(msg));
        }
        let key: &String = match auth {
            ResolvedAuth::ApiKey(k) => k,
            ResolvedAuth::Bearer(k) => k,
            ResolvedAuth::Absent => {
                return Err(
                    ProviderError::Auth(
                        "Anthropic requires an x-api-key; got Auth::None".to_owned(),
                    ),
                );
            },
        };
        if let Err(e) = check_header(key.as_str()) {
            let mut msg: String = "malformed x-api-key value: ".to_owned();
            msg.append(e.as_str());
            return Err(ProviderError::Auth(msg));
        }
        let mut h: Vec<(String, String)> = Vec::new();
        h.push(("content-type".to_owned(), "application/json".to_owned()));
        h.push(("anthropic-version".to_owned(), self.api_version.clone()));
        h.push(("x-api-key".to_owned(), key.clone()));
        assert(header_views(h@) =~= seq![
            ("content-type"@, "application/json"@),
            ("anthropic-version"@, self.api_version@),
            ("x-api-key"@, key@),
        ]);
        Ok(h)
    }

    /// What a failed HTTP exchange means.
    pub fn classify_error(&self, status: u16, headers: &Vec<(String, String)>, body: &str) -> (r:
        ProviderError)
        requires
            100 <= status <= 999,
        ensures
            r@ == failure(
                status,
                retry_after(headers@),
                failure_message(body@),
                lowercase(failure_message(body@)),
                http_status_text(status),
            ),
    {
        let message: String = error_message(body);
        let lower: String = to_lowercase(message.as_str());
        let line: String = status_text(status);
        classify(status, parse_retry_after(headers), message, lower.as_str(), line.as_str())
    }

    /// The headers that the deployment adds.
    pub fn extras(&self) -> (r: &HttpProviderExtras)
        ensures
            *r == self.extras,
    {
        &self.extras
    }

    /// Writes the body of a request.
    pub fn translate_request(&self, req: &ChatRequest) -> (r: Result<Json, ProviderError>)
        ensures
            json_result(r) == translated(*req),
    {
        if let Some(e) = find_problem(req) {
            return Err(e);
        }
        let model: &str = match req.model.explicit() {
            Some(m) => m,
            None => "",
        };
        let mut messages: Vec<Json> = Vec::new();
        let mut i: usize = 0;
        assert(items_view(messages@) =~= messages_json(req.messages@).take(0));
        while i < req.messages.len()
            invariant
                i <= req.messages@.len(),
                items_view(messages@) == messages_json(req.messages@).take(i as int),
            decreases req.messages@.len() - i,
        {
            push_item(&mut messages, translate_message(&req.messages[i]));
            assert(messages_json(req.messages@).take(i + 1) =~= messages_json(req.messages@).take(
                i as int,
            ).push(messages_json(req.messages@)[i as int]));
            i += 1;
        }
        assert(messages_json(req.messages@).take(req.messages@.len() as int) =~= messages_json(
            req.messages@,
        ));
        let mut system: Vec<Json> = Vec::new();
        if let Some(s) = &req.system {
            assert(items_view(system@) =~= seq![]);
            push_item(
                &mut system,
                Json::object().with("type", Json::text("text")).with("text", Json::Str(s.clone())),
            );
            assert(items_view(system@) =~= seq![text_block(s@)]);
        }
        apply_cache_directives(&mut system, &mut messages, &req.cache_directives);
        let max_tokens: u32 = match req.max_output_tokens {
            Some(n) => n,
            None => DEFAULT_MAX_TOKENS,
        };
        let mut body: Json = Json::object().with("model", Json::text(model)).with(
            "messages",
            Json::Arr(messages),
        ).with("max_tokens", Json::Uint(max_tokens as u64)).with("stream", Json::Bool(true));
        if req.system.is_some() {
            body.set("system", Json::Arr(system));
        }
        if let Some(t) = &req.temperature {
            body.set("temperature", Json::Num(t.clone()));
        }
        if req.stop_sequences.len() > 0 {
            body.set("stop_sequences", str_array(&req.stop_sequences));
        }
        if req.structured_output.is_some() {
            body.set(
                "tool_choice",
                Json::object().with("type", Json::text("tool")).with(
                    "name",
                    Json::text(STRUCTURED_OUTPUT_TOOL),
                ),
            );
        } else if req.tools.len() > 0 {
            body.set("tool_choice", translate_choice(&req.tool_choice));
        }
        let tools: Vec<Json> = translate_tools(req);
        proof {
            lemma_items(tools@);
        }
        if tools.len() > 0 {
            body.set("tools", Json::Arr(tools));
        }
        match req.thinking {
            ThinkingMode::Off => {},
            ThinkingMode::Auto => {
                body.set("thinking", translate_thinking(4096));
            },
            ThinkingMode::Budget(n) => {
                body.set("thinking", translate_thinking(n));
            },
        }
        Ok(body)
    }

    /// Reads one server-sent event.
    pub fn parse_event(&self, raw: &SseEvent, buf: &mut ToolCallBuffer) -> (r: Result<
        Vec<ChatEvent>,
        ProviderError,
    >)
        ensures
            (events_result(r), final(buf)@) == event_outcome(raw.event@, raw.data@, old(buf)@),
    {
        if raw.data.as_str().is_empty() || same(raw.event.as_str(), "ping") {
            let out: Vec<ChatEvent> = Vec::new();
            assert(events(out@) =~= seq![]);
            return Ok(out);
        }
        if same(raw.event.as_str(), "error") {
            let null: Json = Json::Null;
            let v: Json = parse_lenient(raw.data.as_str());
            let msg: String = at(&v, "error", &null).str_or(
                "message",
                "anthropic mid-stream error",
            );
            return Err(ProviderError::Internal(msg));
        }
        match parse_json(raw.data.as_str()) {
            Err(e) => {
                let mut msg: String = "anthropic sse: ".to_owned();
                msg.append(e.as_str());
                msg.append(" (raw: ");
                msg.append(truncate(raw.data.as_str(), 200).as_str());
                msg.append(")");
                Err(ProviderError::Parse(msg))
            },
            Ok(v) => Ok(parse_payload(raw.event.as_str(), &v, buf)),
        }
    }
}

} // verus!
