//! No two requests that differ have the same text.

use crate::backends::cassette::fingerprint::{law_other_texts_unchanged, NEEDLE};
use crate::backends::cassette::request::{
    block_value, blocks_value, call_value, calls_value, canon, choice_value, directive_value,
    hint_value, message_value, plain_text, request_value, schema_value, thinking_value, tool_value,
};
use crate::json::{number_view, serde_parse, serde_print, str_items, JsonView};
use crate::terms::{field, list};
use crate::text::part_at;
use crate::types::{
    CacheDirective, ChatRequest, ContentBlock, ImageData, JsonSchema, Message, ModelHint, ToolCall,
    ToolChoice, ToolSpec,
};
use vstd::prelude::*;
use vstd::string::*;

verus! {

/// Whether two texts that may be missing are the same.
pub open spec fn same_text(a: Option<String>, b: Option<String>) -> bool {
    match (a, b) {
        (Some(x), Some(y)) => x@ == y@,
        (None, None) => true,
        _ => false,
    }
}

/// Whether two blocks are the same.
pub open spec fn same_block(a: ContentBlock, b: ContentBlock) -> bool {
    match (a, b) {
        (ContentBlock::Text { text: x }, ContentBlock::Text { text: y }) => x@ == y@,
        (
            ContentBlock::Image { mime: m, data: x },
            ContentBlock::Image { mime: n, data: y },
        ) => m@ == n@ && match (x, y) {
            (ImageData::Url(u), ImageData::Url(w)) => u@ == w@,
            (ImageData::Base64(u), ImageData::Base64(w)) => u@ == w@,
            _ => false,
        },
        _ => false,
    }
}

/// Whether the blocks of two turns are the same, one for one.
pub open spec fn same_blocks(a: Seq<ContentBlock>, b: Seq<ContentBlock>) -> bool {
    a.len() == b.len() && forall|i: int| 0 <= i < a.len() ==> same_block(#[trigger] a[i], b[i])
}

/// Whether two tool calls are the same.
pub open spec fn same_call(a: ToolCall, b: ToolCall) -> bool {
    a.id@ == b.id@ && a.name@ == b.name@ && a.arguments@ == b.arguments@
}

/// Whether the tool calls of two turns are the same, one for one.
pub open spec fn same_calls(a: Seq<ToolCall>, b: Seq<ToolCall>) -> bool {
    a.len() == b.len() && forall|i: int| 0 <= i < a.len() ==> same_call(#[trigger] a[i], b[i])
}

/// Whether two turns are the same.
pub open spec fn same_message(a: Message, b: Message) -> bool {
    match (a, b) {
        (Message::User { content: x }, Message::User { content: y }) => same_blocks(x@, y@),
        (Message::System { content: x }, Message::System { content: y }) => same_blocks(x@, y@),
        (
            Message::Assistant { content: x, tool_calls: p },
            Message::Assistant { content: y, tool_calls: q },
        ) => same_blocks(x@, y@) && same_calls(p@, q@),
        (
            Message::Tool { tool_call_id: i, content: x, is_error: e },
            Message::Tool { tool_call_id: j, content: y, is_error: f },
        ) => i@ == j@ && same_blocks(x@, y@) && e == f,
        _ => false,
    }
}

/// Whether two schemas are the same.
pub open spec fn same_schema(a: JsonSchema, b: JsonSchema) -> bool {
    same_text(a.name, b.name) && a.schema@ == b.schema@ && a.strict == b.strict
}

/// Whether two tools are the same.
pub open spec fn same_tool(a: ToolSpec, b: ToolSpec) -> bool {
    a.name@ == b.name@ && a.description@ == b.description@ && same_schema(
        a.input_schema,
        b.input_schema,
    )
}

/// Whether two choices of a tool are the same.
pub open spec fn same_choice(a: ToolChoice, b: ToolChoice) -> bool {
    match (a, b) {
        (ToolChoice::Auto, ToolChoice::Auto) => true,
        (ToolChoice::NoTool, ToolChoice::NoTool) => true,
        (ToolChoice::Required, ToolChoice::Required) => true,
        (ToolChoice::Specific(x), ToolChoice::Specific(y)) => x@ == y@,
        _ => false,
    }
}

/// Whether two directives are the same.
pub open spec fn same_directive(a: CacheDirective, b: CacheDirective) -> bool {
    match (a, b) {
        (
            CacheDirective::MarkBoundary { ttl_ms: x },
            CacheDirective::MarkBoundary { ttl_ms: y },
        ) => x == y,
        (
            CacheDirective::UseExplicit { handle: x },
            CacheDirective::UseExplicit { handle: y },
        ) => x.external_id@ == y.external_id@,
        _ => false,
    }
}

/// Whether two models are the same.
pub open spec fn same_model(a: ModelHint, b: ModelHint) -> bool {
    match (a, b) {
        (ModelHint::Explicit(x), ModelHint::Explicit(y)) => x@ == y@,
        (ModelHint::Tier(x), ModelHint::Tier(y)) => x@ == y@,
        _ => false,
    }
}

/// Whether two requests are the same in all that they say and ask for.
pub open spec fn same_request(a: ChatRequest, b: ChatRequest) -> bool {
    &&& same_model(a.model, b.model)
    &&& same_text(a.system, b.system)
    &&& a.messages@.len() == b.messages@.len()
    &&& forall|i: int|
        0 <= i < a.messages@.len() ==> same_message(#[trigger] a.messages@[i], b.messages@[i])
    &&& a.tools@.len() == b.tools@.len()
    &&& forall|i: int| 0 <= i < a.tools@.len() ==> same_tool(#[trigger] a.tools@[i], b.tools@[i])
    &&& same_choice(a.tool_choice, b.tool_choice)
    &&& match (a.structured_output, b.structured_output) {
        (Some(x), Some(y)) => same_schema(x, y),
        (None, None) => true,
        _ => false,
    }
    &&& a.max_output_tokens == b.max_output_tokens
    &&& match (a.temperature, b.temperature) {
        (Some(x), Some(y)) => number_view(x) == number_view(y),
        (None, None) => true,
        _ => false,
    }
    &&& a.stop_sequences@.len() == b.stop_sequences@.len()
    &&& forall|i: int|
        0 <= i < a.stop_sequences@.len() ==> (#[trigger] a.stop_sequences@[i])@
            == b.stop_sequences@[i]@
    &&& a.seed == b.seed
    &&& a.cache_directives@.len() == b.cache_directives@.len()
    &&& forall|i: int|
        0 <= i < a.cache_directives@.len() ==> same_directive(
            #[trigger] a.cache_directives@[i],
            b.cache_directives@[i],
        )
    &&& a.thinking == b.thinking
    &&& a.enable_chat_template_thinking == b.enable_chat_template_thinking
}

proof fn lemma_block_keys()
    ensures
        "base64"@ != "data"@,
        "base64"@ != "image"@,
        "base64"@ != "mime"@,
        "base64"@ != "text"@,
        "base64"@ != "type"@,
        "base64"@ != "url"@,
        "data"@ != "image"@,
        "data"@ != "mime"@,
        "data"@ != "text"@,
        "data"@ != "type"@,
        "data"@ != "url"@,
        "image"@ != "mime"@,
        "image"@ != "text"@,
        "image"@ != "type"@,
        "image"@ != "url"@,
        "mime"@ != "text"@,
        "mime"@ != "type"@,
        "mime"@ != "url"@,
        "text"@ != "type"@,
        "text"@ != "url"@,
        "type"@ != "url"@,
{
    reveal_strlit("base64");
    reveal_strlit("data");
    reveal_strlit("image");
    reveal_strlit("mime");
    reveal_strlit("text");
    reveal_strlit("type");
    reveal_strlit("url");
    assert("base64"@.len() == 6);
    assert("data"@.len() == 4);
    assert("image"@.len() == 5);
    assert("mime"@.len() == 4);
    assert("text"@.len() == 4);
    assert("type"@.len() == 4);
    assert("url"@.len() == 3);
    assert("data"@[0] != "mime"@[0]);
    assert("data"@[0] != "text"@[0]);
    assert("data"@[0] != "type"@[0]);
    assert("mime"@[0] != "text"@[0]);
    assert("mime"@[0] != "type"@[0]);
    assert("text"@[1] != "type"@[1]);
}

proof fn lemma_message_keys()
    ensures
        "assistant"@ != "content"@,
        "assistant"@ != "is_error"@,
        "assistant"@ != "role"@,
        "assistant"@ != "system"@,
        "assistant"@ != "tool"@,
        "assistant"@ != "tool_call_id"@,
        "assistant"@ != "tool_calls"@,
        "assistant"@ != "user"@,
        "content"@ != "is_error"@,
        "content"@ != "role"@,
        "content"@ != "system"@,
        "content"@ != "tool"@,
        "content"@ != "tool_call_id"@,
        "content"@ != "tool_calls"@,
        "content"@ != "user"@,
        "is_error"@ != "role"@,
        "is_error"@ != "system"@,
        "is_error"@ != "tool"@,
        "is_error"@ != "tool_call_id"@,
        "is_error"@ != "tool_calls"@,
        "is_error"@ != "user"@,
        "role"@ != "system"@,
        "role"@ != "tool"@,
        "role"@ != "tool_call_id"@,
        "role"@ != "tool_calls"@,
        "role"@ != "user"@,
        "system"@ != "tool"@,
        "system"@ != "tool_call_id"@,
        "system"@ != "tool_calls"@,
        "system"@ != "user"@,
        "tool"@ != "tool_call_id"@,
        "tool"@ != "tool_calls"@,
        "tool"@ != "user"@,
        "tool_call_id"@ != "tool_calls"@,
        "tool_call_id"@ != "user"@,
        "tool_calls"@ != "user"@,
{
    reveal_strlit("assistant");
    reveal_strlit("content");
    reveal_strlit("is_error");
    reveal_strlit("role");
    reveal_strlit("system");
    reveal_strlit("tool");
    reveal_strlit("tool_call_id");
    reveal_strlit("tool_calls");
    reveal_strlit("user");
    assert("assistant"@.len() == 9);
    assert("content"@.len() == 7);
    assert("is_error"@.len() == 8);
    assert("role"@.len() == 4);
    assert("system"@.len() == 6);
    assert("tool"@.len() == 4);
    assert("tool_call_id"@.len() == 12);
    assert("tool_calls"@.len() == 10);
    assert("user"@.len() == 4);
    assert("role"@[0] != "tool"@[0]);
    assert("role"@[0] != "user"@[0]);
    assert("tool"@[0] != "user"@[0]);
}

proof fn lemma_call_keys()
    ensures
        "arguments"@ != "id"@,
        "arguments"@ != "name"@,
        "id"@ != "name"@,
{
    reveal_strlit("arguments");
    reveal_strlit("id");
    reveal_strlit("name");
    assert("arguments"@.len() == 9);
    assert("id"@.len() == 2);
    assert("name"@.len() == 4);
}

proof fn lemma_tool_keys()
    ensures
        "description"@ != "input_schema"@,
        "description"@ != "name"@,
        "description"@ != "schema"@,
        "description"@ != "strict"@,
        "input_schema"@ != "name"@,
        "input_schema"@ != "schema"@,
        "input_schema"@ != "strict"@,
        "name"@ != "schema"@,
        "name"@ != "strict"@,
        "schema"@ != "strict"@,
{
    reveal_strlit("description");
    reveal_strlit("input_schema");
    reveal_strlit("name");
    reveal_strlit("schema");
    reveal_strlit("strict");
    assert("description"@.len() == 11);
    assert("input_schema"@.len() == 12);
    assert("name"@.len() == 4);
    assert("schema"@.len() == 6);
    assert("strict"@.len() == 6);
    assert("schema"@[1] != "strict"@[1]);
}

proof fn lemma_choice_keys()
    ensures
        "auto"@ != "explicit"@,
        "auto"@ != "mark_boundary"@,
        "auto"@ != "none"@,
        "auto"@ != "off"@,
        "auto"@ != "required"@,
        "auto"@ != "tier"@,
        "auto"@ != "use_explicit"@,
        "explicit"@ != "mark_boundary"@,
        "explicit"@ != "none"@,
        "explicit"@ != "off"@,
        "explicit"@ != "required"@,
        "explicit"@ != "tier"@,
        "explicit"@ != "use_explicit"@,
        "mark_boundary"@ != "none"@,
        "mark_boundary"@ != "off"@,
        "mark_boundary"@ != "required"@,
        "mark_boundary"@ != "tier"@,
        "mark_boundary"@ != "use_explicit"@,
        "none"@ != "off"@,
        "none"@ != "required"@,
        "none"@ != "tier"@,
        "none"@ != "use_explicit"@,
        "off"@ != "required"@,
        "off"@ != "tier"@,
        "off"@ != "use_explicit"@,
        "required"@ != "tier"@,
        "required"@ != "use_explicit"@,
        "tier"@ != "use_explicit"@,
{
    reveal_strlit("auto");
    reveal_strlit("explicit");
    reveal_strlit("mark_boundary");
    reveal_strlit("none");
    reveal_strlit("off");
    reveal_strlit("required");
    reveal_strlit("tier");
    reveal_strlit("use_explicit");
    assert("auto"@.len() == 4);
    assert("explicit"@.len() == 8);
    assert("mark_boundary"@.len() == 13);
    assert("none"@.len() == 4);
    assert("off"@.len() == 3);
    assert("required"@.len() == 8);
    assert("tier"@.len() == 4);
    assert("use_explicit"@.len() == 12);
    assert("auto"@[0] != "none"@[0]);
    assert("auto"@[0] != "tier"@[0]);
    assert("explicit"@[0] != "required"@[0]);
    assert("none"@[0] != "tier"@[0]);
}

proof fn lemma_request_keys()
    ensures
        "cache_directives"@ != "enable_chat_template_thinking"@,
        "cache_directives"@ != "max_output_tokens"@,
        "cache_directives"@ != "messages"@,
        "cache_directives"@ != "model"@,
        "cache_directives"@ != "seed"@,
        "cache_directives"@ != "stop_sequences"@,
        "cache_directives"@ != "structured_output"@,
        "cache_directives"@ != "system"@,
        "cache_directives"@ != "temperature"@,
        "cache_directives"@ != "thinking"@,
        "cache_directives"@ != "tool_choice"@,
        "cache_directives"@ != "tools"@,
        "enable_chat_template_thinking"@ != "max_output_tokens"@,
        "enable_chat_template_thinking"@ != "messages"@,
        "enable_chat_template_thinking"@ != "model"@,
        "enable_chat_template_thinking"@ != "seed"@,
        "enable_chat_template_thinking"@ != "stop_sequences"@,
        "enable_chat_template_thinking"@ != "structured_output"@,
        "enable_chat_template_thinking"@ != "system"@,
        "enable_chat_template_thinking"@ != "temperature"@,
        "enable_chat_template_thinking"@ != "thinking"@,
        "enable_chat_template_thinking"@ != "tool_choice"@,
        "enable_chat_template_thinking"@ != "tools"@,
        "max_output_tokens"@ != "messages"@,
        "max_output_tokens"@ != "model"@,
        "max_output_tokens"@ != "seed"@,
        "max_output_tokens"@ != "stop_sequences"@,
        "max_output_tokens"@ != "structured_output"@,
        "max_output_tokens"@ != "system"@,
        "max_output_tokens"@ != "temperature"@,
        "max_output_tokens"@ != "thinking"@,
        "max_output_tokens"@ != "tool_choice"@,
        "max_output_tokens"@ != "tools"@,
        "messages"@ != "model"@,
        "messages"@ != "seed"@,
        "messages"@ != "stop_sequences"@,
        "messages"@ != "structured_output"@,
        "messages"@ != "system"@,
        "messages"@ != "temperature"@,
        "messages"@ != "thinking"@,
        "messages"@ != "tool_choice"@,
        "messages"@ != "tools"@,
        "model"@ != "seed"@,
        "model"@ != "stop_sequences"@,
        "model"@ != "structured_output"@,
        "model"@ != "system"@,
        "model"@ != "temperature"@,
        "model"@ != "thinking"@,
        "model"@ != "tool_choice"@,
        "model"@ != "tools"@,
        "seed"@ != "stop_sequences"@,
        "seed"@ != "structured_output"@,
        "seed"@ != "system"@,
        "seed"@ != "temperature"@,
        "seed"@ != "thinking"@,
        "seed"@ != "tool_choice"@,
        "seed"@ != "tools"@,
        "stop_sequences"@ != "structured_output"@,
        "stop_sequences"@ != "system"@,
        "stop_sequences"@ != "temperature"@,
        "stop_sequences"@ != "thinking"@,
        "stop_sequences"@ != "tool_choice"@,
        "stop_sequences"@ != "tools"@,
        "structured_output"@ != "system"@,
        "structured_output"@ != "temperature"@,
        "structured_output"@ != "thinking"@,
        "structured_output"@ != "tool_choice"@,
        "structured_output"@ != "tools"@,
        "system"@ != "temperature"@,
        "system"@ != "thinking"@,
        "system"@ != "tool_choice"@,
        "system"@ != "tools"@,
        "temperature"@ != "thinking"@,
        "temperature"@ != "tool_choice"@,
        "temperature"@ != "tools"@,
        "thinking"@ != "tool_choice"@,
        "thinking"@ != "tools"@,
        "tool_choice"@ != "tools"@,
{
    reveal_strlit("cache_directives");
    reveal_strlit("enable_chat_template_thinking");
    reveal_strlit("max_output_tokens");
    reveal_strlit("messages");
    reveal_strlit("model");
    reveal_strlit("seed");
    reveal_strlit("stop_sequences");
    reveal_strlit("structured_output");
    reveal_strlit("system");
    reveal_strlit("temperature");
    reveal_strlit("thinking");
    reveal_strlit("tool_choice");
    reveal_strlit("tools");
    assert("cache_directives"@.len() == 16);
    assert("enable_chat_template_thinking"@.len() == 29);
    assert("max_output_tokens"@.len() == 17);
    assert("messages"@.len() == 8);
    assert("model"@.len() == 5);
    assert("seed"@.len() == 4);
    assert("stop_sequences"@.len() == 14);
    assert("structured_output"@.len() == 17);
    assert("system"@.len() == 6);
    assert("temperature"@.len() == 11);
    assert("thinking"@.len() == 8);
    assert("tool_choice"@.len() == 11);
    assert("tools"@.len() == 5);
    assert("max_output_tokens"@[0] != "structured_output"@[0]);
    assert("messages"@[0] != "thinking"@[0]);
    assert("model"@[0] != "tools"@[0]);
    assert("temperature"@[1] != "tool_choice"@[1]);
}

proof fn lemma_block_told(a: ContentBlock, b: ContentBlock)
    requires
        block_value(a) == block_value(b),
    ensures
        same_block(a, b),
{
    lemma_block_keys();
    let v = block_value(a);
    let w = block_value(b);
    assert(field(v, "type"@) == field(w, "type"@));
    assert(field(v, "text"@) == field(w, "text"@));
    assert(field(v, "mime"@) == field(w, "mime"@));
    assert(field(field(v, "data"@), "url"@) == field(field(w, "data"@), "url"@));
    assert(field(field(v, "data"@), "base64"@) == field(field(w, "data"@), "base64"@));
}

proof fn lemma_blocks_told(a: Seq<ContentBlock>, b: Seq<ContentBlock>)
    requires
        blocks_value(a) == blocks_value(b),
    ensures
        same_blocks(a, b),
{
    let s = list(blocks_value(a));
    let t = list(blocks_value(b));
    assert(s == t);
    assert(s.len() == a.len() && t.len() == b.len());
    assert forall|i: int| 0 <= i < a.len() implies same_block(#[trigger] a[i], b[i]) by {
        assert(s[i] == block_value(a[i]));
        assert(t[i] == block_value(b[i]));
        lemma_block_told(a[i], b[i]);
    }
}

proof fn lemma_calls_told(a: Seq<ToolCall>, b: Seq<ToolCall>)
    requires
        calls_value(a) == calls_value(b),
    ensures
        same_calls(a, b),
{
    lemma_call_keys();
    let s = list(calls_value(a));
    let t = list(calls_value(b));
    assert(s == t);
    assert(s.len() == a.len() && t.len() == b.len());
    assert forall|i: int| 0 <= i < a.len() implies same_call(#[trigger] a[i], b[i]) by {
        assert(s[i] == call_value(a[i]));
        assert(t[i] == call_value(b[i]));
        assert(field(s[i], "id"@) == field(t[i], "id"@));
        assert(field(s[i], "name"@) == field(t[i], "name"@));
        assert(field(s[i], "arguments"@) == field(t[i], "arguments"@));
    }
}

proof fn lemma_message_told(a: Message, b: Message)
    requires
        message_value(a) == message_value(b),
    ensures
        same_message(a, b),
{
    lemma_message_keys();
    let v = message_value(a);
    let w = message_value(b);
    assert(field(v, "role"@) == field(w, "role"@));
    assert(field(v, "content"@) == field(w, "content"@));
    assert(field(v, "tool_calls"@) == field(w, "tool_calls"@));
    assert(field(v, "tool_call_id"@) == field(w, "tool_call_id"@));
    assert(field(v, "is_error"@) == field(w, "is_error"@));
    match (a, b) {
        (Message::User { content: x }, Message::User { content: y }) => lemma_blocks_told(x@, y@),
        (Message::System { content: x }, Message::System { content: y }) => lemma_blocks_told(
            x@,
            y@,
        ),
        (
            Message::Assistant { content: x, tool_calls: p },
            Message::Assistant { content: y, tool_calls: q },
        ) => {
            lemma_blocks_told(x@, y@);
            lemma_calls_told(p@, q@);
        },
        (
            Message::Tool { tool_call_id: i, content: x, is_error: e },
            Message::Tool { tool_call_id: j, content: y, is_error: f },
        ) => lemma_blocks_told(x@, y@),
        _ => {},
    }
}

proof fn lemma_schema_told(a: JsonSchema, b: JsonSchema)
    requires
        schema_value(a) == schema_value(b),
    ensures
        same_schema(a, b),
{
    lemma_tool_keys();
    let v = schema_value(a);
    let w = schema_value(b);
    assert(field(v, "name"@) == field(w, "name"@));
    assert(field(v, "schema"@) == field(w, "schema"@));
    assert(field(v, "strict"@) == field(w, "strict"@));
}

proof fn lemma_tool_told(a: ToolSpec, b: ToolSpec)
    requires
        tool_value(a) == tool_value(b),
    ensures
        same_tool(a, b),
{
    lemma_tool_keys();
    let v = tool_value(a);
    let w = tool_value(b);
    assert(field(v, "name"@) == field(w, "name"@));
    assert(field(v, "description"@) == field(w, "description"@));
    assert(field(v, "input_schema"@) == field(w, "input_schema"@));
    lemma_schema_told(a.input_schema, b.input_schema);
}

proof fn lemma_directive_told(a: CacheDirective, b: CacheDirective)
    requires
        directive_value(a) == directive_value(b),
    ensures
        same_directive(a, b),
{
    lemma_choice_keys();
    let v = directive_value(a);
    let w = directive_value(b);
    let m = field(v, "mark_boundary"@);
    let n = field(w, "mark_boundary"@);
    assert(m == n);
    assert(field(m, "ttl_ms"@) == field(n, "ttl_ms"@));
    let p = field(v, "use_explicit"@);
    let q = field(w, "use_explicit"@);
    assert(p == q);
    assert(field(p, "external_id"@) == field(q, "external_id"@));
}

proof fn lemma_choices_told(a: ChatRequest, b: ChatRequest)
    ensures
        hint_value(a.model) == hint_value(b.model) ==> same_model(a.model, b.model),
        choice_value(a.tool_choice) == choice_value(b.tool_choice) ==> same_choice(
            a.tool_choice,
            b.tool_choice,
        ),
        thinking_value(a.thinking) == thinking_value(b.thinking) ==> a.thinking == b.thinking,
{
    lemma_choice_keys();
    let v = hint_value(a.model);
    let w = hint_value(b.model);
    if v == w {
        assert(field(v, "explicit"@) == field(w, "explicit"@));
        assert(field(v, "tier"@) == field(w, "tier"@));
    }
    let p = choice_value(a.tool_choice);
    let q = choice_value(b.tool_choice);
    if p == q {
        assert(field(p, "specific"@) == field(q, "specific"@));
    }
    let x = thinking_value(a.thinking);
    let y = thinking_value(b.thinking);
    if x == y {
        assert(field(x, "budget"@) == field(y, "budget"@));
    }
}

/// The value of a request tells the whole request: two requests that differ in the model,
/// the system prompt, a turn, a tool, a setting or anything else have different values.
pub proof fn law_value_tells_the_request(a: ChatRequest, b: ChatRequest)
    requires
        request_value(a) == request_value(b),
    ensures
        same_request(a, b),
{
    lemma_request_keys();
    lemma_choices_told(a, b);
    let v = request_value(a);
    let w = request_value(b);
    assert(field(v, "model"@) == field(w, "model"@));
    assert(field(v, "system"@) == field(w, "system"@));
    assert(field(v, "messages"@) == field(w, "messages"@));
    assert(field(v, "tools"@) == field(w, "tools"@));
    assert(field(v, "tool_choice"@) == field(w, "tool_choice"@));
    assert(field(v, "structured_output"@) == field(w, "structured_output"@));
    assert(field(v, "max_output_tokens"@) == field(w, "max_output_tokens"@));
    assert(field(v, "temperature"@) == field(w, "temperature"@));
    assert(field(v, "stop_sequences"@) == field(w, "stop_sequences"@));
    assert(field(v, "seed"@) == field(w, "seed"@));
    assert(field(v, "cache_directives"@) == field(w, "cache_directives"@));
    assert(field(v, "thinking"@) == field(w, "thinking"@));
    assert(field(v, "enable_chat_template_thinking"@) == field(w, "enable_chat_template_thinking"@));
    let ms = list(field(v, "messages"@));
    let ns = list(field(w, "messages"@));
    assert(ms == a.messages@.map_values(|m: Message| message_value(m)));
    assert(ns == b.messages@.map_values(|m: Message| message_value(m)));
    assert(ms.len() == a.messages@.len() && ns.len() == b.messages@.len());
    assert forall|i: int| 0 <= i < a.messages@.len() implies same_message(
        #[trigger] a.messages@[i],
        b.messages@[i],
    ) by {
        assert(ms[i] == message_value(a.messages@[i]));
        assert(ns[i] == message_value(b.messages@[i]));
        lemma_message_told(a.messages@[i], b.messages@[i]);
    }
    let ts = list(field(v, "tools"@));
    let us = list(field(w, "tools"@));
    assert(ts == a.tools@.map_values(|t: ToolSpec| tool_value(t)));
    assert(us == b.tools@.map_values(|t: ToolSpec| tool_value(t)));
    assert(ts.len() == a.tools@.len() && us.len() == b.tools@.len());
    assert forall|i: int| 0 <= i < a.tools@.len() implies same_tool(
        #[trigger] a.tools@[i],
        b.tools@[i],
    ) by {
        assert(ts[i] == tool_value(a.tools@[i]));
        assert(us[i] == tool_value(b.tools@[i]));
        lemma_tool_told(a.tools@[i], b.tools@[i]);
    }
    match (a.structured_output, b.structured_output) {
        (Some(x), Some(y)) => lemma_schema_told(x, y),
        _ => {},
    }
    let ss = list(field(v, "stop_sequences"@));
    let rs = list(field(w, "stop_sequences"@));
    assert(ss == str_items(a.stop_sequences@));
    assert(rs == str_items(b.stop_sequences@));
    assert(ss.len() == a.stop_sequences@.len() && rs.len() == b.stop_sequences@.len());
    assert forall|i: int| 0 <= i < a.stop_sequences@.len() implies (
    #[trigger] a.stop_sequences@[i])@ == b.stop_sequences@[i]@ by {
        assert(ss[i] == JsonView::Str(a.stop_sequences@[i]@));
        assert(rs[i] == JsonView::Str(b.stop_sequences@[i]@));
    }
    let cs = list(field(v, "cache_directives"@));
    let ds = list(field(w, "cache_directives"@));
    assert(cs == a.cache_directives@.map_values(|d: CacheDirective| directive_value(d)));
    assert(ds == b.cache_directives@.map_values(|d: CacheDirective| directive_value(d)));
    assert(cs.len() == a.cache_directives@.len() && ds.len() == b.cache_directives@.len());
    assert forall|i: int| 0 <= i < a.cache_directives@.len() implies same_directive(
        #[trigger] a.cache_directives@[i],
        b.cache_directives@[i],
    ) by {
        assert(cs[i] == directive_value(a.cache_directives@[i]));
        assert(ds[i] == directive_value(b.cache_directives@[i]));
        lemma_directive_told(a.cache_directives@[i], b.cache_directives@[i]);
    }
}

/// The system prompt is a member of its own in the value of a request: null where there
/// is none.
pub proof fn law_system_prompt_counts(req: ChatRequest)
    ensures
        field(request_value(req), "system"@) == (match req.system {
            Some(s) => JsonView::Str(s@),
            None => JsonView::Null,
        }),
{
    lemma_request_keys();
}

/// Whether the value of a request comes back out of its text.
pub open spec fn reads_back(req: ChatRequest) -> bool {
    serde_parse(serde_print(request_value(req))) == Ok::<JsonView, Seq<char>>(request_value(req))
}

/// Whether a request to a model speaks of no path that is replaced.
pub open spec fn is_free_of_paths(req: ChatRequest, model: Seq<char>) -> bool {
    forall|j: int|
        0 <= j ==> !part_at(plain_text(model, serde_print(request_value(req))), NEEDLE@, j)
}

/// Two requests to one model with the same text are the same request, so that a recording
/// answers no other one.
pub proof fn law_requests_kept_apart(a: ChatRequest, b: ChatRequest, model: Seq<char>)
    requires
        reads_back(a),
        reads_back(b),
        is_free_of_paths(a, model),
        is_free_of_paths(b, model),
        canon(a, model) == canon(b, model),
    ensures
        same_request(a, b),
{
    let x = serde_print(request_value(a));
    let y = serde_print(request_value(b));
    law_other_texts_unchanged(plain_text(model, x));
    law_other_texts_unchanged(plain_text(model, y));
    let n = ("model="@ + model).push('\0').len() as int;
    assert(plain_text(model, x).skip(n) =~= x);
    assert(plain_text(model, y).skip(n) =~= y);
    law_value_tells_the_request(a, b);
}

} // verus!
