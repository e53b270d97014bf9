//! What holds of the requests that are written for Anthropic.

use crate::backends::anthropic::adapter::{
    block_json, content_json, first_repeat, mark_last, mark_last_user, mark_message, message_json,
    messages_json, request_tools, tool_names, tool_use_json, tool_uses_json, tools_json, translated,
    wants_marker,
};
use crate::backends::anthropic::laws::law_marker_is_on_the_last_user_turn;
use crate::json::{number_view, JsonView, NumView};
use crate::terms::{field, has_field, list};
use crate::types::{
    ChatRequest, ContentBlock, ErrorView, ImageData, Message, ModelHint, ThinkingMode, ToolCall,
    ToolChoice, ToolSpec,
};
use vstd::prelude::*;
use vstd::string::*;

verus! {

/// Whether a block on the wire is a content block.
pub open spec fn is_block(j: JsonView, b: ContentBlock) -> bool {
    match b {
        ContentBlock::Text { text } => field(j, "type"@) == JsonView::Str("text"@) && field(
            j,
            "text"@,
        ) == JsonView::Str(text@),
        ContentBlock::Image { mime, data } => {
            let source = field(j, "source"@);
            &&& field(j, "type"@) == JsonView::Str("image"@)
            &&& match data {
                ImageData::Url(u) => field(source, "type"@) == JsonView::Str("url"@) && field(
                    source,
                    "url"@,
                ) == JsonView::Str(u@),
                ImageData::Base64(d) => field(source, "type"@) == JsonView::Str("base64"@) && field(
                    source,
                    "media_type"@,
                ) == JsonView::Str(mime@) && field(source, "data"@) == JsonView::Str(d@),
            }
        },
    }
}

/// Whether a block on the wire is a tool call.
pub open spec fn is_tool_use(j: JsonView, tc: ToolCall) -> bool {
    &&& field(j, "type"@) == JsonView::Str("tool_use"@)
    &&& field(j, "id"@) == JsonView::Str(tc.id@)
    &&& field(j, "name"@) == JsonView::Str(tc.name@)
    &&& field(j, "input"@) == tc.arguments@
}

/// Whether blocks on the wire are these blocks and then these calls, one for one.
pub open spec fn are_blocks(
    s: Seq<JsonView>,
    blocks: Seq<ContentBlock>,
    calls: Seq<ToolCall>,
) -> bool {
    &&& s.len() == blocks.len() + calls.len()
    &&& forall|i: int| 0 <= i < blocks.len() ==> is_block(s[i], #[trigger] blocks[i])
    &&& forall|i: int|
        0 <= i < calls.len() ==> is_tool_use(s[blocks.len() + i], #[trigger] calls[i])
}

/// Whether a turn on the wire says what a message says. The result of a tool and the
/// text of the system are turns of the user.
pub open spec fn says(j: JsonView, m: Message) -> bool {
    let role = field(j, "role"@);
    let content = list(field(j, "content"@));
    match m {
        Message::User { content: blocks } => role == JsonView::Str("user"@) && are_blocks(
            content,
            blocks@,
            seq![],
        ),
        Message::Assistant { content: blocks, tool_calls } => role == JsonView::Str("assistant"@)
            && are_blocks(content, blocks@, tool_calls@),
        Message::Tool { tool_call_id, content: blocks, is_error } => {
            &&& role == JsonView::Str("user"@)
            &&& content.len() == 1
            &&& field(content[0], "type"@) == JsonView::Str("tool_result"@)
            &&& field(content[0], "tool_use_id"@) == JsonView::Str(tool_call_id@)
            &&& are_blocks(list(field(content[0], "content"@)), blocks@, seq![])
            &&& has_field(content[0], "is_error"@) <==> is_error
            &&& is_error ==> field(content[0], "is_error"@) == JsonView::Bool(true)
        },
        Message::System { content: blocks } => {
            &&& role == JsonView::Str("user"@)
            &&& content.len() == blocks@.len() + 1
            &&& field(content[0], "type"@) == JsonView::Str("text"@)
            &&& field(content[0], "text"@) == JsonView::Str("[system]"@)
            &&& are_blocks(content.skip(1), blocks@, seq![])
        },
    }
}

proof fn lemma_block_keys()
    ensures
        "base64"@ != "cache_control"@,
        "base64"@ != "content"@,
        "base64"@ != "data"@,
        "base64"@ != "id"@,
        "base64"@ != "image"@,
        "base64"@ != "input"@,
        "base64"@ != "is_error"@,
        "base64"@ != "media_type"@,
        "base64"@ != "name"@,
        "base64"@ != "role"@,
        "base64"@ != "source"@,
        "base64"@ != "text"@,
        "base64"@ != "tool_use"@,
        "base64"@ != "tool_use_id"@,
        "base64"@ != "type"@,
        "base64"@ != "url"@,
        "cache_control"@ != "content"@,
        "cache_control"@ != "data"@,
        "cache_control"@ != "id"@,
        "cache_control"@ != "image"@,
        "cache_control"@ != "input"@,
        "cache_control"@ != "is_error"@,
        "cache_control"@ != "media_type"@,
        "cache_control"@ != "name"@,
        "cache_control"@ != "role"@,
        "cache_control"@ != "source"@,
        "cache_control"@ != "text"@,
        "cache_control"@ != "tool_use"@,
        "cache_control"@ != "tool_use_id"@,
        "cache_control"@ != "type"@,
        "cache_control"@ != "url"@,
        "content"@ != "data"@,
        "content"@ != "id"@,
        "content"@ != "image"@,
        "content"@ != "input"@,
        "content"@ != "is_error"@,
        "content"@ != "media_type"@,
        "content"@ != "name"@,
        "content"@ != "role"@,
        "content"@ != "source"@,
        "content"@ != "text"@,
        "content"@ != "tool_use"@,
        "content"@ != "tool_use_id"@,
        "content"@ != "type"@,
        "content"@ != "url"@,
        "data"@ != "id"@,
        "data"@ != "image"@,
        "data"@ != "input"@,
        "data"@ != "is_error"@,
        "data"@ != "media_type"@,
        "data"@ != "name"@,
        "data"@ != "role"@,
        "data"@ != "source"@,
        "data"@ != "text"@,
        "data"@ != "tool_use"@,
        "data"@ != "tool_use_id"@,
        "data"@ != "type"@,
        "data"@ != "url"@,
        "id"@ != "image"@,
        "id"@ != "input"@,
        "id"@ != "is_error"@,
        "id"@ != "media_type"@,
        "id"@ != "name"@,
        "id"@ != "role"@,
        "id"@ != "source"@,
        "id"@ != "text"@,
        "id"@ != "tool_use"@,
        "id"@ != "tool_use_id"@,
        "id"@ != "type"@,
        "id"@ != "url"@,
        "image"@ != "input"@,
        "image"@ != "is_error"@,
        "image"@ != "media_type"@,
        "image"@ != "name"@,
        "image"@ != "role"@,
        "image"@ != "source"@,
        "image"@ != "text"@,
        "image"@ != "tool_use"@,
        "image"@ != "tool_use_id"@,
        "image"@ != "type"@,
        "image"@ != "url"@,
        "input"@ != "is_error"@,
        "input"@ != "media_type"@,
        "input"@ != "name"@,
        "input"@ != "role"@,
        "input"@ != "source"@,
        "input"@ != "text"@,
        "input"@ != "tool_use"@,
        "input"@ != "tool_use_id"@,
        "input"@ != "type"@,
        "input"@ != "url"@,
        "is_error"@ != "media_type"@,
        "is_error"@ != "name"@,
        "is_error"@ != "role"@,
        "is_error"@ != "source"@,
        "is_error"@ != "text"@,
        "is_error"@ != "tool_use"@,
        "is_error"@ != "tool_use_id"@,
        "is_error"@ != "type"@,
        "is_error"@ != "url"@,
        "media_type"@ != "name"@,
        "media_type"@ != "role"@,
        "media_type"@ != "source"@,
        "media_type"@ != "text"@,
        "media_type"@ != "tool_use"@,
        "media_type"@ != "tool_use_id"@,
        "media_type"@ != "type"@,
        "media_type"@ != "url"@,
        "name"@ != "role"@,
        "name"@ != "source"@,
        "name"@ != "text"@,
        "name"@ != "tool_use"@,
        "name"@ != "tool_use_id"@,
        "name"@ != "type"@,
        "name"@ != "url"@,
        "role"@ != "source"@,
        "role"@ != "text"@,
        "role"@ != "tool_use"@,
        "role"@ != "tool_use_id"@,
        "role"@ != "type"@,
        "role"@ != "url"@,
        "source"@ != "text"@,
        "source"@ != "tool_use"@,
        "source"@ != "tool_use_id"@,
        "source"@ != "type"@,
        "source"@ != "url"@,
        "text"@ != "tool_use"@,
        "text"@ != "tool_use_id"@,
        "text"@ != "type"@,
        "text"@ != "url"@,
        "tool_use"@ != "tool_use_id"@,
        "tool_use"@ != "type"@,
        "tool_use"@ != "url"@,
        "tool_use_id"@ != "type"@,
        "tool_use_id"@ != "url"@,
        "type"@ != "url"@,
{
    reveal_strlit("base64");
    reveal_strlit("cache_control");
    reveal_strlit("content");
    reveal_strlit("data");
    reveal_strlit("id");
    reveal_strlit("image");
    reveal_strlit("input");
    reveal_strlit("is_error");
    reveal_strlit("media_type");
    reveal_strlit("name");
    reveal_strlit("role");
    reveal_strlit("source");
    reveal_strlit("text");
    reveal_strlit("tool_use");
    reveal_strlit("tool_use_id");
    reveal_strlit("type");
    reveal_strlit("url");
    assert("base64"@.len() == 6);
    assert("cache_control"@.len() == 13);
    assert("content"@.len() == 7);
    assert("data"@.len() == 4);
    assert("id"@.len() == 2);
    assert("image"@.len() == 5);
    assert("input"@.len() == 5);
    assert("is_error"@.len() == 8);
    assert("media_type"@.len() == 10);
    assert("name"@.len() == 4);
    assert("role"@.len() == 4);
    assert("source"@.len() == 6);
    assert("text"@.len() == 4);
    assert("tool_use"@.len() == 8);
    assert("tool_use_id"@.len() == 11);
    assert("type"@.len() == 4);
    assert("url"@.len() == 3);
    assert("base64"@[0] != "source"@[0]);
    assert("data"@[0] != "name"@[0]);
    assert("data"@[0] != "role"@[0]);
    assert("data"@[0] != "text"@[0]);
    assert("data"@[0] != "type"@[0]);
    assert("image"@[1] != "input"@[1]);
    assert("is_error"@[0] != "tool_use"@[0]);
    assert("name"@[0] != "role"@[0]);
    assert("name"@[0] != "text"@[0]);
    assert("name"@[0] != "type"@[0]);
    assert("role"@[0] != "text"@[0]);
    assert("role"@[0] != "type"@[0]);
    assert("text"@[1] != "type"@[1]);
}

proof fn lemma_body_keys()
    ensures
        "max_tokens"@ != "messages"@,
        "max_tokens"@ != "model"@,
        "max_tokens"@ != "stop_sequences"@,
        "max_tokens"@ != "stream"@,
        "max_tokens"@ != "system"@,
        "max_tokens"@ != "temperature"@,
        "max_tokens"@ != "thinking"@,
        "max_tokens"@ != "tool_choice"@,
        "max_tokens"@ != "tools"@,
        "messages"@ != "model"@,
        "messages"@ != "stop_sequences"@,
        "messages"@ != "stream"@,
        "messages"@ != "system"@,
        "messages"@ != "temperature"@,
        "messages"@ != "thinking"@,
        "messages"@ != "tool_choice"@,
        "messages"@ != "tools"@,
        "model"@ != "stop_sequences"@,
        "model"@ != "stream"@,
        "model"@ != "system"@,
        "model"@ != "temperature"@,
        "model"@ != "thinking"@,
        "model"@ != "tool_choice"@,
        "model"@ != "tools"@,
        "stop_sequences"@ != "stream"@,
        "stop_sequences"@ != "system"@,
        "stop_sequences"@ != "temperature"@,
        "stop_sequences"@ != "thinking"@,
        "stop_sequences"@ != "tool_choice"@,
        "stop_sequences"@ != "tools"@,
        "stream"@ != "system"@,
        "stream"@ != "temperature"@,
        "stream"@ != "thinking"@,
        "stream"@ != "tool_choice"@,
        "stream"@ != "tools"@,
        "system"@ != "temperature"@,
        "system"@ != "thinking"@,
        "system"@ != "tool_choice"@,
        "system"@ != "tools"@,
        "temperature"@ != "thinking"@,
        "temperature"@ != "tool_choice"@,
        "temperature"@ != "tools"@,
        "thinking"@ != "tool_choice"@,
        "thinking"@ != "tools"@,
        "tool_choice"@ != "tools"@,
{
    reveal_strlit("max_tokens");
    reveal_strlit("messages");
    reveal_strlit("model");
    reveal_strlit("stop_sequences");
    reveal_strlit("stream");
    reveal_strlit("system");
    reveal_strlit("temperature");
    reveal_strlit("thinking");
    reveal_strlit("tool_choice");
    reveal_strlit("tools");
    assert("max_tokens"@.len() == 10);
    assert("messages"@.len() == 8);
    assert("model"@.len() == 5);
    assert("stop_sequences"@.len() == 14);
    assert("stream"@.len() == 6);
    assert("system"@.len() == 6);
    assert("temperature"@.len() == 11);
    assert("thinking"@.len() == 8);
    assert("tool_choice"@.len() == 11);
    assert("tools"@.len() == 5);
    assert("messages"@[0] != "thinking"@[0]);
    assert("model"@[0] != "tools"@[0]);
    assert("stream"@[1] != "system"@[1]);
    assert("temperature"@[1] != "tool_choice"@[1]);
}

proof fn lemma_tool_keys()
    ensures
        "budget_tokens"@ != "description"@,
        "budget_tokens"@ != "input_schema"@,
        "budget_tokens"@ != "name"@,
        "budget_tokens"@ != "type"@,
        "description"@ != "input_schema"@,
        "description"@ != "name"@,
        "description"@ != "type"@,
        "input_schema"@ != "name"@,
        "input_schema"@ != "type"@,
        "name"@ != "type"@,
{
    reveal_strlit("budget_tokens");
    reveal_strlit("description");
    reveal_strlit("input_schema");
    reveal_strlit("name");
    reveal_strlit("type");
    assert("budget_tokens"@.len() == 13);
    assert("description"@.len() == 11);
    assert("input_schema"@.len() == 12);
    assert("name"@.len() == 4);
    assert("type"@.len() == 4);
    assert("name"@[0] != "type"@[0]);
}

proof fn lemma_roles()
    ensures
        "assistant"@ != "user"@,
{
    reveal_strlit("assistant");
    reveal_strlit("user");
    assert("assistant"@.len() == 9);
    assert("user"@.len() == 4);
}

proof fn lemma_blocks_written(blocks: Seq<ContentBlock>, calls: Seq<ToolCall>)
    ensures
        are_blocks(content_json(blocks) + tool_uses_json(calls), blocks, calls),
        are_blocks(content_json(blocks), blocks, seq![]),
{
    lemma_block_keys();
    let s = content_json(blocks) + tool_uses_json(calls);
    assert forall|i: int| 0 <= i < blocks.len() implies is_block(s[i], #[trigger] blocks[i])
        && is_block(content_json(blocks)[i], blocks[i]) by {
        assert(s[i] == block_json(blocks[i]));
        assert(content_json(blocks)[i] == block_json(blocks[i]));
    }
    assert forall|i: int| 0 <= i < calls.len() implies is_tool_use(
        s[blocks.len() + i],
        #[trigger] calls[i],
    ) by {
        assert(s[blocks.len() + i] == tool_use_json(calls[i]));
    }
}

/// Whether blocks differ in nothing but where markers stand.
spec fn alike(s: Seq<JsonView>, t: Seq<JsonView>) -> bool {
    &&& s.len() == t.len()
    &&& forall|i: int, key: Seq<char>|
        0 <= i < s.len() && key != "cache_control"@ ==> #[trigger] field(s[i], key) == field(
            t[i],
            key,
        ) && has_field(s[i], key) == has_field(t[i], key)
}

proof fn lemma_marked_alike(s: Seq<JsonView>)
    ensures
        alike(mark_last(s), s),
{
}

proof fn lemma_alike_blocks(
    s: Seq<JsonView>,
    t: Seq<JsonView>,
    blocks: Seq<ContentBlock>,
    calls: Seq<ToolCall>,
)
    requires
        alike(s, t),
        are_blocks(t, blocks, calls),
    ensures
        are_blocks(s, blocks, calls),
{
    lemma_block_keys();
    assert forall|i: int| 0 <= i < blocks.len() implies is_block(s[i], #[trigger] blocks[i]) by {
        assert(is_block(t[i], blocks[i]));
        assert(field(s[i], "type"@) == field(t[i], "type"@));
        assert(field(s[i], "text"@) == field(t[i], "text"@));
        assert(field(s[i], "source"@) == field(t[i], "source"@));
    }
    assert forall|i: int| 0 <= i < calls.len() implies is_tool_use(
        s[blocks.len() + i],
        #[trigger] calls[i],
    ) by {
        let k = blocks.len() + i;
        assert(is_tool_use(t[k], calls[i]));
        assert(field(s[k], "type"@) == field(t[k], "type"@));
        assert(field(s[k], "id"@) == field(t[k], "id"@));
        assert(field(s[k], "name"@) == field(t[k], "name"@));
        assert(field(s[k], "input"@) == field(t[k], "input"@));
    }
}

proof fn lemma_message_said(m: Message)
    ensures
        says(message_json(m), m),
        says(mark_message(message_json(m)), m),
{
    lemma_block_keys();
    let j = message_json(m);
    let k = mark_message(j);
    let s = list(field(j, "content"@));
    let t = list(field(k, "content"@));
    assert(t == mark_last(s));
    lemma_marked_alike(s);
    match m {
        Message::User { content } => {
            lemma_blocks_written(content@, seq![]);
            assert(s =~= content_json(content@));
            lemma_alike_blocks(t, s, content@, seq![]);
        },
        Message::Assistant { content, tool_calls } => {
            lemma_blocks_written(content@, tool_calls@);
            lemma_alike_blocks(t, s, content@, tool_calls@);
        },
        Message::Tool { tool_call_id, content, is_error } => {
            lemma_blocks_written(content@, seq![]);
            assert(field(t[0], "type"@) == field(s[0], "type"@));
            assert(field(t[0], "tool_use_id"@) == field(s[0], "tool_use_id"@));
            assert(field(t[0], "content"@) == field(s[0], "content"@));
            assert(field(t[0], "is_error"@) == field(s[0], "is_error"@));
        },
        Message::System { content } => {
            lemma_blocks_written(content@, seq![]);
            assert(s.skip(1) =~= content_json(content@));
            assert(field(t[0], "type"@) == field(s[0], "type"@));
            assert(field(t[0], "text"@) == field(s[0], "text"@));
            assert(alike(t.skip(1), s.skip(1))) by {
                assert forall|i: int, key: Seq<char>|
                    0 <= i < s.skip(1).len() && key != "cache_control"@ implies #[trigger] field(
                    t.skip(1)[i],
                    key,
                ) == field(s.skip(1)[i], key) && has_field(t.skip(1)[i], key) == has_field(
                    s.skip(1)[i],
                    key,
                ) by {
                    assert(field(t[i + 1], key) == field(s[i + 1], key));
                }
            }
            lemma_alike_blocks(t.skip(1), s.skip(1), content@, seq![]);
        },
    }
}

proof fn lemma_messages_said(s: Seq<Message>)
    ensures
        messages_json(s).len() == s.len(),
        mark_last_user(messages_json(s)).len() == s.len(),
        forall|i: int|
            0 <= i < s.len() ==> says(messages_json(s)[i], #[trigger] s[i]) && says(
                mark_last_user(messages_json(s))[i],
                s[i],
            ),
{
    let t = messages_json(s);
    let u = mark_last_user(t);
    if s.len() > 0 {
        law_marker_is_on_the_last_user_turn(t, 0);
    }
    assert forall|i: int| 0 <= i < s.len() implies says(t[i], #[trigger] s[i]) && says(
        u[i],
        s[i],
    ) by {
        lemma_message_said(s[i]);
        assert(t[i] == message_json(s[i]));
        law_marker_is_on_the_last_user_turn(t, i);
        if exists|j: int|
            i < j < t.len() && (#[trigger] t[j]).at("role"@).as_str() == Some("user"@) {
            assert(u[i] == t[i]);
        } else if t[i].at("role"@).as_str() != Some("user"@) {
            assert(u[i] == t[i]);
        } else {
            assert(u[i] == mark_message(t[i]));
        }
    }
}

/// Whether a tool on the wire has this name, description and schema.
pub open spec fn is_tool(
    j: JsonView,
    name: Seq<char>,
    description: Seq<char>,
    schema: JsonView,
) -> bool {
    &&& field(j, "name"@) == JsonView::Str(name)
    &&& field(j, "description"@) == JsonView::Str(description)
    &&& field(j, "input_schema"@) == schema
}

/// Whether the choice of a tool on the wire is this one.
pub open spec fn choice_is(c: JsonView, choice: ToolChoice) -> bool {
    match choice {
        ToolChoice::Auto => field(c, "type"@) == JsonView::Str("auto"@),
        ToolChoice::NoTool => field(c, "type"@) == JsonView::Str("none"@),
        ToolChoice::Required => field(c, "type"@) == JsonView::Str("any"@),
        ToolChoice::Specific(name) => field(c, "type"@) == JsonView::Str("tool"@) && field(
            c,
            "name"@,
        ) == JsonView::Str(name@),
    }
}

/// A request is written as it is: each turn with the same blocks in the same order, the
/// calls of tools and their results among them, the system prompt, the model and the
/// settings; and what the request does not have, the body does not have either.
pub proof fn law_request_is_written(req: ChatRequest, body: JsonView)
    requires
        translated(req) == Ok::<JsonView, ErrorView>(body),
    ensures
        req.model matches ModelHint::Explicit(m) && field(body, "model"@) == JsonView::Str(m@),
        list(field(body, "messages"@)).len() == req.messages@.len(),
        forall|i: int|
            0 <= i < req.messages@.len() ==> says(
                list(field(body, "messages"@))[i],
                #[trigger] req.messages@[i],
            ),
        match req.system {
            Some(s) => list(field(body, "system"@)).len() == 1 && is_block(
                list(field(body, "system"@))[0],
                ContentBlock::Text { text: s },
            ),
            None => !has_field(body, "system"@),
        },
        field(body, "max_tokens"@) == JsonView::Num(
            NumView::Int(
                match req.max_output_tokens {
                    Some(n) => n as int,
                    None => 4096,
                },
            ),
        ),
        match req.temperature {
            Some(t) => field(body, "temperature"@) == JsonView::Num(number_view(t)),
            None => !has_field(body, "temperature"@),
        },
        has_field(body, "stop_sequences"@) <==> req.stop_sequences@.len() > 0,
        list(field(body, "stop_sequences"@)).len() == req.stop_sequences@.len(),
        forall|i: int|
            0 <= i < req.stop_sequences@.len() ==> list(field(body, "stop_sequences"@))[i]
                == JsonView::Str((#[trigger] req.stop_sequences@[i])@),
        match req.thinking {
            ThinkingMode::Off => !has_field(body, "thinking"@),
            ThinkingMode::Auto => field(field(body, "thinking"@), "type"@) == JsonView::Str(
                "enabled"@,
            ) && field(field(body, "thinking"@), "budget_tokens"@) == JsonView::Num(
                NumView::Int(4096),
            ),
            ThinkingMode::Budget(n) => field(field(body, "thinking"@), "type"@) == JsonView::Str(
                "enabled"@,
            ) && field(field(body, "thinking"@), "budget_tokens"@) == JsonView::Num(
                NumView::Int(n as int),
            ),
        },
        field(body, "stream"@) == JsonView::Bool(true),
{
    lemma_body_keys();
    lemma_block_keys();
    lemma_tool_keys();
    lemma_messages_said(req.messages@);
    if let Some(s) = req.system {
        let blocks = seq![block_json(ContentBlock::Text { text: s })];
        lemma_marked_alike(blocks);
        let t = mark_last(blocks);
        assert(field(t[0], "type"@) == field(blocks[0], "type"@));
        assert(field(t[0], "text"@) == field(blocks[0], "text"@));
    }
}

/// The tools of a request are written one for one. A reply with a structure is asked for
/// by one tool more, with the structure as its schema, which the model must use; without
/// one the choice of a tool is that of the request.
pub proof fn law_tools_are_written(req: ChatRequest, body: JsonView)
    requires
        translated(req) == Ok::<JsonView, ErrorView>(body),
    ensures
        ({
            let tools = list(field(body, "tools"@));
            &&& has_field(body, "tools"@) <==> req.tools@.len() > 0 || req.structured_output is Some
            &&& has_field(body, "tool_choice"@) <==> has_field(body, "tools"@)
            &&& forall|i: int|
                0 <= i < req.tools@.len() ==> is_tool(
                    tools[i],
                    (#[trigger] req.tools@[i]).name@,
                    req.tools@[i].description@,
                    req.tools@[i].input_schema.schema@,
                )
            &&& match req.structured_output {
                Some(s) => {
                    let choice = field(body, "tool_choice"@);
                    &&& tools.len() == req.tools@.len() + 1
                    &&& field(tools.last(), "input_schema"@) == s.schema@
                    &&& field(tools.last(), "name"@) == JsonView::Str("__respond_with__"@)
                    &&& field(choice, "type"@) == JsonView::Str("tool"@)
                    &&& field(choice, "name"@) == JsonView::Str("__respond_with__"@)
                },
                None => {
                    &&& tools.len() == req.tools@.len()
                    &&& req.tools@.len() > 0 ==> choice_is(
                        field(body, "tool_choice"@),
                        req.tool_choice,
                    )
                },
            }
        }),
{
    lemma_body_keys();
    lemma_tool_keys();
    let tools = list(field(body, "tools"@));
    assert(tools =~= request_tools(req));
    assert forall|i: int| 0 <= i < req.tools@.len() implies is_tool(
        tools[i],
        (#[trigger] req.tools@[i]).name@,
        req.tools@[i].description@,
        req.tools@[i].input_schema.schema@,
    ) by {
        assert(tools[i] == tools_json(req.tools@)[i]);
    }
}

/// Whether a message is a turn of the assistant.
pub open spec fn is_answer(m: Message) -> bool {
    m is Assistant
}

/// Whether the caller asks for a cache boundary.
pub open spec fn asks_for_boundary(req: ChatRequest) -> bool {
    exists|i: int|
        0 <= i < req.cache_directives@.len() && #[trigger] req.cache_directives@[i] is MarkBoundary
}

/// Markers stand where a boundary is asked for and nowhere else: on the system prompt,
/// and on the last block of the last turn that is not the assistant's.
pub proof fn law_boundary_is_marked(req: ChatRequest, body: JsonView, i: int, j: int)
    requires
        translated(req) == Ok::<JsonView, ErrorView>(body),
        0 <= i < req.messages@.len(),
        0 <= j < list(field(list(field(body, "messages"@))[i], "content"@)).len(),
    ensures
        ({
            let content = list(field(list(field(body, "messages"@))[i], "content"@));
            let is_last = !is_answer(req.messages@[i]) && forall|k: int|
                i < k < req.messages@.len() ==> is_answer(#[trigger] req.messages@[k]);
            &&& has_field(content[j], "cache_control"@) <==> asks_for_boundary(req) && is_last && j
                == content.len() - 1
            &&& has_field(content[j], "cache_control"@) ==> field(
                field(content[j], "cache_control"@),
                "type"@,
            ) == JsonView::Str("ephemeral"@)
        }),
        req.system is Some ==> (has_field(list(field(body, "system"@))[0], "cache_control"@)
            <==> asks_for_boundary(req)),
{
    lemma_body_keys();
    lemma_block_keys();
    lemma_roles();
    let s = req.messages@;
    let t = messages_json(s);
    let u = mark_last_user(t);
    assert(wants_marker(req.cache_directives@) == asks_for_boundary(req));
    law_marker_is_on_the_last_user_turn(t, i);
    let turn = list(field(body, "messages"@))[i];
    let content = list(field(turn, "content"@));
    assert forall|k: int| 0 <= k < s.len() implies (#[trigger] t[k]).at("role"@).as_str() == (
    if is_answer(s[k]) {
        Some("assistant"@)
    } else {
        Some("user"@)
    }) by {
        assert(t[k] == message_json(s[k]));
    }
    let plain = list(field(t[i], "content"@));
    assert forall|k: int| 0 <= k < plain.len() implies plain[k] is Obj && !has_field(
        #[trigger] plain[k],
        "cache_control"@,
    ) by {
        assert(t[i] == message_json(s[i]));
        lemma_no_marker(s[i], k);
    }
    if exists|k: int| i < k < t.len() && (#[trigger] t[k]).at("role"@).as_str() == Some("user"@) {
        let k = choose|k: int|
            i < k < t.len() && (#[trigger] t[k]).at("role"@).as_str() == Some("user"@);
        assert(!is_answer(s[k]));
    } else {
        assert forall|k: int| i < k < s.len() implies is_answer(#[trigger] s[k]) by {
            assert(t[k].at("role"@).as_str() != Some("user"@));
        }
    }
}

proof fn lemma_no_marker(m: Message, k: int)
    requires
        0 <= k < list(field(message_json(m), "content"@)).len(),
    ensures
        ({
            let b = list(field(message_json(m), "content"@))[k];
            b is Obj && !has_field(b, "cache_control"@)
        }),
{
    lemma_block_keys();
    let s = list(field(message_json(m), "content"@));
    match m {
        Message::User { content } => {
            assert(s[k] == block_json(content@[k]));
        },
        Message::Assistant { content, tool_calls } => {
            if k < content@.len() {
                assert(s[k] == block_json(content@[k]));
            } else {
                assert(s[k] == tool_use_json(tool_calls@[k - content@.len()]));
            }
        },
        Message::Tool { .. } => {},
        Message::System { content } => {
            if k > 0 {
                assert(s[k] == block_json(content@[k - 1]));
            }
        },
    }
}

/// Whether no two tools have the same name.
pub open spec fn names_differ(tools: Seq<ToolSpec>) -> bool {
    forall|i: int, j: int|
        0 <= i < j < tools.len() ==> (#[trigger] tools[i]).name@ != (#[trigger] tools[j]).name@
}

/// Whether a tool has this name.
pub open spec fn has_tool(tools: Seq<ToolSpec>, name: Seq<char>) -> bool {
    exists|i: int| 0 <= i < tools.len() && (#[trigger] tools[i]).name@ == name
}

proof fn lemma_names(tools: Seq<ToolSpec>, name: Seq<char>)
    ensures
        tool_names(tools).contains(name) <==> has_tool(tools, name),
{
    let names = tool_names(tools);
    if names.contains(name) {
        let i = choose|i: int| 0 <= i < names.len() && names[i] == name;
        assert(tools[i].name@ == name);
    }
    if has_tool(tools, name) {
        let i = choose|i: int| 0 <= i < tools.len() && (#[trigger] tools[i]).name@ == name;
        assert(names[i] == name);
    }
}

proof fn lemma_repeats(tools: Seq<ToolSpec>)
    ensures
        first_repeat(tool_names(tools)) is None <==> names_differ(tools),
    decreases tools.len(),
{
    if tools.len() > 0 {
        let front = tools.drop_last();
        lemma_repeats(front);
        assert(tool_names(tools).drop_last() =~= tool_names(front));
        lemma_names(front, tools.last().name@);
        if names_differ(tools) {
            assert forall|i: int, j: int| 0 <= i < j < front.len() implies (
            #[trigger] front[i]).name@ != (#[trigger] front[j]).name@ by {
                assert(tools[i].name@ != tools[j].name@);
            }
            if has_tool(front, tools.last().name@) {
                let i = choose|i: int|
                    0 <= i < front.len() && (#[trigger] front[i]).name@ == tools.last().name@;
                assert(tools[i].name@ != tools[tools.len() - 1].name@);
            }
        } else if names_differ(front) {
            let (i, j) = choose|i: int, j: int|
                0 <= i < j < tools.len() && (#[trigger] tools[i]).name@ == (
                #[trigger] tools[j]).name@;
            if j < front.len() {
                assert(front[i].name@ != front[j].name@);
            }
            assert(front[i].name@ == tools.last().name@);
        }
    }
}

/// A request is refused for what is wrong with it and for nothing else: a model that is
/// not named, no turns, two tools of one name, a tool with the name of the one that asks
/// for a structure, no room for a reply, or the choice of a tool that is not there.
pub proof fn law_sound_requests_are_written(req: ChatRequest)
    ensures
        translated(req) is Ok <==> {
            &&& req.model is Explicit
            &&& req.messages@.len() > 0
            &&& names_differ(req.tools@)
            &&& req.structured_output is Some ==> !has_tool(req.tools@, "__respond_with__"@)
            &&& req.max_output_tokens != Some(0u32)
            &&& req.tool_choice matches ToolChoice::Specific(name) ==> req.structured_output is Some
                || req.tools@.len() == 0 || has_tool(req.tools@, name@)
        },
        translated(req) matches Err(e) ==> e is InvalidRequest,
{
    lemma_repeats(req.tools@);
    lemma_names(req.tools@, "__respond_with__"@);
    if let ToolChoice::Specific(name) = req.tool_choice {
        lemma_names(req.tools@, name@);
    }
}

} // verus!
