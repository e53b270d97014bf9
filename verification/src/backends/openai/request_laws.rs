//! What holds of the requests that are written for OpenAI.

use crate::backends::openai::adapter::{
    block_json, call_json, calls_json, content_json, has_empty_user_turn, message_json,
    messages_json, request_messages, tools_json, translated,
};
use crate::json::{number_view, serde_print, JsonView, NumView};
use crate::terms::{field, has_field, list};
use crate::text::part_at;
use crate::types::{
    ChatRequest, ContentBlock, ErrorView, ImageData, Message, ModelHint, ToolCall, ToolChoice,
    ToolSpec,
};
use vstd::prelude::*;
use vstd::string::*;

verus! {

/// Whether a block on the wire is a content block. An image that is not at a URL is put
/// in one.
pub open spec fn is_block(j: JsonView, b: ContentBlock) -> bool {
    match b {
        ContentBlock::Text { text } => field(j, "type"@) == JsonView::Str("text"@) && field(
            j,
            "text"@,
        ) == JsonView::Str(text@),
        ContentBlock::Image { mime, data } => field(j, "type"@) == JsonView::Str("image_url"@)
            && field(field(j, "image_url"@), "url"@) == JsonView::Str(
            match data {
                ImageData::Url(u) => u@,
                ImageData::Base64(d) => "data:"@ + mime@ + ";base64,"@ + d@,
            },
        ),
    }
}

/// Whether blocks on the wire are these blocks, one for one.
pub open spec fn are_blocks(s: Seq<JsonView>, blocks: Seq<ContentBlock>) -> bool {
    &&& s.len() == blocks.len()
    &&& forall|i: int| 0 <= i < blocks.len() ==> is_block(s[i], #[trigger] blocks[i])
}

/// Whether a call on the wire is this call. The arguments are a JSON text.
pub open spec fn is_call(j: JsonView, tc: ToolCall) -> bool {
    &&& field(j, "id"@) == JsonView::Str(tc.id@)
    &&& field(j, "type"@) == JsonView::Str("function"@)
    &&& field(field(j, "function"@), "name"@) == JsonView::Str(tc.name@)
    &&& field(field(j, "function"@), "arguments"@) == JsonView::Str(serde_print(tc.arguments@))
}

/// Whether a turn on the wire says what a message says. The result of a tool that failed
/// is marked ahead of its blocks.
pub open spec fn says(j: JsonView, m: Message) -> bool {
    let role = field(j, "role"@);
    let content = list(field(j, "content"@));
    let calls = list(field(j, "tool_calls"@));
    match m {
        Message::User { content: blocks } => role == JsonView::Str("user"@) && are_blocks(
            content,
            blocks@,
        ),
        Message::System { content: blocks } => role == JsonView::Str("system"@) && are_blocks(
            content,
            blocks@,
        ),
        Message::Assistant { content: blocks, tool_calls } => {
            &&& role == JsonView::Str("assistant"@)
            &&& are_blocks(content, blocks@)
            &&& has_field(j, "tool_calls"@) <==> tool_calls@.len() > 0
            &&& calls.len() == tool_calls@.len()
            &&& forall|i: int|
                0 <= i < tool_calls@.len() ==> is_call(calls[i], #[trigger] tool_calls@[i])
        },
        Message::Tool { tool_call_id, content: blocks, is_error } => {
            &&& role == JsonView::Str("tool"@)
            &&& field(j, "tool_call_id"@) == JsonView::Str(tool_call_id@)
            &&& !is_error ==> are_blocks(content, blocks@)
            &&& is_error ==> content.len() > 0 && field(content[0], "text"@) == JsonView::Str(
                "[tool execution failed]\n"@,
            ) && are_blocks(content.skip(1), blocks@)
        },
    }
}

proof fn lemma_block_keys()
    ensures
        "arguments"@ != "function"@,
        "arguments"@ != "id"@,
        "arguments"@ != "image_url"@,
        "arguments"@ != "name"@,
        "arguments"@ != "text"@,
        "arguments"@ != "type"@,
        "function"@ != "id"@,
        "function"@ != "image_url"@,
        "function"@ != "name"@,
        "function"@ != "text"@,
        "function"@ != "type"@,
        "id"@ != "image_url"@,
        "id"@ != "name"@,
        "id"@ != "text"@,
        "id"@ != "type"@,
        "image_url"@ != "name"@,
        "image_url"@ != "text"@,
        "image_url"@ != "type"@,
        "name"@ != "text"@,
        "name"@ != "type"@,
        "text"@ != "type"@,
{
    reveal_strlit("arguments");
    reveal_strlit("function");
    reveal_strlit("id");
    reveal_strlit("image_url");
    reveal_strlit("name");
    reveal_strlit("text");
    reveal_strlit("type");
    assert("arguments"@.len() == 9);
    assert("function"@.len() == 8);
    assert("id"@.len() == 2);
    assert("image_url"@.len() == 9);
    assert("name"@.len() == 4);
    assert("text"@.len() == 4);
    assert("type"@.len() == 4);
    assert("arguments"@[0] != "image_url"@[0]);
    assert("name"@[0] != "text"@[0]);
    assert("name"@[0] != "type"@[0]);
    assert("text"@[1] != "type"@[1]);
}

proof fn lemma_turn_keys()
    ensures
        "content"@ != "role"@,
        "content"@ != "tool_call_id"@,
        "content"@ != "tool_calls"@,
        "role"@ != "tool_call_id"@,
        "role"@ != "tool_calls"@,
        "tool_call_id"@ != "tool_calls"@,
{
    reveal_strlit("content");
    reveal_strlit("role");
    reveal_strlit("tool_call_id");
    reveal_strlit("tool_calls");
    assert("content"@.len() == 7);
    assert("role"@.len() == 4);
    assert("tool_call_id"@.len() == 12);
    assert("tool_calls"@.len() == 10);
}

proof fn lemma_body_keys()
    ensures
        "chat_template_kwargs"@ != "max_completion_tokens"@,
        "chat_template_kwargs"@ != "max_tokens"@,
        "chat_template_kwargs"@ != "messages"@,
        "chat_template_kwargs"@ != "model"@,
        "chat_template_kwargs"@ != "parallel_tool_calls"@,
        "chat_template_kwargs"@ != "response_format"@,
        "chat_template_kwargs"@ != "seed"@,
        "chat_template_kwargs"@ != "stop"@,
        "chat_template_kwargs"@ != "stream"@,
        "chat_template_kwargs"@ != "stream_options"@,
        "chat_template_kwargs"@ != "temperature"@,
        "chat_template_kwargs"@ != "tool_choice"@,
        "chat_template_kwargs"@ != "tools"@,
        "max_completion_tokens"@ != "max_tokens"@,
        "max_completion_tokens"@ != "messages"@,
        "max_completion_tokens"@ != "model"@,
        "max_completion_tokens"@ != "parallel_tool_calls"@,
        "max_completion_tokens"@ != "response_format"@,
        "max_completion_tokens"@ != "seed"@,
        "max_completion_tokens"@ != "stop"@,
        "max_completion_tokens"@ != "stream"@,
        "max_completion_tokens"@ != "stream_options"@,
        "max_completion_tokens"@ != "temperature"@,
        "max_completion_tokens"@ != "tool_choice"@,
        "max_completion_tokens"@ != "tools"@,
        "max_tokens"@ != "messages"@,
        "max_tokens"@ != "model"@,
        "max_tokens"@ != "parallel_tool_calls"@,
        "max_tokens"@ != "response_format"@,
        "max_tokens"@ != "seed"@,
        "max_tokens"@ != "stop"@,
        "max_tokens"@ != "stream"@,
        "max_tokens"@ != "stream_options"@,
        "max_tokens"@ != "temperature"@,
        "max_tokens"@ != "tool_choice"@,
        "max_tokens"@ != "tools"@,
        "messages"@ != "model"@,
        "messages"@ != "parallel_tool_calls"@,
        "messages"@ != "response_format"@,
        "messages"@ != "seed"@,
        "messages"@ != "stop"@,
        "messages"@ != "stream"@,
        "messages"@ != "stream_options"@,
        "messages"@ != "temperature"@,
        "messages"@ != "tool_choice"@,
        "messages"@ != "tools"@,
        "model"@ != "parallel_tool_calls"@,
        "model"@ != "response_format"@,
        "model"@ != "seed"@,
        "model"@ != "stop"@,
        "model"@ != "stream"@,
        "model"@ != "stream_options"@,
        "model"@ != "temperature"@,
        "model"@ != "tool_choice"@,
        "model"@ != "tools"@,
        "parallel_tool_calls"@ != "response_format"@,
        "parallel_tool_calls"@ != "seed"@,
        "parallel_tool_calls"@ != "stop"@,
        "parallel_tool_calls"@ != "stream"@,
        "parallel_tool_calls"@ != "stream_options"@,
        "parallel_tool_calls"@ != "temperature"@,
        "parallel_tool_calls"@ != "tool_choice"@,
        "parallel_tool_calls"@ != "tools"@,
        "response_format"@ != "seed"@,
        "response_format"@ != "stop"@,
        "response_format"@ != "stream"@,
        "response_format"@ != "stream_options"@,
        "response_format"@ != "temperature"@,
        "response_format"@ != "tool_choice"@,
        "response_format"@ != "tools"@,
        "seed"@ != "stop"@,
        "seed"@ != "stream"@,
        "seed"@ != "stream_options"@,
        "seed"@ != "temperature"@,
        "seed"@ != "tool_choice"@,
        "seed"@ != "tools"@,
        "stop"@ != "stream"@,
        "stop"@ != "stream_options"@,
        "stop"@ != "temperature"@,
        "stop"@ != "tool_choice"@,
        "stop"@ != "tools"@,
        "stream"@ != "stream_options"@,
        "stream"@ != "temperature"@,
        "stream"@ != "tool_choice"@,
        "stream"@ != "tools"@,
        "stream_options"@ != "temperature"@,
        "stream_options"@ != "tool_choice"@,
        "stream_options"@ != "tools"@,
        "temperature"@ != "tool_choice"@,
        "temperature"@ != "tools"@,
        "tool_choice"@ != "tools"@,
{
    reveal_strlit("chat_template_kwargs");
    reveal_strlit("max_completion_tokens");
    reveal_strlit("max_tokens");
    reveal_strlit("messages");
    reveal_strlit("model");
    reveal_strlit("parallel_tool_calls");
    reveal_strlit("response_format");
    reveal_strlit("seed");
    reveal_strlit("stop");
    reveal_strlit("stream");
    reveal_strlit("stream_options");
    reveal_strlit("temperature");
    reveal_strlit("tool_choice");
    reveal_strlit("tools");
    assert("chat_template_kwargs"@.len() == 20);
    assert("max_completion_tokens"@.len() == 21);
    assert("max_tokens"@.len() == 10);
    assert("messages"@.len() == 8);
    assert("model"@.len() == 5);
    assert("parallel_tool_calls"@.len() == 19);
    assert("response_format"@.len() == 15);
    assert("seed"@.len() == 4);
    assert("stop"@.len() == 4);
    assert("stream"@.len() == 6);
    assert("stream_options"@.len() == 14);
    assert("temperature"@.len() == 11);
    assert("tool_choice"@.len() == 11);
    assert("tools"@.len() == 5);
    assert("model"@[0] != "tools"@[0]);
    assert("seed"@[1] != "stop"@[1]);
    assert("temperature"@[1] != "tool_choice"@[1]);
}

proof fn lemma_tool_keys()
    ensures
        "description"@ != "function"@,
        "description"@ != "json_schema"@,
        "description"@ != "name"@,
        "description"@ != "parameters"@,
        "description"@ != "schema"@,
        "description"@ != "strict"@,
        "description"@ != "type"@,
        "function"@ != "json_schema"@,
        "function"@ != "name"@,
        "function"@ != "parameters"@,
        "function"@ != "schema"@,
        "function"@ != "strict"@,
        "function"@ != "type"@,
        "json_schema"@ != "name"@,
        "json_schema"@ != "parameters"@,
        "json_schema"@ != "schema"@,
        "json_schema"@ != "strict"@,
        "json_schema"@ != "type"@,
        "name"@ != "parameters"@,
        "name"@ != "schema"@,
        "name"@ != "strict"@,
        "name"@ != "type"@,
        "parameters"@ != "schema"@,
        "parameters"@ != "strict"@,
        "parameters"@ != "type"@,
        "schema"@ != "strict"@,
        "schema"@ != "type"@,
        "strict"@ != "type"@,
{
    reveal_strlit("description");
    reveal_strlit("function");
    reveal_strlit("json_schema");
    reveal_strlit("name");
    reveal_strlit("parameters");
    reveal_strlit("schema");
    reveal_strlit("strict");
    reveal_strlit("type");
    assert("description"@.len() == 11);
    assert("function"@.len() == 8);
    assert("json_schema"@.len() == 11);
    assert("name"@.len() == 4);
    assert("parameters"@.len() == 10);
    assert("schema"@.len() == 6);
    assert("strict"@.len() == 6);
    assert("type"@.len() == 4);
    assert("description"@[0] != "json_schema"@[0]);
    assert("name"@[0] != "type"@[0]);
    assert("schema"@[1] != "strict"@[1]);
}

proof fn lemma_blocks_written(blocks: Seq<ContentBlock>)
    ensures
        are_blocks(content_json(blocks), blocks),
{
    lemma_block_keys();
    assert forall|i: int| 0 <= i < blocks.len() implies is_block(
        content_json(blocks)[i],
        #[trigger] blocks[i],
    ) by {
        assert(content_json(blocks)[i] == block_json(blocks[i]));
    }
}

proof fn lemma_message_said(m: Message)
    ensures
        says(message_json(m), m),
{
    lemma_turn_keys();
    lemma_block_keys();
    match m {
        Message::User { content } => lemma_blocks_written(content@),
        Message::System { content } => lemma_blocks_written(content@),
        Message::Assistant { content, tool_calls } => {
            lemma_blocks_written(content@);
            let calls = list(field(message_json(m), "tool_calls"@));
            assert(calls =~= calls_json(tool_calls@));
            assert forall|i: int| 0 <= i < tool_calls@.len() implies is_call(
                calls[i],
                #[trigger] tool_calls@[i],
            ) by {
                assert(calls[i] == call_json(tool_calls@[i]));
            }
        },
        Message::Tool { tool_call_id, content, is_error } => {
            lemma_blocks_written(content@);
            let s = list(field(message_json(m), "content"@));
            if is_error {
                assert(s.skip(1) =~= content_json(content@));
            }
        },
    }
}

/// The turns that are sent: a system prompt takes the place of all system turns.
pub open spec fn sent(s: Seq<Message>, has_prompt: bool) -> Seq<Message>
    decreases s.len(),
{
    if s.len() == 0 {
        seq![]
    } else if has_prompt && s.last() is System {
        sent(s.drop_last(), has_prompt)
    } else {
        sent(s.drop_last(), has_prompt).push(s.last())
    }
}

/// Whether turns on the wire say what these messages say, one for one.
pub open spec fn all_say(s: Seq<JsonView>, messages: Seq<Message>) -> bool {
    s.len() == messages.len() && forall|i: int|
        0 <= i < messages.len() ==> says(s[i], #[trigger] messages[i])
}

proof fn lemma_messages_said(s: Seq<Message>, has_prompt: bool)
    ensures
        all_say(messages_json(s, has_prompt), sent(s, has_prompt)),
    decreases s.len(),
{
    if s.len() > 0 {
        lemma_messages_said(s.drop_last(), has_prompt);
        lemma_message_said(s.last());
        let before = messages_json(s.drop_last(), has_prompt);
        let out = messages_json(s, has_prompt);
        let kept = sent(s, has_prompt);
        assert forall|i: int| 0 <= i < kept.len() implies says(out[i], #[trigger] kept[i]) by {
            if i < before.len() {
                assert(kept[i] == sent(s.drop_last(), has_prompt)[i]);
                assert(out[i] == before[i]);
            }
        }
    }
}

/// All turns are sent where there is no system prompt, and with one all that are not the
/// system's, in their order.
pub proof fn law_no_turn_is_left_out(s: Seq<Message>, has_prompt: bool)
    ensures
        sent(s, has_prompt) == s.filter(|m: Message| !(has_prompt && m is System)),
    decreases s.len(),
{
    reveal(Seq::filter);
    if s.len() > 0 {
        law_no_turn_is_left_out(s.drop_last(), has_prompt);
    }
}

/// A request is written as it is: the system prompt first, then each turn with its
/// blocks, its calls or its result, and the settings; and what the request does not
/// have, the body does not have either.
pub proof fn law_request_is_written(req: ChatRequest, body: JsonView)
    requires
        translated(req) == Ok::<JsonView, ErrorView>(body),
    ensures
        req.model matches ModelHint::Explicit(m) && field(body, "model"@) == JsonView::Str(m@),
        match req.system {
            Some(s) => list(field(body, "messages"@)).len() > 0 && field(
                list(field(body, "messages"@))[0],
                "role"@,
            ) == JsonView::Str("system"@) && are_blocks(
                list(field(list(field(body, "messages"@))[0], "content"@)),
                seq![ContentBlock::Text { text: s }],
            ) && all_say(list(field(body, "messages"@)).skip(1), sent(req.messages@, true)),
            None => all_say(list(field(body, "messages"@)), sent(req.messages@, false)),
        },
        match req.temperature {
            Some(t) => field(body, "temperature"@) == JsonView::Num(number_view(t)),
            None => !has_field(body, "temperature"@),
        },
        match req.seed {
            Some(n) => field(body, "seed"@) == JsonView::Num(NumView::Int(n as int)),
            None => !has_field(body, "seed"@),
        },
        has_field(body, "stop"@) <==> req.stop_sequences@.len() > 0,
        list(field(body, "stop"@)).len() == req.stop_sequences@.len(),
        forall|i: int|
            0 <= i < req.stop_sequences@.len() ==> list(field(body, "stop"@))[i] == JsonView::Str(
                (#[trigger] req.stop_sequences@[i])@,
            ),
        match req.structured_output {
            Some(s) => {
                let format = field(field(body, "response_format"@), "json_schema"@);
                &&& field(field(body, "response_format"@), "type"@) == JsonView::Str("json_schema"@)
                &&& field(format, "schema"@) == s.schema@
                &&& field(format, "strict"@) == JsonView::Bool(s.strict)
                &&& s.name matches Some(n) ==> field(format, "name"@) == JsonView::Str(n@)
                &&& field(format, "name"@) is Str
            },
            None => !has_field(body, "response_format"@),
        },
        match req.enable_chat_template_thinking {
            Some(on) => field(field(body, "chat_template_kwargs"@), "enable_thinking"@)
                == JsonView::Bool(on),
            None => !has_field(body, "chat_template_kwargs"@),
        },
        field(body, "stream"@) == JsonView::Bool(true),
        field(field(body, "stream_options"@), "include_usage"@) == JsonView::Bool(true),
{
    lemma_body_keys();
    lemma_turn_keys();
    lemma_block_keys();
    lemma_tool_keys();
    lemma_messages_said(req.messages@, req.system is Some);
    let s = list(field(body, "messages"@));
    assert(s =~= request_messages(req));
    if let Some(p) = req.system {
        assert(s.skip(1) =~= messages_json(req.messages@, true));
        let blocks = seq![ContentBlock::Text { text: p }];
        lemma_blocks_written(blocks);
        assert(list(field(s[0], "content"@)) =~= content_json(blocks));
    }
}

/// Whether a model's name begins with this.
pub open spec fn is_of(model: Seq<char>, family: Seq<char>) -> bool {
    family.len() <= model.len() && model.take(family.len() as int) == family
}

proof fn lemma_family(model: Seq<char>, family: Seq<char>)
    ensures
        part_at(model, family, 0) <==> is_of(model, family),
{
    if family.len() <= model.len() {
        assert(model.subrange(0, family.len() as int) =~= model.take(family.len() as int));
    }
}

/// The limit of the output is written under the one name that the model takes.
pub proof fn law_limit_is_written(req: ChatRequest, body: JsonView, model: Seq<char>)
    requires
        translated(req) == Ok::<JsonView, ErrorView>(body),
        field(body, "model"@) == JsonView::Str(model),
    ensures
        ({
            let newer = is_of(model, "gpt-5"@) || is_of(model, "o1"@) || is_of(model, "o3"@)
                || is_of(model, "o4"@);
            let limit = match req.max_output_tokens {
                Some(n) => JsonView::Num(NumView::Int(n as int)),
                None => JsonView::Null,
            };
            &&& has_field(body, "max_completion_tokens"@) <==> newer && req.max_output_tokens is Some
            &&& has_field(body, "max_tokens"@) <==> !newer && req.max_output_tokens is Some
            &&& newer ==> field(body, "max_completion_tokens"@) == limit
            &&& !newer ==> field(body, "max_tokens"@) == limit
        }),
{
    lemma_body_keys();
    lemma_family(model, "gpt-5"@);
    lemma_family(model, "o1"@);
    lemma_family(model, "o3"@);
    lemma_family(model, "o4"@);
}

/// Whether a tool on the wire is this tool.
pub open spec fn is_tool(j: JsonView, t: ToolSpec) -> bool {
    let f = field(j, "function"@);
    &&& field(j, "type"@) == JsonView::Str("function"@)
    &&& field(f, "name"@) == JsonView::Str(t.name@)
    &&& field(f, "description"@) == JsonView::Str(t.description@)
    &&& field(f, "parameters"@) == t.input_schema.schema@
    &&& field(f, "strict"@) == JsonView::Bool(t.input_schema.strict)
}

/// Whether the choice of a tool on the wire is this one.
pub open spec fn choice_is(c: JsonView, choice: ToolChoice) -> bool {
    match choice {
        ToolChoice::Auto => c == JsonView::Str("auto"@),
        ToolChoice::NoTool => c == JsonView::Str("none"@),
        ToolChoice::Required => c == JsonView::Str("required"@),
        ToolChoice::Specific(name) => field(c, "type"@) == JsonView::Str("function"@) && field(
            field(c, "function"@),
            "name"@,
        ) == JsonView::Str(name@),
    }
}

/// The tools of a request are written one for one, with the choice among them.
pub proof fn law_tools_are_written(req: ChatRequest, body: JsonView)
    requires
        translated(req) == Ok::<JsonView, ErrorView>(body),
    ensures
        has_field(body, "tools"@) <==> req.tools@.len() > 0,
        has_field(body, "tool_choice"@) <==> req.tools@.len() > 0,
        list(field(body, "tools"@)).len() == req.tools@.len(),
        forall|i: int|
            0 <= i < req.tools@.len() ==> is_tool(
                list(field(body, "tools"@))[i],
                #[trigger] req.tools@[i],
            ),
        req.tools@.len() > 0 ==> choice_is(field(body, "tool_choice"@), req.tool_choice),
        has_field(body, "parallel_tool_calls"@) <==> exists|i: int|
            0 <= i < req.tools@.len() && (#[trigger] req.tools@[i]).input_schema.strict,
{
    lemma_body_keys();
    lemma_tool_keys();
    let tools = list(field(body, "tools"@));
    if req.tools@.len() > 0 {
        assert(tools =~= tools_json(req.tools@));
    }
}

/// A request is refused if its model is not named or a turn of the user says nothing, and
/// for no other reason.
pub proof fn law_sound_requests_are_written(req: ChatRequest)
    ensures
        translated(req) is Ok <==> req.model is Explicit && forall|i: int|
            0 <= i < req.messages@.len() ==> (#[trigger] req.messages@[i] matches Message::User {
                content,
            } ==> content@.len() > 0),
        translated(req) matches Err(e) ==> e is InvalidRequest,
{
    let s = req.messages@;
    if !has_empty_user_turn(s) {
        assert forall|i: int| 0 <= i < s.len() implies (#[trigger] s[i] matches Message::User {
            content,
        } ==> content@.len() > 0) by {}
    }
}

} // verus!
