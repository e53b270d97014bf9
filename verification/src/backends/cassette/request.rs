//! The text of a request, over which its fingerprint is taken.

use crate::backends::cassette::fingerprint::{
    ends_path, fingerprint, fingerprint_of, lemma_next_part, lemma_path_start, next_part,
    normalize_volatile, normalized, path_start, NEEDLE,
};
use crate::backends::cassette::request_laws::reads_back;
use crate::json::{
    has_member, items_view, jint, jstr, number_view, opens_object, plain, print_json, push_item,
    serde_print, str_array, str_items, Json, JsonView, MAX_DEPTH,
};
use crate::text::{has_part, part_at};
use crate::types::{
    CacheDirective, ChatRequest, ContentBlock, ImageData, JsonSchema, Message, ModelHint,
    ThinkingMode, ToolCall, ToolChoice, ToolSpec,
};
use vstd::prelude::*;
use vstd::string::*;

verus! {

/// An object with one member.
pub open spec fn member(key: Seq<char>, value: JsonView) -> JsonView {
    JsonView::Obj(Map::empty().insert(key, value))
}

/// An object with one member more.
pub open spec fn also(v: JsonView, key: Seq<char>, value: JsonView) -> JsonView {
    JsonView::Obj(v->Obj_0.insert(key, value))
}

/// An optional string: null where there is none.
pub open spec fn opt_str_value(o: Option<String>) -> JsonView {
    match o {
        Some(s) => jstr(s@),
        None => JsonView::Null,
    }
}

/// One block of a message.
pub open spec fn block_value(b: ContentBlock) -> JsonView {
    match b {
        ContentBlock::Text { text } => also(member("type"@, jstr("text"@)), "text"@, jstr(text@)),
        ContentBlock::Image { mime, data } => also(
            also(member("type"@, jstr("image"@)), "mime"@, jstr(mime@)),
            "data"@,
            match data {
                ImageData::Url(u) => member("url"@, jstr(u@)),
                ImageData::Base64(s) => member("base64"@, jstr(s@)),
            },
        ),
    }
}

/// The blocks of a message.
pub open spec fn blocks_value(s: Seq<ContentBlock>) -> JsonView {
    JsonView::Arr(s.map_values(|b: ContentBlock| block_value(b)))
}

/// A tool call.
pub open spec fn call_value(c: ToolCall) -> JsonView {
    also(
        also(member("id"@, jstr(c.id@)), "name"@, jstr(c.name@)),
        "arguments"@,
        c.arguments@,
    )
}

/// The tool calls of a message.
pub open spec fn calls_value(s: Seq<ToolCall>) -> JsonView {
    JsonView::Arr(s.map_values(|c: ToolCall| call_value(c)))
}

/// One message.
pub open spec fn message_value(m: Message) -> JsonView {
    match m {
        Message::User { content } => also(
            member("role"@, jstr("user"@)),
            "content"@,
            blocks_value(content@),
        ),
        Message::Assistant { content, tool_calls } => also(
            also(member("role"@, jstr("assistant"@)), "content"@, blocks_value(content@)),
            "tool_calls"@,
            calls_value(tool_calls@),
        ),
        Message::Tool { tool_call_id, content, is_error } => also(
            also(
                also(member("role"@, jstr("tool"@)), "content"@, blocks_value(content@)),
                "tool_call_id"@,
                jstr(tool_call_id@),
            ),
            "is_error"@,
            JsonView::Bool(is_error),
        ),
        Message::System { content } => also(
            member("role"@, jstr("system"@)),
            "content"@,
            blocks_value(content@),
        ),
    }
}

/// A JSON schema.
pub open spec fn schema_value(s: JsonSchema) -> JsonView {
    also(
        also(member("name"@, opt_str_value(s.name)), "schema"@, s.schema@),
        "strict"@,
        JsonView::Bool(s.strict),
    )
}

/// A tool.
pub open spec fn tool_value(t: ToolSpec) -> JsonView {
    also(
        also(member("name"@, jstr(t.name@)), "description"@, jstr(t.description@)),
        "input_schema"@,
        schema_value(t.input_schema),
    )
}

/// The choice of a tool.
pub open spec fn choice_value(c: ToolChoice) -> JsonView {
    match c {
        ToolChoice::Auto => jstr("auto"@),
        ToolChoice::NoTool => jstr("none"@),
        ToolChoice::Required => jstr("required"@),
        ToolChoice::Specific(name) => member("specific"@, jstr(name@)),
    }
}

/// A cache directive.
pub open spec fn directive_value(d: CacheDirective) -> JsonView {
    match d {
        CacheDirective::MarkBoundary { ttl_ms } => member(
            "mark_boundary"@,
            member("ttl_ms"@, jint(ttl_ms as int)),
        ),
        CacheDirective::UseExplicit { handle } => member(
            "use_explicit"@,
            member("external_id"@, jstr(handle.external_id@)),
        ),
    }
}

/// The thinking mode.
pub open spec fn thinking_value(t: ThinkingMode) -> JsonView {
    match t {
        ThinkingMode::Off => jstr("off"@),
        ThinkingMode::Auto => jstr("auto"@),
        ThinkingMode::Budget(n) => member("budget"@, jint(n as int)),
    }
}

/// The model that a request asks for.
pub open spec fn hint_value(h: ModelHint) -> JsonView {
    match h {
        ModelHint::Explicit(m) => member("explicit"@, jstr(m@)),
        ModelHint::Tier(t) => member("tier"@, jstr(t@)),
    }
}

/// The content of a request: what is said and what is offered.
pub open spec fn content_value(req: ChatRequest) -> JsonView {
    let v1 = member("model"@, hint_value(req.model));
    let v2 = also(v1, "system"@, opt_str_value(req.system));
    let v3 = also(
        v2,
        "messages"@,
        JsonView::Arr(req.messages@.map_values(|m: Message| message_value(m))),
    );
    let v4 = also(
        v3,
        "tools"@,
        JsonView::Arr(req.tools@.map_values(|t: ToolSpec| tool_value(t))),
    );
    let v5 = also(v4, "tool_choice"@, choice_value(req.tool_choice));
    also(
        v5,
        "structured_output"@,
        match req.structured_output {
            Some(s) => schema_value(s),
            None => JsonView::Null,
        },
    )
}

/// A request as a JSON value: its content and its settings.
pub open spec fn request_value(req: ChatRequest) -> JsonView {
    let v1 = also(
        content_value(req),
        "max_output_tokens"@,
        match req.max_output_tokens {
            Some(n) => jint(n as int),
            None => JsonView::Null,
        },
    );
    let v2 = also(
        v1,
        "temperature"@,
        match req.temperature {
            Some(n) => JsonView::Num(number_view(n)),
            None => JsonView::Null,
        },
    );
    let v3 = also(v2, "stop_sequences"@, JsonView::Arr(str_items(req.stop_sequences@)));
    let v4 = also(
        v3,
        "seed"@,
        match req.seed {
            Some(n) => jint(n as int),
            None => JsonView::Null,
        },
    );
    let v5 = also(
        v4,
        "cache_directives"@,
        JsonView::Arr(req.cache_directives@.map_values(|d: CacheDirective| directive_value(d))),
    );
    let v6 = also(v5, "thinking"@, thinking_value(req.thinking));
    also(
        v6,
        "enable_chat_template_thinking"@,
        match req.enable_chat_template_thinking {
            Some(b) => JsonView::Bool(b),
            None => JsonView::Null,
        },
    )
}

/// The text of a request to a model, with every path still in it.
pub open spec fn plain_text(model: Seq<char>, body: Seq<char>) -> Seq<char> {
    ("model="@ + model).push('\0') + body
}

/// The text of a request, over which its fingerprint is taken.
pub open spec fn canon(req: ChatRequest, model: Seq<char>) -> Seq<char> {
    normalized(plain_text(model, serde_print(request_value(req))))
}

/// An object with one member.
pub fn member_json(key: &str, value: Json) -> (r: Json)
    ensures
        r@ == member(key@, value@),
{
    Json::object().with(key, value)
}

fn opt_str_json(o: &Option<String>) -> (r: Json)
    ensures
        r@ == opt_str_value(*o),
{
    match o {
        Some(s) => Json::text(s.as_str()),
        None => Json::Null,
    }
}

fn block_json(b: &ContentBlock) -> (r: Json)
    ensures
        r@ == block_value(*b),
{
    match b {
        ContentBlock::Text { text } => member_json("type", Json::text("text")).with(
            "text",
            Json::text(text.as_str()),
        ),
        ContentBlock::Image { mime, data } => {
            let data_json: Json = match data {
                ImageData::Url(u) => member_json("url", Json::text(u.as_str())),
                ImageData::Base64(s) => member_json("base64", Json::text(s.as_str())),
            };
            member_json("type", Json::text("image")).with("mime", Json::text(mime.as_str())).with(
                "data",
                data_json,
            )
        },
    }
}

fn blocks_json(s: &Vec<ContentBlock>) -> (r: Json)
    ensures
        r@ == blocks_value(s@),
{
    let ghost whole = blocks_value(s@)->Arr_0;
    let mut out: Vec<Json> = Vec::new();
    let mut i: usize = 0;
    assert(items_view(out@) =~= whole.take(0));
    while i < s.len()
        invariant
            i <= s@.len(),
            whole == blocks_value(s@)->Arr_0,
            items_view(out@) == whole.take(i as int),
        decreases s@.len() - i,
    {
        push_item(&mut out, block_json(&s[i]));
        assert(whole.take(i + 1) =~= whole.take(i as int).push(block_value(s@[i as int])));
        i += 1;
    }
    assert(whole.take(s@.len() as int) =~= whole);
    Json::Arr(out)
}

fn call_json(c: &ToolCall) -> (r: Json)
    ensures
        r@ == call_value(*c),
{
    member_json("id", Json::text(c.id.as_str())).with("name", Json::text(c.name.as_str())).with(
        "arguments",
        c.arguments.clone(),
    )
}

fn calls_json(s: &Vec<ToolCall>) -> (r: Json)
    ensures
        r@ == calls_value(s@),
{
    let ghost whole = calls_value(s@)->Arr_0;
    let mut out: Vec<Json> = Vec::new();
    let mut i: usize = 0;
    assert(items_view(out@) =~= whole.take(0));
    while i < s.len()
        invariant
            i <= s@.len(),
            whole == calls_value(s@)->Arr_0,
            items_view(out@) == whole.take(i as int),
        decreases s@.len() - i,
    {
        push_item(&mut out, call_json(&s[i]));
        assert(whole.take(i + 1) =~= whole.take(i as int).push(call_value(s@[i as int])));
        i += 1;
    }
    assert(whole.take(s@.len() as int) =~= whole);
    Json::Arr(out)
}

fn message_json(m: &Message) -> (r: Json)
    ensures
        r@ == message_value(*m),
{
    match m {
        Message::User { content } => member_json("role", Json::text("user")).with(
            "content",
            blocks_json(content),
        ),
        Message::Assistant { content, tool_calls } => member_json(
            "role",
            Json::text("assistant"),
        ).with("content", blocks_json(content)).with("tool_calls", calls_json(tool_calls)),
        Message::Tool { tool_call_id, content, is_error } => member_json(
            "role",
            Json::text("tool"),
        ).with("content", blocks_json(content)).with(
            "tool_call_id",
            Json::text(tool_call_id.as_str()),
        ).with("is_error", Json::Bool(*is_error)),
        Message::System { content } => member_json("role", Json::text("system")).with(
            "content",
            blocks_json(content),
        ),
    }
}

fn messages_json(s: &Vec<Message>) -> (r: Json)
    ensures
        r@ == JsonView::Arr(s@.map_values(|m: Message| message_value(m))),
{
    let ghost whole = s@.map_values(|m: Message| message_value(m));
    let mut out: Vec<Json> = Vec::new();
    let mut i: usize = 0;
    assert(items_view(out@) =~= whole.take(0));
    while i < s.len()
        invariant
            i <= s@.len(),
            whole == s@.map_values(|m: Message| message_value(m)),
            items_view(out@) == whole.take(i as int),
        decreases s@.len() - i,
    {
        push_item(&mut out, message_json(&s[i]));
        assert(whole.take(i + 1) =~= whole.take(i as int).push(message_value(s@[i as int])));
        i += 1;
    }
    assert(whole.take(s@.len() as int) =~= whole);
    Json::Arr(out)
}

fn schema_json(s: &JsonSchema) -> (r: Json)
    ensures
        r@ == schema_value(*s),
{
    member_json("name", opt_str_json(&s.name)).with("schema", s.schema.clone()).with(
        "strict",
        Json::Bool(s.strict),
    )
}

fn tools_json(s: &Vec<ToolSpec>) -> (r: Json)
    ensures
        r@ == JsonView::Arr(s@.map_values(|t: ToolSpec| tool_value(t))),
{
    let ghost whole = s@.map_values(|t: ToolSpec| tool_value(t));
    let mut out: Vec<Json> = Vec::new();
    let mut i: usize = 0;
    assert(items_view(out@) =~= whole.take(0));
    while i < s.len()
        invariant
            i <= s@.len(),
            whole == s@.map_values(|t: ToolSpec| tool_value(t)),
            items_view(out@) == whole.take(i as int),
        decreases s@.len() - i,
    {
        let t: &ToolSpec = &s[i];
        push_item(
            &mut out,
            member_json("name", Json::text(t.name.as_str())).with(
                "description",
                Json::text(t.description.as_str()),
            ).with("input_schema", schema_json(&t.input_schema)),
        );
        assert(whole.take(i + 1) =~= whole.take(i as int).push(tool_value(s@[i as int])));
        i += 1;
    }
    assert(whole.take(s@.len() as int) =~= whole);
    Json::Arr(out)
}

fn directives_json(s: &Vec<CacheDirective>) -> (r: Json)
    ensures
        r@ == JsonView::Arr(s@.map_values(|d: CacheDirective| directive_value(d))),
{
    let ghost whole = s@.map_values(|d: CacheDirective| directive_value(d));
    let mut out: Vec<Json> = Vec::new();
    let mut i: usize = 0;
    assert(items_view(out@) =~= whole.take(0));
    while i < s.len()
        invariant
            i <= s@.len(),
            whole == s@.map_values(|d: CacheDirective| directive_value(d)),
            items_view(out@) == whole.take(i as int),
        decreases s@.len() - i,
    {
        let one: Json = match &s[i] {
            CacheDirective::MarkBoundary { ttl_ms } => member_json(
                "mark_boundary",
                member_json("ttl_ms", Json::Uint(*ttl_ms)),
            ),
            CacheDirective::UseExplicit { handle } => member_json(
                "use_explicit",
                member_json("external_id", Json::text(handle.external_id.as_str())),
            ),
        };
        push_item(&mut out, one);
        assert(whole.take(i + 1) =~= whole.take(i as int).push(directive_value(s@[i as int])));
        i += 1;
    }
    assert(whole.take(s@.len() as int) =~= whole);
    Json::Arr(out)
}

fn content_json(req: &ChatRequest) -> (r: Json)
    ensures
        r@ == content_value(*req),
{
    let hint: Json = match &req.model {
        ModelHint::Explicit(m) => member_json("explicit", Json::text(m.as_str())),
        ModelHint::Tier(t) => member_json("tier", Json::text(t.as_str())),
    };
    let choice: Json = match &req.tool_choice {
        ToolChoice::Auto => Json::text("auto"),
        ToolChoice::NoTool => Json::text("none"),
        ToolChoice::Required => Json::text("required"),
        ToolChoice::Specific(name) => member_json("specific", Json::text(name.as_str())),
    };
    let output: Json = match &req.structured_output {
        Some(s) => schema_json(s),
        None => Json::Null,
    };
    member_json("model", hint).with("system", opt_str_json(&req.system)).with(
        "messages",
        messages_json(&req.messages),
    ).with("tools", tools_json(&req.tools)).with("tool_choice", choice).with(
        "structured_output",
        output,
    )
}

/// A request as a JSON value.
pub fn request_json(req: &ChatRequest) -> (r: Json)
    ensures
        r@ == request_value(*req),
{
    let tokens: Json = match req.max_output_tokens {
        Some(n) => Json::Uint(n as u64),
        None => Json::Null,
    };
    let temperature: Json = match &req.temperature {
        Some(n) => Json::Num(n.clone()),
        None => Json::Null,
    };
    let seed: Json = match req.seed {
        Some(n) => Json::Uint(n),
        None => Json::Null,
    };
    let thinking: Json = match req.thinking {
        ThinkingMode::Off => Json::text("off"),
        ThinkingMode::Auto => Json::text("auto"),
        ThinkingMode::Budget(n) => member_json("budget", Json::Uint(n as u64)),
    };
    let template: Json = match req.enable_chat_template_thinking {
        Some(b) => Json::Bool(b),
        None => Json::Null,
    };
    content_json(req).with("max_output_tokens", tokens).with("temperature", temperature).with(
        "stop_sequences",
        str_array(&req.stop_sequences),
    ).with("seed", seed).with("cache_directives", directives_json(&req.cache_directives)).with(
        "thinking",
        thinking,
    ).with("enable_chat_template_thinking", template)
}

/// Whether the name of a model can be told in the text of a request: it is free of the
/// character that ends it there and of the path that is replaced.
pub open spec fn is_plain_model(model: Seq<char>) -> bool {
    !model.contains('\0') && !has_part(model, NEEDLE@)
}

/// How the text of a request to a model begins.
pub open spec fn model_head(model: Seq<char>) -> Seq<char> {
    "model="@ + model + seq!['\0']
}

/// Whether a text begins with another one.
pub open spec fn begins_with(s: Seq<char>, head: Seq<char>) -> bool {
    s.len() >= head.len() && s.take(head.len() as int) == head
}

/// The exact text over which the fingerprint of a request is taken: the model and
/// the request, with the paths that vary from run to run replaced. It begins with the
/// model, and the same request to another model has another text.
pub fn canon_request(req: &ChatRequest, model: &str) -> (r: String)
    ensures
        r@ == canon(*req, model@),
        plain(request_value(*req), MAX_DEPTH as nat) ==> reads_back(*req),
        is_plain_model(model@) ==> begins_with(r@, model_head(model@)),
        forall|other: Seq<char>|
            is_plain_model(model@) && is_plain_model(other) && other != model@ ==> #[trigger] canon(
                *req,
                other,
            ) != r@,
{
    let body: String = print_json(&request_json(req));
    let mut text: String = "model=".to_owned();
    text.append(model);
    text.push('\0');
    text.append(body.as_str());
    proof {
        assert(request_value(*req)->Obj_0.contains_key("enable_chat_template_thinking"@));
        assert(has_member(request_value(*req)));
        if is_plain_model(model@) {
            lemma_model_kept(model@, body@);
            assert forall|other: Seq<char>|
                is_plain_model(other) && other != model@ implies #[trigger] canon(*req, other)
                != canon(*req, model@) by {
                lemma_model_kept(other, body@);
                law_models_kept_apart(canon(*req, model@), model@, canon(*req, other), other);
            }
        }
    }
    normalize_volatile(text.as_str())
}

/// The fingerprint of a request.
pub fn request_fingerprint(req: &ChatRequest, model: &str) -> (r: String)
    ensures
        r@ == fingerprint(canon(*req, model@)),
{
    fingerprint_of(canon_request(req, model).as_str())
}

/// Replacing paths leaves alone what stands before the first of them, up to the
/// last delimiter.
pub proof fn lemma_front_kept(s: Seq<char>, p: int)
    requires
        0 < p <= s.len(),
        ends_path(s[p - 1]),
        forall|j: int| 0 <= j < p ==> !part_at(s, NEEDLE@, j),
    ensures
        normalized(s).len() >= p,
        normalized(s).take(p) == s.take(p),
{
    lemma_next_part(s, NEEDLE@, 0);
    match next_part(s, NEEDLE@, 0) {
        None => {
            assert(s.skip(0) =~= s);
        },
        Some(k) => {
            lemma_stops_at(s, p, k);
            lemma_path_start(s, 0, k);
            assert(normalized(s).take(p) =~= s.take(p));
        },
    }
}

/// The start of a path is not before a delimiter.
proof fn lemma_stops_at(s: Seq<char>, p: int, at: int)
    requires
        0 < p <= at,
        ends_path(s[p - 1]),
    ensures
        path_start(s, 0, at) >= p,
    decreases at,
{
    if p < at && !ends_path(s[at - 1]) {
        lemma_stops_at(s, p, at - 1);
    }
}

proof fn lemma_needle_chars()
    ensures
        NEEDLE@.len() == 14,
        forall|i: int|
            0 <= i < 14 ==> NEEDLE@[i] != '"' && NEEDLE@[i] != '\0' && NEEDLE@[i] != '=',
{
    reveal_strlit("worktrees/fix-");
}

proof fn lemma_model_kept(model: Seq<char>, body: Seq<char>)
    requires
        !has_part(model, NEEDLE@),
        opens_object(body),
    ensures
        begins_with(normalized(plain_text(model, body)), model_head(model)),
{
    reveal_strlit("model=");
    lemma_needle_chars();
    let s = plain_text(model, body);
    let q: int = model.len() + 6int;
    assert(s[q] == '\0');
    assert(s[q + 1] == '{');
    assert(s[q + 2] == '"');
    assert(s[5] == '=');
    assert forall|j: int| 0 <= j < q + 3 implies !part_at(s, NEEDLE@, j) by {
        if part_at(s, NEEDLE@, j) {
            let part = s.subrange(j, j + 14);
            if j + 14 > q + 2 {
                assert(part[q + 2 - j] == '"');
            } else if j + 14 > q {
                assert(part[q - j] == '\0');
            } else if j <= 5 {
                assert(part[5 - j] == '=');
            } else {
                assert(model.subrange(j - 6, j - 6 + 14) =~= part);
                assert(part_at(model, NEEDLE@, j - 6));
            }
        }
    }
    lemma_front_kept(s, q + 3);
    let n = normalized(s);
    assert forall|i: int| 0 <= i < q + 3 implies n[i] == s[i] by {
        assert(n.take(q + 3)[i] == s.take(q + 3)[i]);
    }
    assert(n.take(q + 1) =~= model_head(model));
}

/// The model takes part in the text of a request: texts that begin with different
/// models are different, whatever follows.
pub proof fn law_models_kept_apart(
    text1: Seq<char>,
    model1: Seq<char>,
    text2: Seq<char>,
    model2: Seq<char>,
)
    requires
        model1 != model2,
        !model1.contains('\0'),
        !model2.contains('\0'),
        begins_with(text1, model_head(model1)),
        begins_with(text2, model_head(model2)),
    ensures
        text1 != text2,
{
    reveal_strlit("model=");
    if text1 == text2 {
        let h1 = model_head(model1);
        let h2 = model_head(model2);
        assert forall|i: int| 0 <= i < h1.len() && i < h2.len() implies h1[i] == h2[i] by {
            assert(text1.take(h1.len() as int)[i] == text2.take(h2.len() as int)[i]);
        }
        assert forall|i: int| 0 <= i < model1.len() && i < model2.len() implies model1[i]
            == model2[i] by {
            assert(h1[i + 6] == h2[i + 6]);
        }
        if model1.len() < model2.len() {
            assert(h1[model1.len() + 6int] == h2[model1.len() + 6int]);
            assert(model2[model1.len() as int] == '\0');
        } else if model2.len() < model1.len() {
            assert(h1[model2.len() + 6int] == h2[model2.len() + 6int]);
            assert(model1[model2.len() as int] == '\0');
        } else {
            assert(model1 =~= model2);
        }
    }
}

} // verus!
