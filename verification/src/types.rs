//! The vendor-neutral chat model: requests, messages, events, responses and
//! errors that every backend translates to and from.

use serde_json::Number;

use crate::json::{Json, JsonView};
use vstd::prelude::*;
use vstd::string::*;

verus! {

/// Why a reply ended.
#[derive(Debug, Clone, Copy, PartialEq, Eq, Structural)]
pub enum StopReason {
    EndTurn,
    MaxTokens,
    StopSequence,
    ToolUse,
    ContentFilter,
    Other,
}

/// Token counts of one call. `input_tokens` is the whole prompt, with the cached
/// and the newly cached part in it.
#[derive(Debug, Clone, Copy, PartialEq, Eq, Structural)]
pub struct Usage {
    pub input_tokens: u64,
    pub output_tokens: u64,
    pub cached_input_tokens: u64,
    pub cache_creation_tokens: u64,
    pub thinking_tokens: u64,
}

/// The usage of a call of which nothing is known.
pub open spec fn no_usage() -> Usage {
    Usage {
        input_tokens: 0,
        output_tokens: 0,
        cached_input_tokens: 0,
        cache_creation_tokens: 0,
        thinking_tokens: 0,
    }
}

impl Default for Usage {
    fn default() -> (r: Usage)
        ensures
            r == no_usage(),
    {
        Usage {
            input_tokens: 0,
            output_tokens: 0,
            cached_input_tokens: 0,
            cache_creation_tokens: 0,
            thinking_tokens: 0,
        }
    }
}

/// What the provider reports of its prompt cache.
#[derive(Debug, Clone, Copy, PartialEq, Eq, Structural)]
pub struct CacheHitInfo {
    pub cached_input_tokens: u64,
    pub used_explicit_handle: bool,
    pub replayed_from_cache: bool,
}

/// No cache was hit.
pub open spec fn no_cache_hit() -> CacheHitInfo {
    CacheHitInfo {
        cached_input_tokens: 0,
        used_explicit_handle: false,
        replayed_from_cache: false,
    }
}

impl Default for CacheHitInfo {
    fn default() -> (r: CacheHitInfo)
        ensures
            r == no_cache_hit(),
    {
        CacheHitInfo {
            cached_input_tokens: 0,
            used_explicit_handle: false,
            replayed_from_cache: false,
        }
    }
}

/// One event of a streamed reply.
#[derive(Debug, PartialEq)]
pub enum ChatEvent {
    Started { actual_model: String, cache_hit: CacheHitInfo },
    Delta { text: String },
    ThinkingDelta { text: String },
    ToolCallStart { index: usize, id: String, name: String },
    ToolCallArgsDelta { index: usize, args_delta: String },
    ToolCallEnd { index: usize, id: String, parsed_args: Json },
    Finished { stop_reason: StopReason, usage: Usage },
}

/// What an event says.
pub enum EventView {
    Started { actual_model: Seq<char>, cache_hit: CacheHitInfo },
    Delta { text: Seq<char> },
    ThinkingDelta { text: Seq<char> },
    ToolCallStart { index: usize, id: Seq<char>, name: Seq<char> },
    ToolCallArgsDelta { index: usize, args_delta: Seq<char> },
    ToolCallEnd { index: usize, id: Seq<char>, parsed_args: JsonView },
    Finished { stop_reason: StopReason, usage: Usage },
}

impl View for ChatEvent {
    type V = EventView;

    open spec fn view(&self) -> EventView {
        match *self {
            ChatEvent::Started { actual_model, cache_hit } => EventView::Started {
                actual_model: actual_model@,
                cache_hit,
            },
            ChatEvent::Delta { text } => EventView::Delta { text: text@ },
            ChatEvent::ThinkingDelta { text } => EventView::ThinkingDelta { text: text@ },
            ChatEvent::ToolCallStart { index, id, name } => EventView::ToolCallStart {
                index,
                id: id@,
                name: name@,
            },
            ChatEvent::ToolCallArgsDelta { index, args_delta } => EventView::ToolCallArgsDelta {
                index,
                args_delta: args_delta@,
            },
            ChatEvent::ToolCallEnd { index, id, parsed_args } => EventView::ToolCallEnd {
                index,
                id: id@,
                parsed_args: parsed_args@,
            },
            ChatEvent::Finished { stop_reason, usage } => EventView::Finished {
                stop_reason,
                usage,
            },
        }
    }
}

/// The event that opens a stream, with no cache hit.
pub open spec fn started_event(model: Seq<char>) -> EventView {
    EventView::Started { actual_model: model, cache_hit: no_cache_hit() }
}

impl ChatEvent {
    /// The event that opens a stream, with no cache hit.
    pub fn started(model: &str) -> (r: ChatEvent)
        ensures
            r@ == started_event(model@),
    {
        ChatEvent::Started { actual_model: model.to_owned(), cache_hit: CacheHitInfo::default() }
    }

    /// Whether the event ends the stream.
    pub fn is_terminal(&self) -> (r: bool)
        ensures
            r == (self@ is Finished),
    {
        match self {
            ChatEvent::Finished { .. } => true,
            _ => false,
        }
    }
}

impl Clone for ChatEvent {
    fn clone(&self) -> (r: ChatEvent)
        ensures
            r@ == self@,
    {
        match self {
            ChatEvent::Started { actual_model, cache_hit } => ChatEvent::Started {
                actual_model: actual_model.clone(),
                cache_hit: *cache_hit,
            },
            ChatEvent::Delta { text } => ChatEvent::Delta { text: text.clone() },
            ChatEvent::ThinkingDelta { text } => ChatEvent::ThinkingDelta { text: text.clone() },
            ChatEvent::ToolCallStart { index, id, name } => ChatEvent::ToolCallStart {
                index: *index,
                id: id.clone(),
                name: name.clone(),
            },
            ChatEvent::ToolCallArgsDelta { index, args_delta } => ChatEvent::ToolCallArgsDelta {
                index: *index,
                args_delta: args_delta.clone(),
            },
            ChatEvent::ToolCallEnd { index, id, parsed_args } => ChatEvent::ToolCallEnd {
                index: *index,
                id: id.clone(),
                parsed_args: parsed_args.clone(),
            },
            ChatEvent::Finished { stop_reason, usage } => ChatEvent::Finished {
                stop_reason: *stop_reason,
                usage: *usage,
            },
        }
    }
}

/// Copies the events of a stream.
pub fn copy_events(s: &Vec<ChatEvent>) -> (r: Vec<ChatEvent>)
    ensures
        events(r@) == events(s@),
{
    let mut out: Vec<ChatEvent> = Vec::new();
    let mut i: usize = 0;
    assert(events(out@) =~= events(s@).take(0));
    while i < s.len()
        invariant
            i <= s@.len(),
            events(out@) == events(s@).take(i as int),
        decreases s@.len() - i,
    {
        emit(&mut out, s[i].clone());
        assert(events(s@).take(i + 1) =~= events(s@).take(i as int).push(s@[i as int]@));
        i += 1;
    }
    assert(events(s@).take(s@.len() as int) =~= events(s@));
    out
}

/// What the events of a stream say.
pub open spec fn events(s: Seq<ChatEvent>) -> Seq<EventView> {
    s.map_values(|e: ChatEvent| e@)
}

/// Pushing an event.
pub proof fn lemma_events_push(s: Seq<ChatEvent>, e: ChatEvent)
    ensures
        events(s.push(e)) == events(s).push(e@),
{
    assert(events(s.push(e)) =~= events(s).push(e@));
}

/// Appends an event.
pub fn emit(out: &mut Vec<ChatEvent>, e: ChatEvent)
    ensures
        events(final(out)@) == events(old(out)@).push(e@),
{
    proof {
        lemma_events_push(out@, e);
    }
    out.push(e);
}

/// Why a call failed.
#[derive(Debug, PartialEq)]
pub enum ProviderError {
    Auth(String),
    RateLimited { retry_after_ms: Option<u64> },
    ModelOverloaded,
    ContextTooLong { limit: u64, requested: u64 },
    InvalidRequest(String),
    ContentFiltered { category: String },
    Parse(String),
    Internal(String),
    CliSubprocessDied { exit_code: Option<i32>, stderr: String },
    TimedOut { budget_ms: u64, detail: String },
    CassetteMiss {
        want_fp: String,
        want_canon: String,
        baseline_fp: Option<String>,
        baseline_canon: Option<String>,
        baseline_selected_by: Option<String>,
    },
}

/// What an error says.
pub enum ErrorView {
    Auth(Seq<char>),
    RateLimited { retry_after_ms: Option<u64> },
    ModelOverloaded,
    ContextTooLong { limit: u64, requested: u64 },
    InvalidRequest(Seq<char>),
    ContentFiltered { category: Seq<char> },
    Parse(Seq<char>),
    Internal(Seq<char>),
    CliSubprocessDied { exit_code: Option<i32>, stderr: Seq<char> },
    TimedOut { budget_ms: u64, detail: Seq<char> },
    CassetteMiss {
        want_fp: Seq<char>,
        want_canon: Seq<char>,
        baseline_fp: Option<Seq<char>>,
        baseline_canon: Option<Seq<char>>,
        baseline_selected_by: Option<Seq<char>>,
    },
}

impl View for ProviderError {
    type V = ErrorView;

    open spec fn view(&self) -> ErrorView {
        match *self {
            ProviderError::Auth(s) => ErrorView::Auth(s@),
            ProviderError::RateLimited { retry_after_ms } => ErrorView::RateLimited {
                retry_after_ms,
            },
            ProviderError::ModelOverloaded => ErrorView::ModelOverloaded,
            ProviderError::ContextTooLong { limit, requested } => ErrorView::ContextTooLong {
                limit,
                requested,
            },
            ProviderError::InvalidRequest(s) => ErrorView::InvalidRequest(s@),
            ProviderError::ContentFiltered { category } => ErrorView::ContentFiltered {
                category: category@,
            },
            ProviderError::Parse(s) => ErrorView::Parse(s@),
            ProviderError::Internal(s) => ErrorView::Internal(s@),
            ProviderError::CliSubprocessDied { exit_code, stderr } => ErrorView::CliSubprocessDied {
                exit_code,
                stderr: stderr@,
            },
            ProviderError::TimedOut { budget_ms, detail } => ErrorView::TimedOut {
                budget_ms,
                detail: detail@,
            },
            ProviderError::CassetteMiss {
                want_fp,
                want_canon,
                baseline_fp,
                baseline_canon,
                baseline_selected_by,
            } => ErrorView::CassetteMiss {
                want_fp: want_fp@,
                want_canon: want_canon@,
                baseline_fp: crate::text::opt_str(baseline_fp),
                baseline_canon: crate::text::opt_str(baseline_canon),
                baseline_selected_by: crate::text::opt_str(baseline_selected_by),
            },
        }
    }
}

/// What the outcome of an event parser says.
pub open spec fn events_result(r: Result<Vec<ChatEvent>, ProviderError>) -> Result<
    Seq<EventView>,
    ErrorView,
> {
    match r {
        Ok(v) => Ok(events(v@)),
        Err(e) => Err(e@),
    }
}

/// What the outcome of a request translation says.
pub open spec fn json_result(r: Result<Json, ProviderError>) -> Result<JsonView, ErrorView> {
    match r {
        Ok(v) => Ok(v@),
        Err(e) => Err(e@),
    }
}

/// What the outcome of a text computation says.
pub open spec fn text_result(r: Result<String, ProviderError>) -> Result<Seq<char>, ErrorView> {
    match r {
        Ok(v) => Ok(v@),
        Err(e) => Err(e@),
    }
}

/// The data of an image.
#[derive(Debug, Clone, PartialEq)]
pub enum ImageData {
    Url(String),
    Base64(String),
}

/// One block of a message.
#[derive(Debug, Clone, PartialEq)]
pub enum ContentBlock {
    Text { text: String },
    Image { mime: String, data: ImageData },
}

impl ContentBlock {
    /// A block of text.
    pub fn text(s: &str) -> (r: ContentBlock)
        ensures
            r matches ContentBlock::Text { text } && text@ == s@,
    {
        ContentBlock::Text { text: s.to_owned() }
    }
}

/// A tool call that a model asked for.
#[derive(Debug, Clone, PartialEq)]
pub struct ToolCall {
    pub id: String,
    pub name: String,
    pub arguments: Json,
}

/// One message of a conversation.
#[derive(Debug, Clone, PartialEq)]
pub enum Message {
    User { content: Vec<ContentBlock> },
    Assistant { content: Vec<ContentBlock>, tool_calls: Vec<ToolCall> },
    Tool { tool_call_id: String, content: Vec<ContentBlock>, is_error: bool },
    System { content: Vec<ContentBlock> },
}

/// Whether a list of blocks is one block with this text.
pub open spec fn is_text_block(content: Seq<ContentBlock>, s: Seq<char>) -> bool {
    content.len() == 1 && (content[0] matches ContentBlock::Text { text } && text@ == s)
}

impl Message {
    /// A user turn with one block of text.
    pub fn user_text(s: &str) -> (r: Message)
        ensures
            r matches Message::User { content } && is_text_block(content@, s@),
    {
        Message::User { content: vec![ContentBlock::text(s)] }
    }

    /// An assistant turn with one block of text.
    pub fn assistant_text(s: &str) -> (r: Message)
        ensures
            r matches Message::Assistant { content, tool_calls } && is_text_block(content@, s@)
                && tool_calls@.len() == 0,
    {
        Message::Assistant { content: vec![ContentBlock::text(s)], tool_calls: Vec::new() }
    }
}

/// A JSON schema for a tool's input or for the reply.
#[derive(Debug, Clone, PartialEq)]
pub struct JsonSchema {
    pub name: Option<String>,
    pub schema: Json,
    pub strict: bool,
}

impl JsonSchema {
    /// A named schema that the provider must follow strictly.
    pub fn strict(name: &str, schema: Json) -> (r: JsonSchema)
        ensures
            crate::text::opt_str(r.name) == Some(name@),
            r.schema == schema,
            r.strict,
    {
        JsonSchema { name: Some(name.to_owned()), schema, strict: true }
    }
}

/// A tool that the model may call.
#[derive(Debug, Clone, PartialEq)]
pub struct ToolSpec {
    pub name: String,
    pub description: String,
    pub input_schema: JsonSchema,
}

/// Which tool the model has to call.
#[derive(Debug, Clone, PartialEq)]
pub enum ToolChoice {
    Auto,
    NoTool,
    Required,
    Specific(String),
}

/// How much the model may think.
#[derive(Debug, Clone, Copy, PartialEq, Eq)]
pub enum ThinkingMode {
    Off,
    Auto,
    Budget(u32),
}

/// A handle to content that the provider has cached.
#[derive(Debug, Clone, PartialEq)]
pub struct CacheHandle {
    pub external_id: String,
}

/// What the caller asks of the provider's prompt cache.
#[derive(Debug, Clone, PartialEq)]
pub enum CacheDirective {
    MarkBoundary { ttl_ms: u64 },
    UseExplicit { handle: CacheHandle },
}

/// The model that a request asks for: a concrete id, or a tier that has to be
/// resolved to one first.
#[derive(Debug, Clone, PartialEq)]
pub enum ModelHint {
    Explicit(String),
    Tier(String),
}

impl ModelHint {
    /// The concrete id, where there is one.
    pub fn explicit(&self) -> (r: Option<&str>)
        ensures
            crate::text::opt_slice(r) == self.explicit_view(),
    {
        match self {
            ModelHint::Explicit(m) => Some(m.as_str()),
            ModelHint::Tier(_) => None,
        }
    }

    /// The concrete id, where there is one.
    pub open spec fn explicit_view(self) -> Option<Seq<char>> {
        match self {
            ModelHint::Explicit(m) => Some(m@),
            ModelHint::Tier(_) => None,
        }
    }
}

/// A chat request. The temperature is the JSON number to send.
#[derive(Debug, Clone, PartialEq)]
pub struct ChatRequest {
    pub model: ModelHint,
    pub system: Option<String>,
    pub messages: Vec<Message>,
    pub tools: Vec<ToolSpec>,
    pub tool_choice: ToolChoice,
    pub structured_output: Option<JsonSchema>,
    pub max_output_tokens: Option<u32>,
    pub temperature: Option<Number>,
    pub stop_sequences: Vec<String>,
    pub seed: Option<u64>,
    pub cache_directives: Vec<CacheDirective>,
    pub thinking: ThinkingMode,
    pub enable_chat_template_thinking: Option<bool>,
}

impl ChatRequest {
    /// A request with one user turn and nothing else.
    pub fn user(model: ModelHint, text: &str) -> (r: ChatRequest)
        ensures
            r.model == model,
            r.messages@.len() == 1,
            r.messages@[0] matches Message::User { content } && is_text_block(content@, text@),
            r.system is None,
            r.tools@.len() == 0,
            r.tool_choice is Auto,
            r.structured_output is None,
            r.max_output_tokens is None,
            r.temperature is None,
            r.stop_sequences@.len() == 0,
            r.seed is None,
            r.cache_directives@.len() == 0,
            r.thinking is Off,
            r.enable_chat_template_thinking is None,
    {
        ChatRequest {
            model,
            system: None,
            messages: vec![Message::user_text(text)],
            tools: Vec::new(),
            tool_choice: ToolChoice::Auto,
            structured_output: None,
            max_output_tokens: None,
            temperature: None,
            stop_sequences: Vec::new(),
            seed: None,
            cache_directives: Vec::new(),
            thinking: ThinkingMode::Off,
            enable_chat_template_thinking: None,
        }
    }

    /// The request with this system prompt.
    pub fn with_system(self, system: &str) -> (r: ChatRequest)
        ensures
            crate::text::opt_str(r.system) == Some(system@),
            r == (ChatRequest { system: r.system, ..self }),
    {
        let mut req: ChatRequest = self;
        req.system = Some(system.to_owned());
        req
    }
}

/// A whole reply, put together from its events.
#[derive(Debug, PartialEq)]
pub struct ChatResponse {
    pub actual_model: String,
    pub cache_hit: CacheHitInfo,
    pub text: String,
    pub thinking: String,
    pub stop_reason: Option<StopReason>,
    pub usage: Usage,
}

/// What a reply says.
pub struct ResponseView {
    pub actual_model: Seq<char>,
    pub cache_hit: CacheHitInfo,
    pub text: Seq<char>,
    pub thinking: Seq<char>,
    pub stop_reason: Option<StopReason>,
    pub usage: Usage,
}

impl View for ChatResponse {
    type V = ResponseView;

    open spec fn view(&self) -> ResponseView {
        ResponseView {
            actual_model: self.actual_model@,
            cache_hit: self.cache_hit,
            text: self.text@,
            thinking: self.thinking@,
            stop_reason: self.stop_reason,
            usage: self.usage,
        }
    }
}

impl ResponseView {
    /// A reply of which no event has come.
    pub open spec fn empty() -> ResponseView {
        ResponseView {
            actual_model: seq![],
            cache_hit: no_cache_hit(),
            text: seq![],
            thinking: seq![],
            stop_reason: None,
            usage: no_usage(),
        }
    }

    /// The reply after one more event. Tool calls are not part of it.
    pub open spec fn apply(self, e: EventView) -> ResponseView {
        match e {
            EventView::Started { actual_model, cache_hit } => ResponseView {
                actual_model,
                cache_hit,
                ..self
            },
            EventView::Delta { text } => ResponseView { text: self.text + text, ..self },
            EventView::ThinkingDelta { text } => ResponseView {
                thinking: self.thinking + text,
                ..self
            },
            EventView::Finished { stop_reason, usage } => ResponseView {
                stop_reason: Some(stop_reason),
                usage,
                ..self
            },
            _ => self,
        }
    }

    /// The reply after a sequence of events.
    pub open spec fn apply_all(self, s: Seq<EventView>) -> ResponseView
        decreases s.len(),
    {
        if s.len() == 0 {
            self
        } else {
            self.apply_all(s.drop_last()).apply(s.last())
        }
    }
}

/// Puts a reply together, event by event.
pub struct ChatResponseBuilder {
    response: ChatResponse,
}

impl View for ChatResponseBuilder {
    type V = ResponseView;

    closed spec fn view(&self) -> ResponseView {
        self.response@
    }
}

impl ChatResponseBuilder {
    /// A builder that has seen no event.
    pub fn new() -> (r: ChatResponseBuilder)
        ensures
            r@ == ResponseView::empty(),
    {
        ChatResponseBuilder {
            response: ChatResponse {
                actual_model: String::new(),
                cache_hit: CacheHitInfo::default(),
                text: String::new(),
                thinking: String::new(),
                stop_reason: None,
                usage: Usage::default(),
            },
        }
    }

    /// Takes one event.
    pub fn apply(&mut self, e: ChatEvent)
        ensures
            final(self)@ == old(self)@.apply(e@),
    {
        match e {
            ChatEvent::Started { actual_model, cache_hit } => {
                self.response.actual_model = actual_model;
                self.response.cache_hit = cache_hit;
            },
            ChatEvent::Delta { text } => {
                self.response.text.append(text.as_str());
            },
            ChatEvent::ThinkingDelta { text } => {
                self.response.thinking.append(text.as_str());
            },
            ChatEvent::Finished { stop_reason, usage } => {
                self.response.stop_reason = Some(stop_reason);
                self.response.usage = usage;
            },
            _ => {},
        }
    }

    /// The reply.
    pub fn finish(self) -> (r: ChatResponse)
        ensures
            r@ == self@,
    {
        self.response
    }
}

impl ChatResponse {
    /// Whether the event that ends the stream has come.
    pub fn is_finished(&self) -> (r: bool)
        ensures
            r == self@.stop_reason is Some,
    {
        self.stop_reason.is_some()
    }
}

/// Puts the events of a whole stream together.
pub fn complete(stream: Vec<ChatEvent>) -> (r: ChatResponse)
    ensures
        r@ == ResponseView::empty().apply_all(events(stream@)),
{
    let ghost all = stream@;
    let mut acc: ChatResponseBuilder = ChatResponseBuilder::new();
    for e in it: stream
        invariant
            it.seq() == all,
            acc@ == ResponseView::empty().apply_all(events(all).take(it.index() as int)),
    {
        let ghost k = it.index() as int;
        assert(e == all[k]);
        acc.apply(e);
        proof {
            let p = events(all).take(k + 1);
            assert(p.drop_last() =~= events(all).take(k));
            assert(p.last() == e@);
        }
    }
    assert(events(all).take(all.len() as int) =~= events(all));
    acc.finish()
}

} // verus!
