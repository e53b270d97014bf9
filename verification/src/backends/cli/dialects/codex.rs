//! The `codex` program. It prints one JSON object per line.

use crate::backends::cli::argv::{CallContext, ContextView, InvocationView, SubprocessInvocation};
use crate::backends::cli::dialect::{names, CliDialect, OutputFraming, OutputMode, PromptChannel};
use crate::backends::cli::paths::{own_dir, resolve_own_dir};
use crate::backends::cli::prompt::{prompt_text, render_prompt_for_cli};
use crate::http_base::{ellipsized, truncate};
use crate::json::{
    items_view, lemma_items, parse_json, parse_lenient, parse_or_null, print_json, push_item,
    serde_parse, serde_print, Json, JsonView,
};
use crate::members::{
    find_again, find_named, is_repeated, items_of, lies_in, member_views, members_of, named,
    named_again, place, place_of, repeats, split_items, split_members, Member, MemberView,
};
use crate::reasons::{
    duplicate_field, in_ticks, invalid_length, invalid_type, missing, missing_field, twice,
    wrong_length, wrong_type,
};
use crate::text::{
    copy_opt, decimal_of, is_empty, opt_str, push_text, same, signed_decimal, strs, trim, trimmed,
};
use crate::types::{
    emit, events, events_result, ChatEvent, ChatRequest, ErrorView, EventView, ProviderError,
    StopReason, Usage,
};
use vstd::prelude::*;
use vstd::string::*;

verus! {

/// The environment variables that must not reach `codex`, in upper case: with any of
/// them the call would be billed to an API key.
pub open spec fn codex_stripped() -> Seq<Seq<char>> {
    seq!["OPENAI_API_KEY"@, "CODEX_API_KEY"@, "CODEX_AGENT_IDENTITY"@]
}

/// The environment variables that must not reach `codex`, in upper case.
pub fn codex_stripped_env() -> (r: Vec<String>)
    ensures
        strs(r@) == codex_stripped(),
{
    let mut out: Vec<String> = Vec::new();
    push_text(&mut out, "OPENAI_API_KEY".to_owned());
    push_text(&mut out, "CODEX_API_KEY".to_owned());
    push_text(&mut out, "CODEX_AGENT_IDENTITY".to_owned());
    assert(strs(out@) =~= codex_stripped());
    out
}

/// How `codex` confines itself.
#[derive(Debug, Clone, Copy, PartialEq, Eq, Structural)]
pub enum SandboxMode {
    ReadOnly,
    WorkspaceWrite,
    DangerFullAccess,
}

impl Default for SandboxMode {
    fn default() -> (r: SandboxMode)
        ensures
            r == SandboxMode::ReadOnly,
    {
        SandboxMode::ReadOnly
    }
}

impl SandboxMode {
    /// The name of the mode on the command line.
    pub open spec fn arg(self) -> Seq<char> {
        match self {
            SandboxMode::ReadOnly => "read-only"@,
            SandboxMode::WorkspaceWrite => "workspace-write"@,
            SandboxMode::DangerFullAccess => "danger-full-access"@,
        }
    }

    /// The name of the mode on the command line.
    pub fn as_arg(self) -> (r: &'static str)
        ensures
            r@ == self.arg(),
    {
        match self {
            SandboxMode::ReadOnly => "read-only",
            SandboxMode::WorkspaceWrite => "workspace-write",
            SandboxMode::DangerFullAccess => "danger-full-access",
        }
    }
}

/// The `codex` program: its name, how long it may take, and how it confines itself.
#[derive(Debug)]
pub struct CodexCliDialect {
    pub executable: String,
    pub timeout_ms: u64,
    pub sandbox: SandboxMode,
    pub skip_git_repo_check: bool,
}

/// The arguments of `codex`.
pub open spec fn codex_argv(model: Seq<char>, sandbox: SandboxMode, skip_git: bool) -> Seq<
    Seq<char>,
> {
    let first = seq![
        "exec"@,
        "--json"@,
        "--model"@,
        model,
        "--sandbox"@,
        sandbox.arg(),
        "-c"@,
        "approval_policy=\"never\""@,
    ];
    if skip_git {
        first + seq!["--skip-git-repo-check"@, "-"@]
    } else {
        first + seq!["-"@]
    }
}

/// The arguments of `codex`, without the program itself.
pub fn build_codex_argv(model: &str, sandbox: SandboxMode, skip_git_repo_check: bool) -> (r: Vec<
    String,
>)
    ensures
        strs(r@) == codex_argv(model@, sandbox, skip_git_repo_check),
{
    let mut argv: Vec<String> = Vec::new();
    push_text(&mut argv, "exec".to_owned());
    push_text(&mut argv, "--json".to_owned());
    push_text(&mut argv, "--model".to_owned());
    push_text(&mut argv, model.to_owned());
    push_text(&mut argv, "--sandbox".to_owned());
    push_text(&mut argv, sandbox.as_arg().to_owned());
    push_text(&mut argv, "-c".to_owned());
    push_text(&mut argv, "approval_policy=\"never\"".to_owned());
    if skip_git_repo_check {
        push_text(&mut argv, "--skip-git-repo-check".to_owned());
    }
    push_text(&mut argv, "-".to_owned());
    assert(strs(argv@) =~= codex_argv(model@, sandbox, skip_git_repo_check));
    argv
}

/// The directory where `codex` keeps its own state: the one that is named, or
/// `.codex` below the home directory.
pub fn codex_state_dirs(codex_home: Option<String>, home: Option<String>) -> (r: Vec<String>)
    ensures
        strs(r@) == own_dir(opt_str(codex_home), opt_str(home), ".codex"@),
{
    resolve_own_dir(codex_home, home, ".codex")
}

/// The token counts that `codex` reports.
#[derive(Debug, Clone, Copy, PartialEq, Eq, Structural)]
pub struct CodexUsage {
    pub input_tokens: i64,
    pub cached_input_tokens: i64,
    pub output_tokens: i64,
    pub reasoning_output_tokens: i64,
}

/// A count that is not below zero.
pub open spec fn count(n: i64) -> u64 {
    if n < 0 {
        0
    } else {
        n as u64
    }
}

/// The token counts of a turn.
pub open spec fn turn_usage(u: CodexUsage) -> Usage {
    Usage {
        input_tokens: count(u.input_tokens),
        output_tokens: count(u.output_tokens),
        cached_input_tokens: count(u.cached_input_tokens),
        cache_creation_tokens: 0,
        thinking_tokens: count(u.reasoning_output_tokens),
    }
}

/// A count that is not below zero.
fn to_count(n: i64) -> (r: u64)
    ensures
        r == count(n),
{
    if n < 0 {
        0
    } else {
        n as u64
    }
}

/// The token counts of a turn.
pub fn convert_usage(u: &CodexUsage) -> (r: Usage)
    ensures
        r == turn_usage(*u),
{
    Usage {
        input_tokens: to_count(u.input_tokens),
        output_tokens: to_count(u.output_tokens),
        cached_input_tokens: to_count(u.cached_input_tokens),
        cache_creation_tokens: 0,
        thinking_tokens: to_count(u.reasoning_output_tokens),
    }
}

/// An event that `codex` reports, as far as it matters here.
#[derive(Debug)]
pub enum ThreadEvent {
    /// The model said this.
    AgentMessage { text: String },
    /// The model thought this.
    Reasoning { text: String },
    /// A turn has ended.
    TurnCompleted { usage: CodexUsage },
    /// A turn has failed.
    TurnFailed { message: String },
    /// The stream has failed.
    Error { message: String },
    /// Something that has no counterpart here.
    Other,
}

/// What such an event says.
pub enum ThreadView {
    AgentMessage { text: Seq<char> },
    Reasoning { text: Seq<char> },
    TurnCompleted { usage: CodexUsage },
    TurnFailed { message: Seq<char> },
    Error { message: Seq<char> },
    Other,
}

impl View for ThreadEvent {
    type V = ThreadView;

    open spec fn view(&self) -> ThreadView {
        match self {
            ThreadEvent::AgentMessage { text } => ThreadView::AgentMessage { text: text@ },
            ThreadEvent::Reasoning { text } => ThreadView::Reasoning { text: text@ },
            ThreadEvent::TurnCompleted { usage } => ThreadView::TurnCompleted { usage: *usage },
            ThreadEvent::TurnFailed { message } => ThreadView::TurnFailed { message: message@ },
            ThreadEvent::Error { message } => ThreadView::Error { message: message@ },
            ThreadEvent::Other => ThreadView::Other,
        }
    }
}

/// A count, or what is wrong with it.
pub open spec fn count_read(v: JsonView) -> Result<i64, Seq<char>> {
    match v.as_i64() {
        Some(n) => Ok(n),
        None => match v.as_u64() {
            Some(n) => Err(
                "invalid value: integer `"@ + signed_decimal(n as int) + "`, expected i64"@,
            ),
            None => Err(invalid_type(v, "i64"@)),
        },
    }
}

/// A count that may be missing: none is zero.
pub open spec fn count_or_zero(v: Option<JsonView>) -> Result<i64, Seq<char>> {
    match v {
        None => Ok(0),
        Some(v) => count_read(v),
    }
}

/// An item of a list.
pub open spec fn item_at(s: Seq<JsonView>, i: int) -> Option<JsonView> {
    if 0 <= i < s.len() {
        Some(s[i])
    } else {
        None
    }
}

/// Four counts, or what is wrong with the first of them that cannot be read.
pub open spec fn four_counts(
    a: Option<JsonView>,
    b: Option<JsonView>,
    c: Option<JsonView>,
    d: Option<JsonView>,
) -> Result<CodexUsage, Seq<char>> {
    match (count_or_zero(a), count_or_zero(b), count_or_zero(c), count_or_zero(d)) {
        (Err(e), _, _, _) => Err(e),
        (_, Err(e), _, _) => Err(e),
        (_, _, Err(e), _) => Err(e),
        (_, _, _, Err(e)) => Err(e),
        (Ok(a), Ok(b), Ok(c), Ok(d)) => Ok(
            CodexUsage {
                input_tokens: a,
                cached_input_tokens: b,
                output_tokens: c,
                reasoning_output_tokens: d,
            },
        ),
    }
}

/// The token counts that have been read so far.
#[derive(Debug, Clone, Copy, PartialEq, Eq, Structural)]
pub struct Counts {
    pub input: Option<i64>,
    pub cached: Option<i64>,
    pub output: Option<i64>,
    pub reasoning: Option<i64>,
}

/// A count, where none is zero.
pub open spec fn or_zero(n: Option<i64>) -> i64 {
    match n {
        Some(n) => n,
        None => 0,
    }
}

/// Counts that have all been read.
pub open spec fn counted(c: Counts) -> CodexUsage {
    CodexUsage {
        input_tokens: or_zero(c.input),
        cached_input_tokens: or_zero(c.cached),
        output_tokens: or_zero(c.output),
        reasoning_output_tokens: or_zero(c.reasoning),
    }
}

/// A count that comes to one that may be there already, or what is wrong with it.
pub open spec fn count_set(slot: Option<i64>, name: Seq<char>, v: JsonView) -> Result<
    Option<i64>,
    Seq<char>,
> {
    if slot is Some {
        Err(duplicate_field(name))
    } else {
        match count_read(v) {
            Ok(n) => Ok(Some(n)),
            Err(e) => Err(e),
        }
    }
}

/// The counts after a member more.
pub open spec fn counts_with(c: Counts, m: MemberView) -> Result<Counts, Seq<char>> {
    if m.key == "input_tokens"@ {
        match count_set(c.input, m.key, m.value()) {
            Ok(input) => Ok(Counts { input, ..c }),
            Err(e) => Err(e),
        }
    } else if m.key == "cached_input_tokens"@ {
        match count_set(c.cached, m.key, m.value()) {
            Ok(cached) => Ok(Counts { cached, ..c }),
            Err(e) => Err(e),
        }
    } else if m.key == "output_tokens"@ {
        match count_set(c.output, m.key, m.value()) {
            Ok(output) => Ok(Counts { output, ..c }),
            Err(e) => Err(e),
        }
    } else if m.key == "reasoning_output_tokens"@ {
        match count_set(c.reasoning, m.key, m.value()) {
            Ok(reasoning) => Ok(Counts { reasoning, ..c }),
            Err(e) => Err(e),
        }
    } else {
        Ok(c)
    }
}

/// The counts in the members of an object, or the first thing that is wrong with them.
pub open spec fn counts_in(ms: Seq<MemberView>) -> Result<Counts, Seq<char>>
    decreases ms.len(),
{
    if ms.len() == 0 {
        Ok(Counts { input: None, cached: None, output: None, reasoning: None })
    } else {
        match counts_in(ms.drop_last()) {
            Ok(c) => counts_with(c, ms.last()),
            Err(e) => Err(e),
        }
    }
}

/// Token counts in a text, or what is wrong with them: an object with the counts by
/// name, or a list of at most four of them in their order.
pub open spec fn usage_read(t: Seq<char>) -> Result<CodexUsage, Seq<char>> {
    match parse_or_null(t) {
        JsonView::Obj(_) => match counts_in(members_of(t)) {
            Ok(c) => Ok(counted(c)),
            Err(e) => Err(e),
        },
        JsonView::Arr(s) => match four_counts(
            item_at(s, 0),
            item_at(s, 1),
            item_at(s, 2),
            item_at(s, 3),
        ) {
            Ok(_) if s.len() > 4 => Err(invalid_length(s.len(), "4 elements in sequence"@)),
            r => r,
        },
        v => Err(invalid_type(v, "struct CodexUsage"@)),
    }
}

/// A message, or what is wrong with it.
pub open spec fn message_read(m: JsonView) -> Result<Seq<char>, Seq<char>> {
    match m.as_str() {
        Some(s) => Ok(s),
        None => Err(invalid_type(m, "a string"@)),
    }
}

/// The message of a failure in the members of an object, or what is wrong with it.
pub open spec fn failure_in(ms: Seq<MemberView>) -> Result<Seq<char>, Seq<char>> {
    match named(ms, "message"@) {
        None => Err(missing_field("message"@)),
        Some(m) => match message_read(m.value()) {
            Ok(_) if is_repeated(ms, "message"@) => Err(duplicate_field("message"@)),
            r => r,
        },
    }
}

/// The message of a failure in a list of it alone, or what is wrong with it.
pub open spec fn listed_failure(s: Seq<JsonView>) -> Result<Seq<char>, Seq<char>> {
    if s.len() == 0 {
        Err(invalid_length(0, "struct ThreadError with 1 element"@))
    } else {
        match message_read(s[0]) {
            Ok(_) if s.len() > 1 => Err(invalid_length(s.len(), "1 element in sequence"@)),
            r => r,
        }
    }
}

/// The message of a failure in a text, or what is wrong with it: an object with the
/// message, or a list of it alone.
pub open spec fn failure_read(t: Seq<char>) -> Result<Seq<char>, Seq<char>> {
    match parse_or_null(t) {
        JsonView::Obj(_) => failure_in(members_of(t)),
        JsonView::Arr(s) => listed_failure(s),
        v => Err(invalid_type(v, "struct ThreadError"@)),
    }
}

/// Whether a kind is this one, which goes by its name or by its number.
pub open spec fn is_kind(kind: JsonView, name: Seq<char>, number: u64) -> bool {
    kind.as_str() == Some(name) || kind.as_u64() == Some(number)
}

/// What an item that has been completed says. One that cannot be read says nothing.
pub open spec fn item_read(t: Seq<char>) -> ThreadView {
    let ms = members_of(t);
    if !(parse_or_null(t) is Obj) || is_repeated(ms, "type"@) || is_repeated(
        ms,
        "text"@,
    ) {
        ThreadView::Other
    } else {
        match (named(ms, "type"@), named(ms, "text"@)) {
            (Some(kind), Some(said)) => match said.value().as_str() {
                Some(text) => if is_kind(kind.value(), "agent_message"@, 0) {
                    ThreadView::AgentMessage { text }
                } else if is_kind(kind.value(), "reasoning"@, 1) {
                    ThreadView::Reasoning { text }
                } else {
                    ThreadView::Other
                },
                None => ThreadView::Other,
            },
            _ => ThreadView::Other,
        }
    }
}

/// The item that has been completed, by the members of an object. One that occurs twice
/// says nothing.
pub open spec fn item_in(ms: Seq<MemberView>) -> ThreadView {
    match named(ms, "item"@) {
        Some(m) if !is_repeated(ms, "item"@) => item_read(m.text),
        _ => ThreadView::Other,
    }
}

/// The end of a turn, by the members of an object, or what is wrong with it.
pub open spec fn completed_in(ms: Seq<MemberView>) -> Result<ThreadView, Seq<char>> {
    match named(ms, "usage"@) {
        None => Err(missing_field("usage"@)),
        Some(m) => match usage_read(m.text) {
            Err(e) => Err(e),
            Ok(usage) => if is_repeated(ms, "usage"@) {
                Err(duplicate_field("usage"@))
            } else {
                Ok(ThreadView::TurnCompleted { usage })
            },
        },
    }
}

/// The failure of a turn, by the members of an object, or what is wrong with it.
pub open spec fn failed_in(ms: Seq<MemberView>) -> Result<ThreadView, Seq<char>> {
    match named(ms, "error"@) {
        None => Err(missing_field("error"@)),
        Some(m) => match failure_read(m.text) {
            Err(e) => Err(e),
            Ok(message) => if is_repeated(ms, "error"@) {
                Err(duplicate_field("error"@))
            } else {
                Ok(ThreadView::TurnFailed { message })
            },
        },
    }
}

/// What an object of this kind says, or what is wrong with it. Only those that end a turn
/// have to be complete.
pub open spec fn kind_event(kind: Seq<char>, ms: Seq<MemberView>) -> Result<ThreadView, Seq<char>> {
    if kind == "item.completed"@ {
        Ok(item_in(ms))
    } else if kind == "turn.completed"@ {
        completed_in(ms)
    } else if kind == "turn.failed"@ {
        failed_in(ms)
    } else if kind == "error"@ {
        match failure_in(ms) {
            Ok(message) => Ok(ThreadView::Error { message }),
            Err(e) => Err(e),
        }
    } else {
        Ok(ThreadView::Other)
    }
}

/// Whether an event has this name.
pub open spec fn is_event_name(kind: Seq<char>) -> bool {
    ||| kind == "thread.started"@
    ||| kind == "turn.started"@
    ||| kind == "turn.completed"@
    ||| kind == "turn.failed"@
    ||| kind == "item.started"@
    ||| kind == "item.updated"@
    ||| kind == "item.completed"@
    ||| kind == "error"@
}

/// Whether an object says that it ends a turn.
pub open spec fn is_critical(v: JsonView) -> bool {
    match v.at("type"@).as_str() {
        Some(kind) => kind == "turn.completed"@ || kind == "turn.failed"@ || kind == "error"@,
        None => false,
    }
}

/// What is wrong with an object that tells twice what it is: the first time already, or
/// only the second time.
pub open spec fn tag_complaint(t: Seq<char>, first: MemberView, second: MemberView) -> Seq<char> {
    let behind = first.from + first.text.len();
    match first.value() {
        JsonView::Str(kind) => if is_event_name(kind) {
            duplicate_field("type"@) + place(t, second.colon)
        } else {
            "unknown variant `"@ + kind
                + "`, expected one of `thread.started`, `turn.started`, `turn.completed`, `turn.failed`, `item.started`, `item.updated`, `item.completed`, `error`"@
                + place(t, behind)
        },
        v => invalid_type(v, "variant identifier"@) + place(
            t,
            if v is Arr || v is Obj {
                first.from
            } else {
                behind
            },
        ),
    }
}

/// What an object of the answer says, or what is wrong with it.
pub open spec fn object_event(t: Seq<char>, v: JsonView) -> Result<ThreadView, Seq<char>> {
    let ms = members_of(t);
    match (named(ms, "type"@), named_again(ms, "type"@)) {
        (Some(first), Some(second)) => if is_critical(v) {
            Err(tag_complaint(t, first, second))
        } else {
            Ok(ThreadView::Other)
        },
        (Some(tag), None) => match tag.value().as_str() {
            Some(kind) => kind_event(kind, ms),
            None => Ok(ThreadView::Other),
        },
        _ => Ok(ThreadView::Other),
    }
}

/// The values of texts.
pub open spec fn values(s: Seq<Seq<char>>) -> Seq<JsonView> {
    s.map_values(|t: Seq<char>| parse_or_null(t))
}

/// What a list of the answer says: its first item tells what it is, and the rest are
/// its members in their order. One that cannot be read says nothing.
pub open spec fn list_event(s: Seq<Seq<char>>) -> ThreadView {
    if s.len() == 0 || parse_or_null(s[0]).as_str() is None {
        ThreadView::Other
    } else {
        let kind = parse_or_null(s[0]).as_str()->0;
        if kind == "item.completed"@ && s.len() == 2 {
            item_read(s[1])
        } else if kind == "turn.completed"@ && s.len() == 2 {
            match usage_read(s[1]) {
                Ok(usage) => ThreadView::TurnCompleted { usage },
                Err(_) => ThreadView::Other,
            }
        } else if kind == "turn.failed"@ && s.len() == 2 {
            match failure_read(s[1]) {
                Ok(message) => ThreadView::TurnFailed { message },
                Err(_) => ThreadView::Other,
            }
        } else if kind == "error"@ {
            match listed_failure(values(s.skip(1))) {
                Ok(message) => ThreadView::Error { message },
                Err(_) => ThreadView::Other,
            }
        } else {
            ThreadView::Other
        }
    }
}

/// What a line of the answer says, or what is wrong with it. One that is no JSON says
/// nothing.
pub open spec fn event_read(t: Seq<char>) -> Result<ThreadView, Seq<char>> {
    match serde_parse(t) {
        Ok(JsonView::Arr(_)) => Ok(list_event(items_of(t))),
        Ok(JsonView::Obj(m)) => object_event(t, JsonView::Obj(m)),
        _ => Ok(ThreadView::Other),
    }
}

/// What a value that may be missing says.
pub open spec fn opt_view(v: Option<&Json>) -> Option<JsonView> {
    match v {
        Some(x) => Some(x@),
        None => None,
    }
}

/// A count that may be missing.
fn read_count(v: Option<&Json>) -> (r: Result<i64, String>)
    ensures
        match r {
            Ok(n) => count_or_zero(opt_view(v)) == Ok::<i64, Seq<char>>(n),
            Err(e) => count_or_zero(opt_view(v)) == Err::<i64, Seq<char>>(e@),
        },
{
    match v {
        None => Ok(0),
        Some(v) => match v.as_i64() {
            Some(n) => Ok(n),
            None => match v.as_u64() {
                Some(n) => {
                    let number: String = decimal_of(n);
                    let mut msg: String = in_ticks("invalid value: integer `", number.as_str());
                    msg.append(", expected i64");
                    proof {
                        reveal_strlit("`");
                        reveal_strlit(", expected i64");
                        reveal_strlit("`, expected i64");
                        assert("`"@ + ", expected i64"@ =~= "`, expected i64"@);
                        assert(msg@ =~= "invalid value: integer `"@ + signed_decimal(n as int)
                            + "`, expected i64"@);
                    }
                    Err(msg)
                },
                None => Err(wrong_type(v, "i64")),
            },
        },
    }
}

/// Four counts.
fn read_counts(
    a: Option<&Json>,
    b: Option<&Json>,
    c: Option<&Json>,
    d: Option<&Json>,
) -> (r: Result<CodexUsage, String>)
    ensures
        usage_result(r) == four_counts(opt_view(a), opt_view(b), opt_view(c), opt_view(d)),
{
    match (read_count(a), read_count(b), read_count(c), read_count(d)) {
        (Err(e), _, _, _) => Err(e),
        (_, Err(e), _, _) => Err(e),
        (_, _, Err(e), _) => Err(e),
        (_, _, _, Err(e)) => Err(e),
        (Ok(a), Ok(b), Ok(c), Ok(d)) => Ok(
            CodexUsage {
                input_tokens: a,
                cached_input_tokens: b,
                output_tokens: c,
                reasoning_output_tokens: d,
            },
        ),
    }
}

/// What counts that may be wrong say.
pub open spec fn usage_result(r: Result<CodexUsage, String>) -> Result<CodexUsage, Seq<char>> {
    match r {
        Ok(u) => Ok(u),
        Err(e) => Err(e@),
    }
}

/// An item of a list.
fn nth(s: &Vec<Json>, i: usize) -> (r: Option<&Json>)
    ensures
        opt_view(r) == item_at(items_view(s@), i as int),
{
    proof {
        lemma_items(s@);
    }
    if i < s.len() {
        Some(&s[i])
    } else {
        None
    }
}

/// A count that comes to one that may be there already.
fn set_count(slot: Option<i64>, m: &Member) -> (r: Result<Option<i64>, String>)
    ensures
        match r {
            Ok(n) => count_set(slot, m@.key, m@.value()) == Ok::<Option<i64>, Seq<char>>(n),
            Err(e) => count_set(slot, m@.key, m@.value()) == Err::<Option<i64>, Seq<char>>(e@),
        },
{
    if slot.is_some() {
        return Err(twice(m.key.as_str()));
    }
    let v: Json = m.value();
    match read_count(Some(&v)) {
        Ok(n) => Ok(Some(n)),
        Err(e) => Err(e),
    }
}

/// What counts that may be wrong say.
pub open spec fn counts_result(r: Result<Counts, String>) -> Result<Counts, Seq<char>> {
    match r {
        Ok(c) => Ok(c),
        Err(e) => Err(e@),
    }
}

/// The counts after a member more.
fn add_count(c: Counts, m: &Member) -> (r: Result<Counts, String>)
    ensures
        counts_result(r) == counts_with(c, m@),
{
    let key: &str = m.key.as_str();
    if same(key, "input_tokens") {
        match set_count(c.input, m) {
            Ok(input) => Ok(Counts { input, ..c }),
            Err(e) => Err(e),
        }
    } else if same(key, "cached_input_tokens") {
        match set_count(c.cached, m) {
            Ok(cached) => Ok(Counts { cached, ..c }),
            Err(e) => Err(e),
        }
    } else if same(key, "output_tokens") {
        match set_count(c.output, m) {
            Ok(output) => Ok(Counts { output, ..c }),
            Err(e) => Err(e),
        }
    } else if same(key, "reasoning_output_tokens") {
        match set_count(c.reasoning, m) {
            Ok(reasoning) => Ok(Counts { reasoning, ..c }),
            Err(e) => Err(e),
        }
    } else {
        Ok(c)
    }
}

/// The members behind one that is wrong are not read.
proof fn lemma_counts_stop(ms: Seq<MemberView>, k: int)
    requires
        0 <= k <= ms.len(),
        counts_in(ms.take(k)) is Err,
    ensures
        counts_in(ms) == counts_in(ms.take(k)),
    decreases ms.len() - k,
{
    if k < ms.len() {
        assert(ms.take(k + 1).drop_last() =~= ms.take(k));
        lemma_counts_stop(ms, k + 1);
    } else {
        assert(ms.take(k) =~= ms);
    }
}

/// The counts in the members of an object.
fn collect_counts(ms: &Vec<Member>) -> (r: Result<Counts, String>)
    ensures
        counts_result(r) == counts_in(member_views(ms@)),
{
    let ghost whole = member_views(ms@);
    let mut c: Counts = Counts { input: None, cached: None, output: None, reasoning: None };
    let mut i: usize = 0;
    assert(whole.take(0) =~= seq![]);
    while i < ms.len()
        invariant
            i <= ms@.len(),
            whole == member_views(ms@),
            counts_in(whole.take(i as int)) == Ok::<Counts, Seq<char>>(c),
        decreases ms@.len() - i,
    {
        proof {
            assert(whole.take(i + 1).drop_last() =~= whole.take(i as int));
            assert(whole.take(i + 1).last() == ms@[i as int]@);
        }
        match add_count(c, &ms[i]) {
            Ok(next) => {
                c = next;
            },
            Err(e) => {
                proof {
                    lemma_counts_stop(whole, i + 1);
                }
                return Err(e);
            },
        }
        i += 1;
    }
    assert(whole.take(ms@.len() as int) =~= whole);
    Ok(c)
}

/// A count, where none is zero.
fn zero_if_none(n: Option<i64>) -> (r: i64)
    ensures
        r == or_zero(n),
{
    match n {
        Some(n) => n,
        None => 0,
    }
}

/// Token counts.
fn read_usage(text: &str) -> (r: Result<CodexUsage, String>)
    ensures
        usage_result(r) == usage_read(text@),
{
    let u: Json = parse_lenient(text);
    match &u {
        Json::Arr(s) => {
            proof {
                lemma_items(s@);
            }
            match read_counts(nth(s, 0), nth(s, 1), nth(s, 2), nth(s, 3)) {
                Ok(usage) => if s.len() > 4 {
                    Err(wrong_length(s.len(), "4 elements in sequence"))
                } else {
                    Ok(usage)
                },
                Err(e) => Err(e),
            }
        },
        Json::Obj(_) => match collect_counts(&split_members(text)) {
            Ok(c) => Ok(
                CodexUsage {
                    input_tokens: zero_if_none(c.input),
                    cached_input_tokens: zero_if_none(c.cached),
                    output_tokens: zero_if_none(c.output),
                    reasoning_output_tokens: zero_if_none(c.reasoning),
                },
            ),
            Err(e) => Err(e),
        },
        _ => Err(wrong_type(&u, "struct CodexUsage")),
    }
}

/// What a message that may be wrong says.
pub open spec fn message_result(r: Result<String, String>) -> Result<Seq<char>, Seq<char>> {
    match r {
        Ok(m) => Ok(m@),
        Err(e) => Err(e@),
    }
}

/// A message.
fn read_message(m: &Json) -> (r: Result<String, String>)
    ensures
        message_result(r) == message_read(m@),
{
    match m.as_str() {
        Some(s) => Ok(s.to_owned()),
        None => Err(wrong_type(m, "a string")),
    }
}

/// The message of a failure in the members of an object.
fn find_failure(ms: &Vec<Member>) -> (r: Result<String, String>)
    ensures
        message_result(r) == failure_in(member_views(ms@)),
{
    match find_named(ms, "message") {
        None => Err(missing("message")),
        Some(m) => match read_message(&m.value()) {
            Ok(s) => if repeats(ms, "message") {
                Err(twice("message"))
            } else {
                Ok(s)
            },
            Err(e) => Err(e),
        },
    }
}

/// The message of a failure in a list of it alone.
fn read_listed_failure(s: &Vec<Json>) -> (r: Result<String, String>)
    ensures
        message_result(r) == listed_failure(items_view(s@)),
{
    proof {
        lemma_items(s@);
    }
    if s.len() == 0 {
        return Err(wrong_length(0, "struct ThreadError with 1 element"));
    }
    match read_message(&s[0]) {
        Ok(m) => if s.len() > 1 {
            Err(wrong_length(s.len(), "1 element in sequence"))
        } else {
            Ok(m)
        },
        Err(e) => Err(e),
    }
}

/// The message of a failure.
fn read_failure(text: &str) -> (r: Result<String, String>)
    ensures
        message_result(r) == failure_read(text@),
{
    let v: Json = parse_lenient(text);
    match &v {
        Json::Obj(_) => find_failure(&split_members(text)),
        Json::Arr(s) => read_listed_failure(s),
        _ => Err(wrong_type(&v, "struct ThreadError")),
    }
}

/// Whether a kind is this one.
fn has_kind(kind: &Json, name: &str, number: u64) -> (r: bool)
    ensures
        r == is_kind(kind@, name@, number),
{
    match kind.as_str() {
        Some(s) => same(s, name),
        None => match kind.as_u64() {
            Some(n) => n == number,
            None => false,
        },
    }
}

/// What an item that has been completed says.
fn read_item(text: &str) -> (r: ThreadEvent)
    ensures
        r@ == item_read(text@),
{
    if !parse_lenient(text).is_object() {
        return ThreadEvent::Other;
    }
    let ms: Vec<Member> = split_members(text);
    if repeats(&ms, "type") || repeats(&ms, "text") {
        return ThreadEvent::Other;
    }
    match (find_named(&ms, "type"), find_named(&ms, "text")) {
        (Some(tag), Some(said)) => {
            let kind: Json = tag.value();
            let v: Json = said.value();
            match v.as_str() {
                Some(s) => if has_kind(&kind, "agent_message", 0) {
                    ThreadEvent::AgentMessage { text: s.to_owned() }
                } else if has_kind(&kind, "reasoning", 1) {
                    ThreadEvent::Reasoning { text: s.to_owned() }
                } else {
                    ThreadEvent::Other
                },
                None => ThreadEvent::Other,
            }
        },
        _ => ThreadEvent::Other,
    }
}

/// What an event that may be wrong says.
pub open spec fn thread_result(r: Result<ThreadEvent, String>) -> Result<ThreadView, Seq<char>> {
    match r {
        Ok(e) => Ok(e@),
        Err(e) => Err(e@),
    }
}

/// The item that has been completed.
fn find_item(ms: &Vec<Member>) -> (r: ThreadEvent)
    ensures
        r@ == item_in(member_views(ms@)),
{
    match find_named(ms, "item") {
        Some(m) => if repeats(ms, "item") {
            ThreadEvent::Other
        } else {
            read_item(m.text.as_str())
        },
        None => ThreadEvent::Other,
    }
}

/// The end of a turn.
fn find_completed(ms: &Vec<Member>) -> (r: Result<ThreadEvent, String>)
    ensures
        thread_result(r) == completed_in(member_views(ms@)),
{
    match find_named(ms, "usage") {
        None => Err(missing("usage")),
        Some(m) => match read_usage(m.text.as_str()) {
            Err(e) => Err(e),
            Ok(usage) => if repeats(ms, "usage") {
                Err(twice("usage"))
            } else {
                Ok(ThreadEvent::TurnCompleted { usage })
            },
        },
    }
}

/// The failure of a turn.
fn find_failed(ms: &Vec<Member>) -> (r: Result<ThreadEvent, String>)
    ensures
        thread_result(r) == failed_in(member_views(ms@)),
{
    match find_named(ms, "error") {
        None => Err(missing("error")),
        Some(m) => match read_failure(m.text.as_str()) {
            Err(e) => Err(e),
            Ok(message) => if repeats(ms, "error") {
                Err(twice("error"))
            } else {
                Ok(ThreadEvent::TurnFailed { message })
            },
        },
    }
}

/// What an object of this kind says.
fn read_kind(kind: &str, ms: &Vec<Member>) -> (r: Result<ThreadEvent, String>)
    ensures
        thread_result(r) == kind_event(kind@, member_views(ms@)),
{
    if same(kind, "item.completed") {
        Ok(find_item(ms))
    } else if same(kind, "turn.completed") {
        find_completed(ms)
    } else if same(kind, "turn.failed") {
        find_failed(ms)
    } else if same(kind, "error") {
        match find_failure(ms) {
            Ok(message) => Ok(ThreadEvent::Error { message }),
            Err(e) => Err(e),
        }
    } else {
        Ok(ThreadEvent::Other)
    }
}

/// Whether an event has this name.
fn names_event(kind: &str) -> (r: bool)
    ensures
        r == is_event_name(kind@),
{
    same(kind, "thread.started") || same(kind, "turn.started") || same(kind, "turn.completed")
        || same(kind, "turn.failed") || same(kind, "item.started") || same(kind, "item.updated")
        || same(kind, "item.completed") || same(kind, "error")
}

/// What is wrong with an object that tells twice what it is.
fn complain_of_tag(text: &str, first: &Member, second: &Member) -> (r: String)
    requires
        lies_in(first@, text@),
        lies_in(second@, text@),
    ensures
        r@ == tag_complaint(text@, first@, second@),
{
    let whole: usize = text.unicode_len();
    assert(first.from + first.text@.len() <= whole);
    let behind: usize = first.from + first.text.as_str().unicode_len();
    let v: Json = first.value();
    match &v {
        Json::Str(kind) => if names_event(kind.as_str()) {
            let mut out: String = twice("type");
            out.append(place_of(text, second.colon).as_str());
            out
        } else {
            let mut out: String = "unknown variant `".to_owned();
            out.append(kind.as_str());
            out.append(
                "`, expected one of `thread.started`, `turn.started`, `turn.completed`, `turn.failed`, `item.started`, `item.updated`, `item.completed`, `error`",
            );
            out.append(place_of(text, behind).as_str());
            out
        },
        _ => {
            let at: usize = match &v {
                Json::Arr(_) | Json::Obj(_) => first.from,
                _ => behind,
            };
            let mut out: String = wrong_type(&v, "variant identifier");
            out.append(place_of(text, at).as_str());
            out
        },
    }
}

/// Whether an object says that it ends a turn.
fn ends_turn(v: &Json) -> (r: bool)
    ensures
        r == is_critical(v@),
{
    match v.str_at("type") {
        Some(kind) => same(kind, "turn.completed") || same(kind, "turn.failed") || same(
            kind,
            "error",
        ),
        None => false,
    }
}

/// Reads an object of the answer.
fn read_object_event(text: &str, v: &Json) -> (r: Result<ThreadEvent, String>)
    ensures
        thread_result(r) == object_event(text@, v@),
{
    let ms: Vec<Member> = split_members(text);
    match find_named(&ms, "type") {
        None => Ok(ThreadEvent::Other),
        Some(first) => match find_again(&ms, "type") {
            Some(second) => if ends_turn(v) {
                Err(complain_of_tag(text, first, second))
            } else {
                Ok(ThreadEvent::Other)
            },
            None => {
                let tag: Json = first.value();
                match tag.as_str() {
                    Some(kind) => read_kind(kind, &ms),
                    None => Ok(ThreadEvent::Other),
                }
            },
        },
    }
}

/// The values of the texts from `from` on.
fn read_values(s: &Vec<String>, from: usize) -> (r: Vec<Json>)
    requires
        from <= s@.len(),
    ensures
        items_view(r@) == values(strs(s@).skip(from as int)),
{
    let ghost rest = strs(s@).skip(from as int);
    let mut out: Vec<Json> = Vec::new();
    let mut i: usize = from;
    assert(items_view(out@) =~= values(rest).take(0));
    while i < s.len()
        invariant
            from <= i <= s@.len(),
            rest == strs(s@).skip(from as int),
            items_view(out@) == values(rest).take(i - from),
        decreases s@.len() - i,
    {
        assert(rest[i - from] == s@[i as int]@);
        assert(values(rest).take(i - from + 1) =~= values(rest).take(i - from).push(
            parse_or_null(s@[i as int]@),
        ));
        push_item(&mut out, parse_lenient(s[i].as_str()));
        i += 1;
    }
    assert(values(rest).take(s@.len() - from) =~= values(rest));
    out
}

/// Reads a list of the answer.
fn read_list_event(s: &Vec<String>) -> (r: ThreadEvent)
    ensures
        r@ == list_event(strs(s@)),
{
    if s.len() == 0 {
        return ThreadEvent::Other;
    }
    let tag: Json = parse_lenient(s[0].as_str());
    let kind: &str = match tag.as_str() {
        Some(k) => k,
        None => {
            return ThreadEvent::Other;
        },
    };
    if same(kind, "item.completed") && s.len() == 2 {
        read_item(s[1].as_str())
    } else if same(kind, "turn.completed") && s.len() == 2 {
        match read_usage(s[1].as_str()) {
            Ok(usage) => ThreadEvent::TurnCompleted { usage },
            Err(_) => ThreadEvent::Other,
        }
    } else if same(kind, "turn.failed") && s.len() == 2 {
        match read_failure(s[1].as_str()) {
            Ok(message) => ThreadEvent::TurnFailed { message },
            Err(_) => ThreadEvent::Other,
        }
    } else if same(kind, "error") {
        match read_listed_failure(&read_values(s, 1)) {
            Ok(message) => ThreadEvent::Error { message },
            Err(_) => ThreadEvent::Other,
        }
    } else {
        ThreadEvent::Other
    }
}

/// Reads a line of the answer.
pub fn read_thread_event(line: &str) -> (r: Result<ThreadEvent, String>)
    ensures
        thread_result(r) == event_read(line@),
{
    match parse_json(line) {
        Err(_) => Ok(ThreadEvent::Other),
        Ok(v) => match &v {
            Json::Arr(_) => Ok(read_list_event(&split_items(line))),
            Json::Obj(_) => read_object_event(line, &v),
            _ => Ok(ThreadEvent::Other),
        },
    }
}

/// What the failure of a program says.
pub open spec fn died(stderr: Seq<char>) -> ErrorView {
    ErrorView::CliSubprocessDied { exit_code: None, stderr }
}

/// What an event means: at most one event, or an error.
pub open spec fn event_meaning(e: ThreadView) -> Seq<Result<EventView, ErrorView>> {
    match e {
        ThreadView::AgentMessage { text } => if text.len() > 0 {
            seq![Ok(EventView::Delta { text })]
        } else {
            seq![]
        },
        ThreadView::Reasoning { text } => if text.len() > 0 {
            seq![Ok(EventView::ThinkingDelta { text })]
        } else {
            seq![]
        },
        ThreadView::TurnCompleted { usage } => seq![
            Ok(
                EventView::Finished { stop_reason: StopReason::EndTurn, usage: turn_usage(usage) },
            ),
        ],
        ThreadView::TurnFailed { message } => seq![Err(died("codex turn failed: "@ + message))],
        ThreadView::Error { message } => seq![Err(died("codex stream error: "@ + message))],
        ThreadView::Other => seq![],
    }
}

/// What events and errors say.
pub open spec fn meanings(s: Seq<Result<ChatEvent, ProviderError>>) -> Seq<
    Result<EventView, ErrorView>,
> {
    s.map_values(
        |x: Result<ChatEvent, ProviderError>|
            match x {
                Ok(e) => Ok::<EventView, ErrorView>(e@),
                Err(e) => Err::<EventView, ErrorView>(e@),
            },
    )
}

/// The error for a program that has failed.
fn died_with(what: &str, message: &str) -> (r: ProviderError)
    ensures
        r@ == died(what@ + message@),
{
    let mut stderr: String = what.to_owned();
    stderr.append(message);
    ProviderError::CliSubprocessDied { exit_code: None, stderr }
}

/// Translates an event.
pub fn map_thread_event(event: ThreadEvent) -> (r: Vec<Result<ChatEvent, ProviderError>>)
    ensures
        meanings(r@) == event_meaning(event@),
{
    let mut out: Vec<Result<ChatEvent, ProviderError>> = Vec::new();
    match event {
        ThreadEvent::AgentMessage { text } => {
            if !is_empty(text.as_str()) {
                out.push(Ok(ChatEvent::Delta { text }));
            }
        },
        ThreadEvent::Reasoning { text } => {
            if !is_empty(text.as_str()) {
                out.push(Ok(ChatEvent::ThinkingDelta { text }));
            }
        },
        ThreadEvent::TurnCompleted { usage } => {
            out.push(
                Ok(
                    ChatEvent::Finished {
                        stop_reason: StopReason::EndTurn,
                        usage: convert_usage(&usage),
                    },
                ),
            );
        },
        ThreadEvent::TurnFailed { message } => {
            out.push(Err(died_with("codex turn failed: ", message.as_str())));
        },
        ThreadEvent::Error { message } => {
            out.push(Err(died_with("codex stream error: ", message.as_str())));
        },
        ThreadEvent::Other => {},
    }
    assert(meanings(out@) =~= event_meaning(event@));
    out
}

/// What a text of the answer adds to the events so far, or the error that ends it.
pub open spec fn text_read(out: Seq<EventView>, t: Seq<char>) -> Result<Seq<EventView>, ErrorView> {
    match event_read(t) {
        Err(reason) => Err(
            died(
                "codex: failed to parse critical `"@ + parse_or_null(t).str_or("type"@, ""@)
                    + "` event: "@ + reason,
            ),
        ),
        Ok(e) => {
            let meaning = event_meaning(e);
            if meaning.len() == 0 {
                Ok(out)
            } else {
                match meaning[0] {
                    Ok(ev) => Ok(out.push(ev)),
                    Err(err) => Err(err),
                }
            }
        },
    }
}

/// What a line of the answer adds to the events so far. One that is blank or is no
/// JSON is passed over.
pub open spec fn line_read(out: Seq<EventView>, item: JsonView) -> Result<Seq<EventView>, ErrorView> {
    let line = match item.as_str() {
        Some(s) => s,
        None => ""@,
    };
    if trimmed(line).len() == 0 {
        Ok(out)
    } else {
        text_read(out, line)
    }
}

/// The events of an answer, or the first error in it.
pub open spec fn lines_read(lines: Seq<JsonView>) -> Result<Seq<EventView>, ErrorView>
    decreases lines.len(),
{
    if lines.len() == 0 {
        Ok(seq![])
    } else {
        match lines_read(lines.drop_last()) {
            Err(e) => Err(e),
            Ok(out) => line_read(out, lines.last()),
        }
    }
}

/// The events that an answer means.
pub open spec fn codex_content(payload: JsonView) -> Result<Seq<EventView>, ErrorView> {
    match payload.as_arr() {
        None => Err(
            ErrorView::Parse(
                "codex runner payload must be a JSONL array, got: "@ + ellipsized(
                    serde_print(payload),
                    200,
                ),
            ),
        ),
        Some(lines) => lines_read(lines),
    }
}

/// An error in the front of an answer is the error of the answer.
proof fn lemma_error_stays(lines: Seq<JsonView>, i: int)
    requires
        0 <= i <= lines.len(),
        lines_read(lines.take(i)) is Err,
    ensures
        lines_read(lines) == lines_read(lines.take(i)),
    decreases lines.len() - i,
{
    if i == lines.len() {
        assert(lines.take(i) =~= lines);
    } else {
        assert(lines.take(i + 1).drop_last() =~= lines.take(i));
        lemma_error_stays(lines, i + 1);
    }
}

/// Whether a text of the answer is a failure: a turn that failed, an error that the
/// program reports, or the end of a turn that cannot be read.
pub open spec fn is_failure(t: Seq<char>) -> bool {
    match event_read(t) {
        Ok(e) => e is TurnFailed || e is Error,
        Err(_) => true,
    }
}

/// Whether a line of the answer is a failure.
pub open spec fn is_failure_line(item: JsonView) -> bool {
    match item.as_str() {
        Some(s) => trimmed(s).len() > 0 && is_failure(s),
        None => false,
    }
}

proof fn lemma_line_fails(out: Seq<EventView>, item: JsonView)
    ensures
        line_read(out, item) is Err <==> is_failure_line(item),
        line_read(out, item) is Err ==> line_read(out, item) == line_read(seq![], item),
{
    reveal_strlit("");
    assert(trimmed(""@).len() == 0);
}

/// A failure is never passed over, and nothing else is one: an answer is an error if
/// and only if a line of it is a failure, and the first such line decides which.
pub proof fn law_failure_is_reported(lines: Seq<JsonView>, i: int)
    requires
        0 <= i <= lines.len(),
        forall|j: int| 0 <= j < i ==> !is_failure_line(#[trigger] lines[j]),
        i < lines.len() ==> is_failure_line(lines[i]),
    ensures
        i == lines.len() ==> codex_content(JsonView::Arr(lines)) is Ok,
        i < lines.len() ==> codex_content(JsonView::Arr(lines)) is Err && codex_content(
            JsonView::Arr(lines),
        ) == line_read(seq![], lines[i]),
{
    lemma_front_read(lines, i);
    if i < lines.len() {
        let front = lines.take(i + 1);
        assert(front.drop_last() =~= lines.take(i));
        assert(front.last() == lines[i]);
        lemma_line_fails(lines_read(lines.take(i))->Ok_0, lines[i]);
        lemma_error_stays(lines, i + 1);
    } else {
        assert(lines.take(i) =~= lines);
    }
}

proof fn lemma_front_read(lines: Seq<JsonView>, i: int)
    requires
        0 <= i <= lines.len(),
        forall|j: int| 0 <= j < i ==> !is_failure_line(#[trigger] lines[j]),
    ensures
        lines_read(lines.take(i)) is Ok,
    decreases i,
{
    if i > 0 {
        lemma_front_read(lines, i - 1);
        let front = lines.take(i);
        assert(front.drop_last() =~= lines.take(i - 1));
        assert(front.last() == lines[i - 1]);
        lemma_line_fails(lines_read(lines.take(i - 1))->Ok_0, lines[i - 1]);
    }
}

/// Reads one text of an answer.
fn read_text(out: &mut Vec<ChatEvent>, line: &str) -> (r: Result<(), ProviderError>)
    ensures
        match r {
            Ok(_) => text_read(events(old(out)@), line@) == Ok::<Seq<EventView>, ErrorView>(
                events(final(out)@),
            ),
            Err(e) => text_read(events(old(out)@), line@) == Err::<Seq<EventView>, ErrorView>(e@),
        },
{
    match read_thread_event(line) {
        Err(reason) => {
            let mut msg: String = "codex: failed to parse critical `".to_owned();
            msg.append(parse_lenient(line).str_or("type", "").as_str());
            msg.append("` event: ");
            Err(died_with(msg.as_str(), reason.as_str()))
        },
        Ok(e) => {
            let ghost meaning = event_meaning(e@);
            let mut found: Vec<Result<ChatEvent, ProviderError>> = map_thread_event(e);
            assert(meanings(found@).len() == found@.len());
            if found.len() == 0 {
                return Ok(());
            }
            assert(meaning[0] == meanings(found@)[0]);
            match found.remove(0) {
                Ok(ev) => {
                    emit(out, ev);
                    Ok(())
                },
                Err(err) => Err(err),
            }
        },
    }
}

impl CodexCliDialect {
    /// The program under this name.
    pub fn new(
        executable: String,
        timeout_ms: u64,
        sandbox: SandboxMode,
        skip_git_repo_check: bool,
    ) -> (r: CodexCliDialect)
        ensures
            r == (CodexCliDialect { executable, timeout_ms, sandbox, skip_git_repo_check }),
    {
        CodexCliDialect { executable, timeout_ms, sandbox, skip_git_repo_check }
    }

    /// Reads an answer: an array of lines.
    pub fn parse_line(&self, raw: &Json) -> (r: Result<Vec<ChatEvent>, ProviderError>)
        ensures
            events_result(r) == codex_content(raw@),
    {
        let lines: &Vec<Json> = match raw.as_arr() {
            Some(v) => v,
            None => {
                let mut msg: String =
                    "codex runner payload must be a JSONL array, got: ".to_owned();
                msg.append(truncate(print_json(raw).as_str(), 200).as_str());
                return Err(ProviderError::Parse(msg));
            },
        };
        let ghost whole = items_view(lines@);
        let mut out: Vec<ChatEvent> = Vec::new();
        let mut i: usize = 0;
        proof {
            lemma_items(lines@);
            assert(events(out@) =~= seq![]);
            assert(whole.take(0) =~= seq![]);
        }
        while i < lines.len()
            invariant
                i <= lines@.len(),
                whole == items_view(lines@),
                whole.len() == lines@.len(),
                codex_content(raw@) == lines_read(whole),
                forall|j: int| 0 <= j < lines@.len() ==> #[trigger] whole[j] == lines@[j]@,
                lines_read(whole.take(i as int)) == Ok::<Seq<EventView>, ErrorView>(events(out@)),
            decreases lines@.len() - i,
        {
            proof {
                assert(whole.take(i + 1).drop_last() =~= whole.take(i as int));
                assert(whole.take(i + 1).last() == lines@[i as int]@);
            }
            let line: &str = match lines[i].as_str() {
                Some(s) => s,
                None => "",
            };
            if !is_empty(trim(line).as_str()) {
                if let Err(e) = read_text(&mut out, line) {
                    proof {
                        lemma_error_stays(whole, i + 1);
                    }
                    return Err(e);
                }
            }
            i += 1;
        }
        assert(whole.take(lines@.len() as int) =~= whole);
        Ok(out)
    }
}

impl CliDialect for CodexCliDialect {
    open spec fn argv_of(&self, inv: InvocationView) -> Seq<Seq<char>> {
        codex_argv(inv.model, self.sandbox, self.skip_git_repo_check)
    }

    open spec fn invocation_of(&self, req: ChatRequest, model: Seq<char>, ctx: ContextView) -> Result<
        InvocationView,
        ErrorView,
    > {
        Ok(
            InvocationView::neutral(
                self.executable@,
                model,
                prompt_text(req),
                self.timeout_ms,
                codex_stripped(),
                ctx.cwd,
                ctx.sandbox,
            ),
        )
    }

    open spec fn channel_of(&self) -> PromptChannel {
        PromptChannel::Stdin
    }

    open spec fn mode_of(&self) -> OutputMode {
        OutputMode::JsonEvents
    }

    open spec fn framing_of(&self) -> OutputFraming {
        OutputFraming::JsonLinesArray
    }

    open spec fn counts_fit(&self, payload: JsonView) -> bool {
        true
    }

    open spec fn content_of(&self, payload: JsonView) -> Result<Seq<EventView>, ErrorView> {
        codex_content(payload)
    }

    open spec fn env_of(&self) -> Seq<Seq<char>> {
        seq![]
    }

    fn argv(&self, inv: &SubprocessInvocation) -> (r: Vec<String>) {
        build_codex_argv(inv.model.as_str(), self.sandbox, self.skip_git_repo_check)
    }

    fn invocation(&self, req: &ChatRequest, model: &str, ctx: &CallContext) -> (r: Result<
        SubprocessInvocation,
        ProviderError,
    >) {
        Ok(
            SubprocessInvocation::neutral(
                self.executable.clone(),
                model.to_owned(),
                render_prompt_for_cli(req),
                self.timeout_ms,
                codex_stripped_env(),
                copy_opt(&ctx.cwd),
                ctx.sandbox.clone(),
            ),
        )
    }

    fn prompt_channel(&self) -> (r: PromptChannel) {
        PromptChannel::Stdin
    }

    fn output_mode(&self) -> (r: OutputMode) {
        OutputMode::JsonEvents
    }

    fn output_framing(&self) -> (r: OutputFraming) {
        OutputFraming::JsonLinesArray
    }

    fn has_fitting_counts(&self, payload: &Json) -> (r: bool) {
        true
    }

    fn content(&self, payload: &Json) -> (r: Result<Vec<ChatEvent>, ProviderError>) {
        self.parse_line(payload)
    }

    fn env(&self) -> (r: Vec<&'static str>) {
        let r: Vec<&'static str> = Vec::new();
        assert(names(r@) =~= seq![]);
        r
    }
}

} // verus!
