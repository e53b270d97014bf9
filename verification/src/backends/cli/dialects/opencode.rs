//! The `opencode` program. It prints one JSON object per line.

use crate::backends::cli::argv::{CallContext, ContextView, InvocationView, SubprocessInvocation};
use crate::backends::cli::dialect::{names, CliDialect, OutputFraming, OutputMode, PromptChannel};
use crate::backends::cli::paths::{below, join_path};
use crate::backends::cli::prompt::{
    prompt_text, render_prompt_for_cli, too_long, too_long_error, MAX_PROMPT_BYTES,
};
use crate::http_base::{ellipsized, truncate};
use crate::json::{
    at, items_view, lemma_items, parse_json, print_json, serde_parse, serde_print, Json, JsonView,
};
use crate::text::{
    byte_count, byte_len, copy_opt, is_empty, opt_str, push_text, same, strs, trim, trimmed,
};
use crate::types::{
    emit, events, events_result, ChatEvent, ChatRequest, ErrorView, EventView, ProviderError,
    StopReason, Usage,
};
use vstd::prelude::*;
use vstd::string::*;

verus! {

/// The `opencode` program: its name and how long it may take.
#[derive(Debug)]
pub struct OpenCodeDialect {
    pub executable: String,
    pub timeout_ms: u64,
}

/// The arguments of `opencode`.
pub open spec fn opencode_argv(inv: InvocationView) -> Seq<Seq<char>> {
    seq!["run"@, "--format"@, "json"@, "--model"@, inv.model, inv.prompt]
}

/// The arguments of `opencode`, without the program itself.
pub fn build_opencode_argv(inv: &SubprocessInvocation) -> (r: Vec<String>)
    ensures
        strs(r@) == opencode_argv(inv@),
{
    let mut argv: Vec<String> = Vec::new();
    push_text(&mut argv, "run".to_owned());
    push_text(&mut argv, "--format".to_owned());
    push_text(&mut argv, "json".to_owned());
    push_text(&mut argv, "--model".to_owned());
    push_text(&mut argv, inv.model.clone());
    push_text(&mut argv, inv.prompt.clone());
    assert(strs(argv@) =~= opencode_argv(inv@));
    argv
}

/// The directories where `opencode` keeps its own state.
pub open spec fn opencode_dirs(home: Option<Seq<char>>) -> Seq<Seq<char>> {
    match home {
        Some(h) => seq![
            below(h, ".local/share/opencode"@),
            below(h, ".config/opencode"@),
            below(h, ".cache/opencode"@),
        ],
        None => seq![],
    }
}

/// The directories where `opencode` keeps its own state.
pub fn opencode_state_dirs(home: Option<String>) -> (r: Vec<String>)
    ensures
        strs(r@) == opencode_dirs(opt_str(home)),
{
    let mut out: Vec<String> = Vec::new();
    if let Some(h) = &home {
        push_text(&mut out, join_path(h.as_str(), ".local/share/opencode"));
        push_text(&mut out, join_path(h.as_str(), ".config/opencode"));
        push_text(&mut out, join_path(h.as_str(), ".cache/opencode"));
    }
    assert(strs(out@) =~= opencode_dirs(opt_str(home)));
    out
}

/// Token counts, as large as they may be.
pub struct Counts {
    pub input: nat,
    pub output: nat,
    pub thinking: nat,
    pub cached: nat,
    pub created: nat,
}

impl Counts {
    /// No tokens.
    pub open spec fn zero() -> Counts {
        Counts { input: 0, output: 0, thinking: 0, cached: 0, created: 0 }
    }

    /// With the counts of one step added.
    pub open spec fn plus(self, tokens: JsonView) -> Counts {
        let cache = tokens.at("cache"@);
        Counts {
            input: self.input + tokens.u64_or_zero("input"@) as nat,
            output: self.output + tokens.u64_or_zero("output"@) as nat,
            thinking: self.thinking + tokens.u64_or_zero("reasoning"@) as nat,
            cached: self.cached + cache.u64_or_zero("read"@) as nat,
            created: self.created + cache.u64_or_zero("write"@) as nat,
        }
    }

    /// Whether each of them can be held.
    pub open spec fn fit(self) -> bool {
        self.input <= u64::MAX && self.output <= u64::MAX && self.thinking <= u64::MAX
            && self.cached <= u64::MAX && self.created <= u64::MAX
    }

    /// Whether none of them is greater than the other.
    pub open spec fn at_most(self, other: Counts) -> bool {
        self.input <= other.input && self.output <= other.output && self.thinking <= other.thinking
            && self.cached <= other.cached && self.created <= other.created
    }

    /// The counts as they are reported.
    pub open spec fn usage(self) -> Usage {
        Usage {
            input_tokens: self.input as u64,
            output_tokens: self.output as u64,
            cached_input_tokens: self.cached as u64,
            cache_creation_tokens: self.created as u64,
            thinking_tokens: self.thinking as u64,
        }
    }
}

/// What has been read of an answer: the events so far, the tokens so far, and the
/// error that ended it.
pub struct Reading {
    pub out: Seq<EventView>,
    pub counts: Counts,
    pub err: Option<ErrorView>,
}

impl Reading {
    /// Nothing has been read.
    pub open spec fn start() -> Reading {
        Reading { out: seq![], counts: Counts::zero(), err: None }
    }

    /// What has been read after an object of the answer. `line` is its text.
    pub open spec fn object(self, v: JsonView, line: Seq<char>) -> Reading {
        let kind = v.str_or("type"@, ""@);
        let text = v.at("part"@).str_or("text"@, ""@);
        if kind == "text"@ {
            if text.len() > 0 {
                Reading { out: self.out.push(EventView::Delta { text }), ..self }
            } else {
                self
            }
        } else if kind == "reasoning"@ {
            if text.len() > 0 {
                Reading { out: self.out.push(EventView::ThinkingDelta { text }), ..self }
            } else {
                self
            }
        } else if kind == "step_finish"@ {
            Reading { counts: self.counts.plus(v.at("part"@).at("tokens"@)), ..self }
        } else if kind == "error"@ {
            let raw = match v.get("error"@) {
                Some(e) => serde_print(e),
                None => line,
            };
            Reading {
                err: Some(
                    ErrorView::CliSubprocessDied {
                        exit_code: None,
                        stderr: "opencode error: "@ + ellipsized(raw, 300),
                    },
                ),
                ..self
            }
        } else {
            self
        }
    }

    /// What has been read after a line of the answer. One that is blank or is no JSON
    /// is passed over, and nothing is read after an error.
    pub open spec fn line(self, item: JsonView) -> Reading {
        let line = match item.as_str() {
            Some(s) => s,
            None => ""@,
        };
        if self.err is Some || trimmed(line).len() == 0 {
            self
        } else {
            match serde_parse(line) {
                Ok(v) => self.object(v, line),
                Err(e) => self,
            }
        }
    }
}

/// What has been read after the lines of an answer.
pub open spec fn lines_read(lines: Seq<JsonView>) -> Reading
    decreases lines.len(),
{
    if lines.len() == 0 {
        Reading::start()
    } else {
        lines_read(lines.drop_last()).line(lines.last())
    }
}

/// The events that an answer means. There is no line that ends it, so the end is
/// put after the last.
pub open spec fn opencode_content(payload: JsonView) -> Result<Seq<EventView>, ErrorView> {
    match payload.as_arr() {
        None => Err(
            ErrorView::Parse(
                "opencode runner payload must be a JSONL array, got: "@ + ellipsized(
                    serde_print(payload),
                    200,
                ),
            ),
        ),
        Some(lines) => {
            let read = lines_read(lines);
            match read.err {
                Some(e) => Err(e),
                None => Ok(
                    read.out.push(
                        EventView::Finished {
                            stop_reason: StopReason::EndTurn,
                            usage: read.counts.usage(),
                        },
                    ),
                ),
            }
        },
    }
}

/// Whether the tokens of an answer add up to numbers that can be held.
pub open spec fn opencode_counts_fit(payload: JsonView) -> bool {
    match payload.as_arr() {
        Some(lines) => lines_read(lines).counts.fit(),
        None => true,
    }
}

/// The token counts only grow.
proof fn lemma_counts_grow(lines: Seq<JsonView>, i: int)
    requires
        0 <= i <= lines.len(),
    ensures
        lines_read(lines.take(i)).counts.at_most(lines_read(lines).counts),
    decreases lines.len() - i,
{
    if i == lines.len() {
        assert(lines.take(i) =~= lines);
    } else {
        lemma_counts_grow(lines, i + 1);
        assert(lines.take(i + 1).drop_last() =~= lines.take(i));
    }
}

/// An error in the front of an answer stays.
proof fn lemma_error_stays(lines: Seq<JsonView>, i: int)
    requires
        0 <= i <= lines.len(),
        lines_read(lines.take(i)).err is Some,
    ensures
        lines_read(lines).err == lines_read(lines.take(i)).err,
    decreases lines.len() - i,
{
    if i == lines.len() {
        assert(lines.take(i) =~= lines);
    } else {
        assert(lines.take(i + 1).drop_last() =~= lines.take(i));
        lemma_error_stays(lines, i + 1);
    }
}

/// A failure is never passed over: an answer in which the program reports an error is
/// no reply, whatever else is in it.
pub proof fn law_failure_is_reported(lines: Seq<JsonView>, i: int, v: JsonView)
    requires
        0 <= i < lines.len(),
        lines[i].as_str() is Some,
        trimmed(lines[i].as_str()->0).len() > 0,
        serde_parse(lines[i].as_str()->0) == Ok::<JsonView, Seq<char>>(v),
        v.at("type"@).as_str() == Some("error"@),
    ensures
        opencode_content(JsonView::Arr(lines)) is Err,
{
    reveal_strlit("text");
    reveal_strlit("reasoning");
    reveal_strlit("step_finish");
    reveal_strlit("error");
    assert("text"@.len() == 4);
    assert("reasoning"@.len() == 9);
    assert("step_finish"@.len() == 11);
    assert("error"@.len() == 5);
    let front = lines.take(i + 1);
    assert(front.drop_last() =~= lines.take(i));
    assert(front.last() == lines[i]);
    assert(lines_read(front).err is Some);
    lemma_error_stays(lines, i + 1);
}

/// The counts of one step, added to those before; nothing where a sum cannot be
/// held.
fn add_step_tokens(usage: Usage, tokens: &Json) -> (r: Option<Usage>)
    ensures
        ({
            let before = Counts {
                input: usage.input_tokens as nat,
                output: usage.output_tokens as nat,
                thinking: usage.thinking_tokens as nat,
                cached: usage.cached_input_tokens as nat,
                created: usage.cache_creation_tokens as nat,
            };
            match r {
                Some(u) => before.plus(tokens@).fit() && u == before.plus(tokens@).usage(),
                None => !before.plus(tokens@).fit(),
            }
        }),
{
    let null: Json = Json::Null;
    let cache: &Json = at(tokens, "cache", &null);
    let input: Option<u64> = usage.input_tokens.checked_add(tokens.u64_or_zero("input"));
    let output: Option<u64> = usage.output_tokens.checked_add(tokens.u64_or_zero("output"));
    let thinking: Option<u64> = usage.thinking_tokens.checked_add(tokens.u64_or_zero("reasoning"));
    let cached: Option<u64> = usage.cached_input_tokens.checked_add(cache.u64_or_zero("read"));
    let created: Option<u64> = usage.cache_creation_tokens.checked_add(cache.u64_or_zero("write"));
    match (input, output, thinking, cached, created) {
        (Some(i), Some(o), Some(t), Some(c), Some(w)) => Some(
            Usage {
                input_tokens: i,
                output_tokens: o,
                cached_input_tokens: c,
                cache_creation_tokens: w,
                thinking_tokens: t,
            },
        ),
        _ => None,
    }
}

/// What has been read of an answer.
struct Progress {
    out: Vec<ChatEvent>,
    usage: Usage,
    err: Option<ProviderError>,
}

impl View for Progress {
    type V = Reading;

    closed spec fn view(&self) -> Reading {
        Reading {
            out: events(self.out@),
            counts: Counts {
                input: self.usage.input_tokens as nat,
                output: self.usage.output_tokens as nat,
                thinking: self.usage.thinking_tokens as nat,
                cached: self.usage.cached_input_tokens as nat,
                created: self.usage.cache_creation_tokens as nat,
            },
            err: match self.err {
                Some(e) => Some(e@),
                None => None,
            },
        }
    }
}

/// Reads one object of an answer. Says whether the counts can be held.
fn read_object(p: &mut Progress, v: &Json, line: &str) -> (r: bool)
    ensures
        r == old(p)@.object(v@, line@).counts.fit(),
        r ==> final(p)@ == old(p)@.object(v@, line@),
{
    let null: Json = Json::Null;
    let kind: String = v.str_or("type", "");
    let part: &Json = at(v, "part", &null);
    let kind: &str = kind.as_str();
    if same(kind, "text") {
        let text: String = part.str_or("text", "");
        if !is_empty(text.as_str()) {
            emit(&mut p.out, ChatEvent::Delta { text });
        }
        true
    } else if same(kind, "reasoning") {
        let text: String = part.str_or("text", "");
        if !is_empty(text.as_str()) {
            emit(&mut p.out, ChatEvent::ThinkingDelta { text });
        }
        true
    } else if same(kind, "step_finish") {
        match add_step_tokens(p.usage, at(part, "tokens", &null)) {
            Some(u) => {
                p.usage = u;
                true
            },
            None => false,
        }
    } else if same(kind, "error") {
        let raw: String = match v.get("error") {
            Some(e) => print_json(e),
            None => line.to_owned(),
        };
        let mut msg: String = "opencode error: ".to_owned();
        msg.append(truncate(raw.as_str(), 300).as_str());
        p.err = Some(ProviderError::CliSubprocessDied { exit_code: None, stderr: msg });
        true
    } else {
        true
    }
}

/// Reads the lines of an answer; nothing where the counts cannot be held.
fn read_lines(lines: &Vec<Json>) -> (r: Option<Progress>)
    ensures
        match r {
            Some(p) => lines_read(items_view(lines@)).counts.fit() && p@ == lines_read(
                items_view(lines@),
            ),
            None => !lines_read(items_view(lines@)).counts.fit(),
        },
{
    let ghost whole = items_view(lines@);
    let mut p: Progress = Progress { out: Vec::new(), usage: Usage::default(), err: None };
    let mut i: usize = 0;
    proof {
        lemma_items(lines@);
        assert(events(p.out@) =~= seq![]);
        assert(whole.take(0) =~= seq![]);
    }
    while i < lines.len()
        invariant
            i <= lines@.len(),
            whole == items_view(lines@),
            whole.len() == lines@.len(),
            forall|j: int| 0 <= j < lines@.len() ==> #[trigger] whole[j] == lines@[j]@,
            p@ == lines_read(whole.take(i as int)),
        decreases lines@.len() - i,
    {
        proof {
            assert(whole.take(i + 1).drop_last() =~= whole.take(i as int));
            assert(whole.take(i + 1).last() == lines@[i as int]@);
            lemma_counts_grow(whole, i + 1);
        }
        if p.err.is_none() {
            let line: &str = match lines[i].as_str() {
                Some(s) => s,
                None => "",
            };
            if !is_empty(trim(line).as_str()) {
                if let Ok(v) = parse_json(line) {
                    if !read_object(&mut p, &v, line) {
                        return None;
                    }
                }
            }
        }
        i += 1;
    }
    assert(whole.take(lines@.len() as int) =~= whole);
    Some(p)
}

impl OpenCodeDialect {
    /// The program under this name.
    pub fn new(executable: String, timeout_ms: u64) -> (r: OpenCodeDialect)
        ensures
            r.executable == executable,
            r.timeout_ms == timeout_ms,
    {
        OpenCodeDialect { executable, timeout_ms }
    }

    /// Reads an answer: an array of lines.
    pub fn parse_line(&self, raw: &Json) -> (r: Result<Vec<ChatEvent>, ProviderError>)
        requires
            opencode_counts_fit(raw@),
        ensures
            events_result(r) == opencode_content(raw@),
    {
        match raw.as_arr() {
            None => {
                let mut msg: String =
                    "opencode runner payload must be a JSONL array, got: ".to_owned();
                msg.append(truncate(print_json(raw).as_str(), 200).as_str());
                Err(ProviderError::Parse(msg))
            },
            Some(lines) => {
                match read_lines(lines) {
                    Some(p) => match p.err {
                        Some(e) => Err(e),
                        None => {
                            let mut out: Vec<ChatEvent> = p.out;
                            emit(
                                &mut out,
                                ChatEvent::Finished {
                                    stop_reason: StopReason::EndTurn,
                                    usage: p.usage,
                                },
                            );
                            Ok(out)
                        },
                    },
                    None => {
                        assert(false);
                        Ok(Vec::new())
                    },
                }
            },
        }
    }

    /// Reads an answer whose token counts may not add up to numbers that can be held:
    /// there are no events then.
    pub fn try_parse_line(&self, raw: &Json) -> (r: Option<Result<Vec<ChatEvent>, ProviderError>>)
        ensures
            r is Some <==> opencode_counts_fit(raw@),
            r matches Some(x) ==> events_result(x) == opencode_content(raw@),
    {
        if self.has_fitting_counts(raw) {
            Some(self.parse_line(raw))
        } else {
            None
        }
    }
}

impl CliDialect for OpenCodeDialect {
    open spec fn argv_of(&self, inv: InvocationView) -> Seq<Seq<char>> {
        opencode_argv(inv)
    }

    open spec fn invocation_of(&self, req: ChatRequest, model: Seq<char>, ctx: ContextView) -> Result<
        InvocationView,
        ErrorView,
    > {
        if byte_len(prompt_text(req)) > MAX_PROMPT_BYTES {
            Err(too_long(byte_len(prompt_text(req)), "opencode"@))
        } else {
            Ok(
                InvocationView::neutral(
                    self.executable@,
                    model,
                    prompt_text(req),
                    ctx.call_budget(self.timeout_ms),
                    seq![],
                    ctx.cwd,
                    ctx.sandbox,
                ),
            )
        }
    }

    open spec fn channel_of(&self) -> PromptChannel {
        PromptChannel::Arg
    }

    open spec fn mode_of(&self) -> OutputMode {
        OutputMode::JsonEvents
    }

    open spec fn framing_of(&self) -> OutputFraming {
        OutputFraming::JsonLinesArray
    }

    open spec fn counts_fit(&self, payload: JsonView) -> bool {
        opencode_counts_fit(payload)
    }

    open spec fn content_of(&self, payload: JsonView) -> Result<Seq<EventView>, ErrorView> {
        opencode_content(payload)
    }

    open spec fn env_of(&self) -> Seq<Seq<char>> {
        seq![]
    }

    fn argv(&self, inv: &SubprocessInvocation) -> (r: Vec<String>) {
        build_opencode_argv(inv)
    }

    fn invocation(&self, req: &ChatRequest, model: &str, ctx: &CallContext) -> (r: Result<
        SubprocessInvocation,
        ProviderError,
    >) {
        let prompt: String = render_prompt_for_cli(req);
        let size: usize = byte_count(prompt.as_str());
        if size > MAX_PROMPT_BYTES {
            return Err(too_long_error(size, "opencode"));
        }
        let none: Vec<String> = Vec::new();
        assert(strs(none@) =~= seq![]);
        Ok(
            SubprocessInvocation::neutral(
                self.executable.clone(),
                model.to_owned(),
                prompt,
                ctx.call_budget(self.timeout_ms),
                none,
                copy_opt(&ctx.cwd),
                ctx.sandbox.clone(),
            ),
        )
    }

    fn prompt_channel(&self) -> (r: PromptChannel) {
        PromptChannel::Arg
    }

    fn output_mode(&self) -> (r: OutputMode) {
        OutputMode::JsonEvents
    }

    fn output_framing(&self) -> (r: OutputFraming) {
        OutputFraming::JsonLinesArray
    }

    fn has_fitting_counts(&self, payload: &Json) -> (r: bool) {
        match payload.as_arr() {
            Some(lines) => match read_lines(lines) {
                Some(_) => true,
                None => false,
            },
            None => true,
        }
    }

    fn content(&self, payload: &Json) -> (r: Result<Vec<ChatEvent>, ProviderError>) {
        self.parse_line(payload)
    }

    fn env(&self) -> (r: Vec<&'static str>) {
        let r: Vec<&'static str> = Vec::new();
        assert(names(r@) =~= seq![]);
        r
    }
}

/// Counts that are reported are the sums over all steps of an answer: what a further
/// step adds is added to each of them.
pub proof fn law_steps_are_summed(lines: Seq<JsonView>, step: JsonView, v: JsonView)
    requires
        lines_read(lines).err is None,
        step.as_str() is Some,
        trimmed(step.as_str()->0).len() > 0,
        serde_parse(step.as_str()->0) == Ok::<JsonView, Seq<char>>(v),
        v.str_or("type"@, ""@) == "step_finish"@,
    ensures
        lines_read(lines.push(step)).counts == lines_read(lines).counts.plus(
            v.at("part"@).at("tokens"@),
        ),
        lines_read(lines.push(step)).out == lines_read(lines).out,
{
    reveal_strlit("text");
    reveal_strlit("reasoning");
    reveal_strlit("step_finish");
    assert(lines.push(step).drop_last() =~= lines);
    assert("text"@.len() != "step_finish"@.len());
    assert("reasoning"@.len() != "step_finish"@.len());
}

} // verus!
