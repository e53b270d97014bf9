//! Following Anthropic's program while it works: it prints one JSON object per line, the last of
//! which holds the answer.

use crate::backends::cli::argv::{InvocationView, SubprocessInvocation};
use crate::backends::cli::subprocess::{died_error, program_died, text_lossy, utf8_lossy};
use crate::http_base::{ellipsized, truncate};
use crate::json::{
    at, debug_json, fixed_json, four_places, parse_json, serde_debug, serde_parse, Json, JsonView,
};
use crate::text::{
    byte_count, byte_len, chars_of, decimal, decimal_of, is_empty, same, signed_decimal,
    signed_decimal_of, text_of_range,
};
use crate::types::{json_result, ErrorView, ProviderError};
use vstd::prelude::*;
use vstd::string::*;

verus! {

/// What a session is called as long as its id is not known.
pub const UNKNOWN_SESSION: &'static str = "????????";

/// The first eight characters of an id.
pub open spec fn short_id(id: Seq<char>) -> Seq<char> {
    if id.len() <= 8 {
        id
    } else {
        id.take(8)
    }
}

/// The first eight characters of an id.
fn shorten(id: &str) -> (r: String)
    ensures
        r@ == short_id(id@),
{
    let cs: Vec<char> = chars_of(id);
    let n: usize = if cs.len() <= 8 {
        cs.len()
    } else {
        8
    };
    assert(cs@.subrange(0, n as int) =~= short_id(id@));
    text_of_range(&cs, 0, n)
}

/// A line about a session.
pub open spec fn session_line(sid: Seq<char>, what: Seq<char>) -> Seq<char> {
    "[claude_cli "@ + sid + "] "@ + what
}

/// A line about a session.
fn about(sid: &str, what: &str) -> (r: String)
    ensures
        r@ == session_line(sid@, what@),
{
    let mut out: String = "[claude_cli ".to_owned();
    out.append(sid);
    out.append("] ");
    out.append(what);
    out
}

/// The text that a part of a message carries, under the first of its names that is
/// there.
pub open spec fn chunk_of(delta: JsonView) -> Seq<char> {
    let found = match delta.get("thinking"@) {
        Some(v) => Some(v),
        None => match delta.get("text"@) {
            Some(v) => Some(v),
            None => delta.get("partial_json"@),
        },
    };
    match found {
        Some(v) => match v.as_str() {
            Some(s) => s,
            None => ""@,
        },
        None => ""@,
    }
}

/// What to say of an object that reports the progress of a message.
pub open spec fn progress_summary(ev: JsonView) -> Option<Seq<char>> {
    let event = ev.at("event"@);
    let inner = event.str_or("type"@, "?"@);
    if inner == "message_start"@ {
        Some("message_start ttft="@ + signed_decimal(ev.i64_or("ttft_ms"@, (-1) as i64) as int) + "ms"@)
    } else if inner == "content_block_start"@ {
        Some("block_start kind="@ + event.at("content_block"@).str_or("type"@, "?"@))
    } else if inner == "content_block_delta"@ {
        let delta = event.at("delta"@);
        if chunk_of(delta).len() > 0 {
            Some(delta.str_or("type"@, "?"@) + ": "@ + ellipsized(chunk_of(delta), 200))
        } else {
            None
        }
    } else if inner == "content_block_stop"@ || inner == "message_delta"@ {
        None
    } else if inner == "message_stop"@ {
        Some("message_stop"@)
    } else {
        Some("stream_event/"@ + inner)
    }
}

/// What a session cost. One that does not say cost nothing.
pub open spec fn cost_text(ev: JsonView) -> Seq<char> {
    match four_places(ev.at("total_cost_usd"@)) {
        Some(s) => s,
        None => "0.0000"@,
    }
}

/// What to say of the object that holds the answer.
pub open spec fn result_summary(ev: JsonView) -> Seq<char> {
    let usage = ev.at("usage"@);
    "result "@ + ev.str_or("subtype"@, "?"@) + " dur="@ + signed_decimal(
        ev.i64_or("duration_ms"@, (-1) as i64) as int,
    ) + "ms in="@ + signed_decimal(usage.i64_or("input_tokens"@, 0) as int) + " out="@
        + signed_decimal(usage.i64_or("output_tokens"@, 0) as int) + " cached="@ + signed_decimal(
        usage.i64_or("cache_read_input_tokens"@, 0) as int,
    ) + " cost=$"@ + cost_text(ev)
}

/// What to say of an object.
pub open spec fn summary(ev: JsonView) -> Option<Seq<char>> {
    let kind = ev.str_or("type"@, "?"@);
    if kind == "system"@ {
        let sub = ev.str_or("subtype"@, "?"@);
        if sub == "init"@ {
            Some("init model="@ + ev.str_or("model"@, ""@))
        } else {
            Some(sub + " "@ + ev.str_or("status"@, ""@))
        }
    } else if kind == "rate_limit_event"@ {
        Some("rate_limit "@ + ev.at("rate_limit_info"@).str_or("status"@, "?"@))
    } else if kind == "stream_event"@ {
        progress_summary(ev)
    } else if kind == "assistant"@ || kind == "user"@ {
        None
    } else if kind == "result"@ {
        Some(result_summary(ev))
    } else {
        Some(kind)
    }
}

/// Two texts, one after the other.
fn concat(a: &str, b: &str) -> (r: String)
    ensures
        r@ == a@ + b@,
{
    let mut out: String = a.to_owned();
    out.append(b);
    out
}

/// The text that a part of a message carries.
fn read_chunk(delta: &Json) -> (r: String)
    ensures
        r@ == chunk_of(delta@),
{
    let found: Option<&Json> = match delta.get("thinking") {
        Some(v) => Some(v),
        None => match delta.get("text") {
            Some(v) => Some(v),
            None => delta.get("partial_json"),
        },
    };
    match found {
        Some(v) => match v.as_str() {
            Some(s) => s.to_owned(),
            None => "".to_owned(),
        },
        None => "".to_owned(),
    }
}

/// What an optional text says.
pub open spec fn said(r: Option<String>) -> Option<Seq<char>> {
    match r {
        Some(s) => Some(s@),
        None => None,
    }
}

/// What to say of an object that reports the progress of a message.
fn summarize_progress(ev: &Json) -> (r: Option<String>)
    ensures
        said(r) == progress_summary(ev@),
{
    let null: Json = Json::Null;
    let event: &Json = at(ev, "event", &null);
    let inner: String = event.str_or("type", "?");
    let inner: &str = inner.as_str();
    if same(inner, "message_start") {
        let mut out: String = "message_start ttft=".to_owned();
        out.append(signed_decimal_of(ev.i64_or("ttft_ms", -1)).as_str());
        out.append("ms");
        Some(out)
    } else if same(inner, "content_block_start") {
        let kind: String = at(event, "content_block", &null).str_or("type", "?");
        Some(concat("block_start kind=", kind.as_str()))
    } else if same(inner, "content_block_delta") {
        let delta: &Json = at(event, "delta", &null);
        let chunk: String = read_chunk(delta);
        if is_empty(chunk.as_str()) {
            None
        } else {
            let mut out: String = delta.str_or("type", "?");
            out.append(": ");
            out.append(truncate(chunk.as_str(), 200).as_str());
            Some(out)
        }
    } else if same(inner, "content_block_stop") || same(inner, "message_delta") {
        None
    } else if same(inner, "message_stop") {
        Some("message_stop".to_owned())
    } else {
        Some(concat("stream_event/", inner))
    }
}

/// What to say of the object that holds the answer.
fn summarize_result(ev: &Json) -> (r: String)
    ensures
        r@ == result_summary(ev@),
{
    let null: Json = Json::Null;
    let usage: &Json = at(ev, "usage", &null);
    let mut out: String = "result ".to_owned();
    out.append(ev.str_or("subtype", "?").as_str());
    out.append(" dur=");
    out.append(signed_decimal_of(ev.i64_or("duration_ms", -1)).as_str());
    out.append("ms in=");
    out.append(signed_decimal_of(usage.i64_or("input_tokens", 0)).as_str());
    out.append(" out=");
    out.append(signed_decimal_of(usage.i64_or("output_tokens", 0)).as_str());
    out.append(" cached=");
    out.append(signed_decimal_of(usage.i64_or("cache_read_input_tokens", 0)).as_str());
    out.append(" cost=$");
    match fixed_json(at(ev, "total_cost_usd", &null)) {
        Some(s) => out.append(s.as_str()),
        None => out.append("0.0000"),
    }
    out
}

/// What to say of an object.
pub fn summarize(ev: &Json) -> (r: Option<String>)
    ensures
        said(r) == summary(ev@),
{
    let null: Json = Json::Null;
    let kind: String = ev.str_or("type", "?");
    let name: &str = kind.as_str();
    if same(name, "system") {
        let sub: String = ev.str_or("subtype", "?");
        if same(sub.as_str(), "init") {
            Some(concat("init model=", ev.str_or("model", "").as_str()))
        } else {
            let mut out: String = sub;
            out.append(" ");
            out.append(ev.str_or("status", "").as_str());
            Some(out)
        }
    } else if same(name, "rate_limit_event") {
        let status: String = at(ev, "rate_limit_info", &null).str_or("status", "?");
        Some(concat("rate_limit ", status.as_str()))
    } else if same(name, "stream_event") {
        summarize_progress(ev)
    } else if same(name, "assistant") || same(name, "user") {
        None
    } else if same(name, "result") {
        Some(summarize_result(ev))
    } else {
        Some(kind)
    }
}

/// The one line that an object is reported with, if any.
pub open spec fn event_line(ev: JsonView, sid: Seq<char>) -> Option<Seq<char>> {
    match summary(ev) {
        Some(what) => Some(session_line(sid, what)),
        None => None,
    }
}

/// The one line that an object is reported with, if any.
pub fn emit_event_summary(ev: &Json, sid: &str) -> (r: Option<String>)
    ensures
        said(r) == event_line(ev@, sid@),
{
    match summarize(ev) {
        Some(what) => Some(about(sid, what.as_str())),
        None => None,
    }
}

/// What has been seen of a session.
pub struct StreamReader {
    session: String,
    result: Option<Json>,
}

/// What has been seen of a session: what it is called, and its answer.
pub struct StreamView {
    pub session: Seq<char>,
    pub result: Option<JsonView>,
}

impl View for StreamReader {
    type V = StreamView;

    closed spec fn view(&self) -> StreamView {
        StreamView {
            session: self.session@,
            result: match self.result {
                Some(v) => Some(v@),
                None => None,
            },
        }
    }
}

impl StreamView {
    /// What a session is called once an object has been seen.
    pub open spec fn session_after(self, ev: JsonView) -> Seq<char> {
        match ev.at("session_id"@).as_str() {
            Some(id) => if self.session == UNKNOWN_SESSION@ {
                short_id(id)
            } else {
                self.session
            },
            None => self.session,
        }
    }

    /// What has been seen after a line. One that is no JSON changes nothing.
    pub open spec fn line(self, text: Seq<char>) -> StreamView {
        match serde_parse(text) {
            Err(e) => self,
            Ok(ev) => StreamView {
                session: self.session_after(ev),
                result: if ev.at("type"@).as_str() == Some("result"@) {
                    Some(ev)
                } else {
                    self.result
                },
            },
        }
    }

    /// What to report of a line.
    pub open spec fn report(self, text: Seq<char>) -> Option<Seq<char>> {
        match serde_parse(text) {
            Err(e) => Some(
                session_line(
                    self.session,
                    "!! non-json stdout line ("@ + e + "): "@ + ellipsized(text, 200),
                ),
            ),
            Ok(ev) => event_line(ev, self.session_after(ev)),
        }
    }
}

/// How the run of a program that is followed came to an end.
#[derive(Debug)]
pub enum StreamEnd {
    /// It took too long and was stopped.
    OutOfTime { stderr: Vec<u8> },
    /// Its output could not be read.
    ReadFailed { error: String },
    /// It could not be waited for.
    WaitFailed { error: String, stderr: Vec<u8> },
    /// It ended by itself.
    Exited { success: bool, code: Option<i32>, stderr: Vec<u8> },
}

/// What such an end says.
pub enum StreamEndView {
    OutOfTime { stderr: Seq<u8> },
    ReadFailed { error: Seq<char> },
    WaitFailed { error: Seq<char>, stderr: Seq<u8> },
    Exited { success: bool, code: Option<i32>, stderr: Seq<u8> },
}

impl View for StreamEnd {
    type V = StreamEndView;

    open spec fn view(&self) -> StreamEndView {
        match self {
            StreamEnd::OutOfTime { stderr } => StreamEndView::OutOfTime { stderr: stderr@ },
            StreamEnd::ReadFailed { error } => StreamEndView::ReadFailed { error: error@ },
            StreamEnd::WaitFailed { error, stderr } => StreamEndView::WaitFailed {
                error: error@,
                stderr: stderr@,
            },
            StreamEnd::Exited { success, code, stderr } => StreamEndView::Exited {
                success: *success,
                code: *code,
                stderr: stderr@,
            },
        }
    }
}

/// The first of what a program wrote on its standard error.
pub open spec fn diagnostics(stderr: Seq<u8>) -> Seq<char> {
    ellipsized(utf8_lossy(stderr), 500)
}

/// The answer that a session ended with. An object that says so itself is an error.
pub open spec fn streamed_answer(
    program: Seq<char>,
    result: Option<JsonView>,
    code: Option<i32>,
) -> Result<JsonView, ErrorView> {
    match result {
        None => Err(
            ErrorView::Parse(
                "stream-json mode: child exited without emitting a `result` event"@,
            ),
        ),
        Some(JsonView::Obj(m)) => {
            let v = JsonView::Obj(m.remove("type"@));
            if v.true_at("is_error"@) {
                Err(
                    program_died(
                        code,
                        program + " reported is_error: "@ + v.str_or(
                            "result"@,
                            "(no detail in result event)"@,
                        ),
                    ),
                )
            } else {
                Ok(v)
            }
        },
        Some(other) => Err(
            ErrorView::Parse("stream-json result is not an object: "@ + serde_debug(other)),
        ),
    }
}

/// What the run of a program that is followed came to.
pub open spec fn stream_outcome(
    program: Seq<char>,
    inv: InvocationView,
    result: Option<JsonView>,
    end: StreamEndView,
) -> Result<JsonView, ErrorView> {
    match end {
        StreamEndView::OutOfTime { stderr } => Err(
            ErrorView::TimedOut {
                budget_ms: inv.timeout_ms,
                detail: "stream-json child killed after wall-clock timeout (model="@ + inv.model
                    + ", prompt_chars="@ + decimal(byte_len(inv.prompt)) + ", stderr: "@
                    + diagnostics(stderr) + ")"@,
            },
        ),
        StreamEndView::ReadFailed { error } => Err(
            program_died(None, "stream read failed: "@ + error),
        ),
        StreamEndView::WaitFailed { error, stderr } => Err(
            program_died(
                None,
                "wait failed: "@ + error + " (stderr: "@ + diagnostics(stderr) + ")"@,
            ),
        ),
        StreamEndView::Exited { success, code, stderr } => if success {
            streamed_answer(program, result, code)
        } else {
            Err(program_died(code, diagnostics(stderr)))
        },
    }
}

/// The first of what a program wrote on its standard error.
fn diagnose(stderr: &Vec<u8>) -> (r: String)
    ensures
        r@ == diagnostics(stderr@),
{
    truncate(text_lossy(stderr).as_str(), 500)
}

impl StreamReader {
    /// Nothing has been seen.
    pub fn new() -> (r: StreamReader)
        ensures
            r@ == (StreamView { session: UNKNOWN_SESSION@, result: None }),
    {
        StreamReader { session: UNKNOWN_SESSION.to_owned(), result: None }
    }

    /// Takes note of a line. Gives what to report of it.
    pub fn on_line(&mut self, line: &str) -> (r: Option<String>)
        ensures
            final(self)@ == old(self)@.line(line@),
            said(r) == old(self)@.report(line@),
    {
        match parse_json(line) {
            Err(e) => {
                let mut what: String = "!! non-json stdout line (".to_owned();
                what.append(e.as_str());
                what.append("): ");
                what.append(truncate(line, 200).as_str());
                Some(about(self.session.as_str(), what.as_str()))
            },
            Ok(ev) => {
                if same(self.session.as_str(), UNKNOWN_SESSION) {
                    if let Some(id) = ev.str_at("session_id") {
                        self.session = shorten(id);
                    }
                }
                let report: Option<String> = emit_event_summary(&ev, self.session.as_str());
                let is_result: bool = match ev.str_at("type") {
                    Some(kind) => same(kind, "result"),
                    None => false,
                };
                if is_result {
                    self.result = Some(ev);
                }
                report
            },
        }
    }

    /// The answer that the session ended with.
    fn answer(&self, program: &str, code: Option<i32>) -> (r: Result<Json, ProviderError>)
        ensures
            json_result(r) == streamed_answer(program@, self@.result, code),
    {
        match &self.result {
            None => Err(
                ProviderError::Parse(
                    "stream-json mode: child exited without emitting a `result` event".to_owned(),
                ),
            ),
            Some(ev) => {
                if !ev.is_object() {
                    let mut msg: String = "stream-json result is not an object: ".to_owned();
                    msg.append(debug_json(ev).as_str());
                    return Err(ProviderError::Parse(msg));
                }
                let v: Json = ev.without("type");
                if v.true_at("is_error") {
                    let mut msg: String = program.to_owned();
                    msg.append(" reported is_error: ");
                    msg.append(v.str_or("result", "(no detail in result event)").as_str());
                    return Err(died_error(code, msg));
                }
                Ok(v)
            },
        }
    }

    /// What the run of this program came to.
    pub fn conclude(&self, program: &str, inv: &SubprocessInvocation, end: &StreamEnd) -> (r:
        Result<Json, ProviderError>)
        ensures
            json_result(r) == stream_outcome(program@, inv@, self@.result, end@),
    {
        match end {
            StreamEnd::OutOfTime { stderr } => {
                let mut detail: String =
                    "stream-json child killed after wall-clock timeout (model=".to_owned();
                detail.append(inv.model.as_str());
                detail.append(", prompt_chars=");
                detail.append(decimal_of(byte_count(inv.prompt.as_str()) as u64).as_str());
                detail.append(", stderr: ");
                detail.append(diagnose(stderr).as_str());
                detail.append(")");
                Err(ProviderError::TimedOut { budget_ms: inv.timeout_ms, detail })
            },
            StreamEnd::ReadFailed { error } => Err(
                died_error(None, concat("stream read failed: ", error.as_str())),
            ),
            StreamEnd::WaitFailed { error, stderr } => {
                let mut msg: String = "wait failed: ".to_owned();
                msg.append(error.as_str());
                msg.append(" (stderr: ");
                msg.append(diagnose(stderr).as_str());
                msg.append(")");
                Err(died_error(None, msg))
            },
            StreamEnd::Exited { success, code, stderr } => {
                if *success {
                    self.answer(program, *code)
                } else {
                    Err(died_error(*code, diagnose(stderr)))
                }
            },
        }
    }
}

/// One of the two outputs of a program.
#[derive(Debug, Clone, Copy, PartialEq, Eq, Structural)]
pub enum Output {
    Stdout,
    Stderr,
}

/// The error where a program cannot be followed, as this output of it has no pipe.
pub open spec fn unfollowed(what: Output) -> ErrorView {
    program_died(
        None,
        "stream-json: "@ + (match what {
            Output::Stdout => "stdout"@,
            Output::Stderr => "stderr"@,
        }) + " pipe missing on spawned child"@,
    )
}

/// The error where a program cannot be followed, as this output of it has no pipe.
pub fn missing_output(what: Output) -> (r: ProviderError)
    ensures
        r@ == unfollowed(what),
{
    let mut msg: String = "stream-json: ".to_owned();
    msg.append(
        match what {
            Output::Stdout => "stdout",
            Output::Stderr => "stderr",
        },
    );
    msg.append(" pipe missing on spawned child");
    died_error(None, msg)
}

/// What has been seen of a session after these lines.
pub open spec fn followed(lines: Seq<Seq<char>>) -> StreamView
    decreases lines.len(),
{
    if lines.len() == 0 {
        StreamView { session: UNKNOWN_SESSION@, result: None }
    } else {
        followed(lines.drop_last()).line(lines.last())
    }
}

/// Whether a line holds an answer.
pub open spec fn is_result_line(line: Seq<char>) -> bool {
    serde_parse(line) matches Ok(ev) && ev.at("type"@).as_str() == Some("result"@)
}

proof fn lemma_no_result(lines: Seq<Seq<char>>)
    requires
        forall|i: int| 0 <= i < lines.len() ==> !is_result_line(#[trigger] lines[i]),
    ensures
        followed(lines).result is None,
    decreases lines.len(),
{
    if lines.len() > 0 {
        let front = lines.drop_last();
        assert forall|i: int| 0 <= i < front.len() implies !is_result_line(
            #[trigger] front[i],
        ) by {
            assert(front[i] == lines[i]);
        }
        lemma_no_result(front);
        assert(!is_result_line(lines[lines.len() - 1]));
    }
}

/// A program that has printed no answer has not answered, however it came to its end:
/// what comes back is an error, never an empty value.
pub proof fn law_no_answer_without_result(
    program: Seq<char>,
    inv: InvocationView,
    lines: Seq<Seq<char>>,
    end: StreamEndView,
)
    requires
        forall|i: int| 0 <= i < lines.len() ==> !is_result_line(#[trigger] lines[i]),
    ensures
        stream_outcome(program, inv, followed(lines).result, end) is Err,
{
    lemma_no_result(lines);
}

/// What a program that is followed answers has the shape that it has when it is not
/// followed: the object that ends it, without the member that tells what it is.
pub proof fn law_streamed_answer_has_no_type(
    program: Seq<char>,
    result: JsonView,
    code: Option<i32>,
    v: JsonView,
)
    requires
        streamed_answer(program, Some(result), code) == Ok::<JsonView, ErrorView>(v),
    ensures
        v is Obj,
        v.get("type"@) is None,
        forall|key: Seq<char>| key != "type"@ ==> #[trigger] v.get(key) == result.get(key),
{
}

} // verus!
