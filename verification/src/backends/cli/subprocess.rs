//! What the output of a command-line program means.

use crate::backends::cli::argv::{InvocationView, SubprocessInvocation};
use crate::backends::cli::dialect::{CliDialect, OutputFraming};
use crate::backends::cli::paths::{cli_label, label};
use crate::http_base::{ellipsized, header_views, to_uppercase, truncate, uppercase};
use crate::json::{
    debug_json, items_view, parse_json, push_item, serde_debug, serde_parse, Json, JsonView,
};
use crate::text::{
    all_ascii, byte_count, byte_len, chars_of, decimal, decimal_of, is_among, is_ascii_text, lines,
    raised, split_lines, strs, text_of_range, to_ascii_upper,
};
use crate::types::{json_result, no_usage, ErrorView, ProviderError, Usage};
use vstd::prelude::*;
use vstd::string::*;
use vstd::utf8::*;

verus! {

/// The answer of Anthropic's program: its `result`, or nothing.
pub open spec fn result_text(payload: JsonView) -> Seq<char> {
    payload.str_or("result"@, ""@)
}

/// The answer of Anthropic's program.
pub fn extract_result_text(payload: &Json) -> (r: String)
    ensures
        r@ == result_text(payload@),
{
    payload.str_or("result", "")
}

/// The size of the whole prompt: what was read anew, read from the cache and written
/// to it are counted apart.
pub open spec fn whole_input(u: JsonView) -> int {
    u.u64_or_zero("input_tokens"@) + u.u64_or_zero("cache_read_input_tokens"@) + u.u64_or_zero(
        "cache_creation_input_tokens"@,
    )
}

/// Whether the size of the whole prompt can be held.
pub open spec fn usage_fits(payload: JsonView) -> bool {
    payload.at("usage"@) is Obj ==> whole_input(payload.at("usage"@)) <= u64::MAX
}

/// The token counts of an answer of Anthropic's program.
pub open spec fn cli_usage(payload: JsonView) -> Usage {
    let u = payload.at("usage"@);
    if u is Obj {
        Usage {
            input_tokens: whole_input(u) as u64,
            output_tokens: u.u64_or_zero("output_tokens"@),
            cached_input_tokens: u.u64_or_zero("cache_read_input_tokens"@),
            cache_creation_tokens: u.u64_or_zero("cache_creation_input_tokens"@),
            thinking_tokens: 0,
        }
    } else {
        no_usage()
    }
}

/// Whether the size of the whole prompt can be held.
pub fn has_fitting_usage(payload: &Json) -> (r: bool)
    ensures
        r == usage_fits(payload@),
{
    match payload.get("usage") {
        Some(u) if u.is_object() => {
            let fresh: u64 = u.u64_or_zero("input_tokens");
            let cached: u64 = u.u64_or_zero("cache_read_input_tokens");
            let created: u64 = u.u64_or_zero("cache_creation_input_tokens");
            fresh as u128 + cached as u128 + created as u128 <= u64::MAX as u128
        },
        _ => true,
    }
}

/// The token counts of an answer of Anthropic's program.
pub fn extract_usage(payload: &Json) -> (r: Usage)
    requires
        usage_fits(payload@),
    ensures
        r == cli_usage(payload@),
{
    match payload.get("usage") {
        Some(u) if u.is_object() => {
            let fresh: u64 = u.u64_or_zero("input_tokens");
            let cached: u64 = u.u64_or_zero("cache_read_input_tokens");
            let created: u64 = u.u64_or_zero("cache_creation_input_tokens");
            Usage {
                input_tokens: fresh + cached + created,
                output_tokens: u.u64_or_zero("output_tokens"),
                cached_input_tokens: cached,
                cache_creation_tokens: created,
                thinking_tokens: 0,
            }
        },
        _ => Usage::default(),
    }
}

/// What was read from the cache and written to it is part of the prompt.
pub proof fn law_input_covers_cache(payload: JsonView)
    requires
        usage_fits(payload),
    ensures
        cli_usage(payload).cached_input_tokens + cli_usage(payload).cache_creation_tokens
            <= cli_usage(payload).input_tokens,
{
}

/// The text of bytes, with what is not UTF-8 replaced.
pub uninterp spec fn utf8_lossy(bytes: Seq<u8>) -> Seq<char>;

/// `String::from_utf8_lossy`: the text that the bytes encode where they are UTF-8,
/// and otherwise a text in which the rest is replaced. It is a function of the bytes.
#[verifier::external_body]
pub(crate) fn text_lossy(bytes: &Vec<u8>) -> (r: String)
    ensures
        r@ == utf8_lossy(bytes@),
        valid_utf8(bytes@) ==> r@ == decode_utf8(bytes@),
{
    String::from_utf8_lossy(bytes).into_owned()
}

/// How the run of a program came to an end.
#[derive(Debug)]
pub enum Ended {
    /// It could not be waited for.
    WaitFailed { error: String },
    /// It took too long.
    OutOfTime,
    /// It ended by itself.
    Exited { success: bool, code: Option<i32>, stdout: Vec<u8>, stderr: Vec<u8> },
}

/// What the end of a run says.
pub enum EndedView {
    WaitFailed { error: Seq<char> },
    OutOfTime,
    Exited { success: bool, code: Option<i32>, stdout: Seq<u8>, stderr: Seq<u8> },
}

impl View for Ended {
    type V = EndedView;

    open spec fn view(&self) -> EndedView {
        match self {
            Ended::WaitFailed { error } => EndedView::WaitFailed { error: error@ },
            Ended::OutOfTime => EndedView::OutOfTime,
            Ended::Exited { success, code, stdout, stderr } => EndedView::Exited {
                success: *success,
                code: *code,
                stdout: stdout@,
                stderr: stderr@,
            },
        }
    }
}

/// The error for a program that has failed.
pub open spec fn program_died(code: Option<i32>, stderr: Seq<char>) -> ErrorView {
    ErrorView::CliSubprocessDied { exit_code: code, stderr }
}

/// The error for a program that has failed.
pub fn died_error(code: Option<i32>, stderr: String) -> (r: ProviderError)
    ensures
        r@ == program_died(code, stderr@),
{
    ProviderError::CliSubprocessDied { exit_code: code, stderr }
}

/// What Anthropic's program printed, read as its answer.
pub open spec fn claude_answer(program: Seq<char>, stdout: Seq<char>) -> Result<JsonView, ErrorView> {
    match serde_parse(stdout) {
        Err(e) => Err(
            ErrorView::Parse(
                program + " CLI non-JSON stdout: "@ + e + " (first 300: "@ + ellipsized(stdout, 300)
                    + ")"@,
            ),
        ),
        Ok(v) => if !(v is Obj) {
            Err(
                ErrorView::Parse(
                    program + " CLI returned non-object JSON ("@ + serde_debug(v) + ")"@,
                ),
            )
        } else if v.true_at("is_error"@) {
            Err(
                program_died(
                    Some(0i32),
                    program + " CLI returned error: "@ + ellipsized(
                        v.str_or("result"@, "<no detail>"@),
                        300,
                    ),
                ),
            )
        } else {
            Ok(v)
        },
    }
}

/// What the run of Anthropic's program came to.
pub open spec fn claude_outcome(
    program: Seq<char>,
    inv: InvocationView,
    end: EndedView,
) -> Result<JsonView, ErrorView> {
    match end {
        EndedView::WaitFailed { error } => Err(program_died(None, "wait failed: "@ + error)),
        EndedView::OutOfTime => Err(
            program_died(
                None,
                "timed out after "@ + decimal((inv.timeout_ms / 1000) as nat) + "s (model="@
                    + inv.model + ", prompt_chars="@ + decimal(byte_len(inv.prompt)) + ")"@,
            ),
        ),
        EndedView::Exited { success, code, stdout, stderr } => if success {
            claude_answer(program, utf8_lossy(stdout))
        } else {
            Err(program_died(code, ellipsized(utf8_lossy(stderr), 500)))
        },
    }
}

/// Reads what Anthropic's program printed.
fn read_claude_answer(program: &str, stdout: &str) -> (r: Result<Json, ProviderError>)
    ensures
        json_result(r) == claude_answer(program@, stdout@),
{
    match parse_json(stdout) {
        Err(e) => {
            let mut msg: String = program.to_owned();
            msg.append(" CLI non-JSON stdout: ");
            msg.append(e.as_str());
            msg.append(" (first 300: ");
            msg.append(truncate(stdout, 300).as_str());
            msg.append(")");
            Err(ProviderError::Parse(msg))
        },
        Ok(v) => {
            if !v.is_object() {
                let mut msg: String = program.to_owned();
                msg.append(" CLI returned non-object JSON (");
                msg.append(debug_json(&v).as_str());
                msg.append(")");
                return Err(ProviderError::Parse(msg));
            }
            if v.true_at("is_error") {
                let detail: String = v.str_or("result", "<no detail>");
                let mut msg: String = program.to_owned();
                msg.append(" CLI returned error: ");
                msg.append(truncate(detail.as_str(), 300).as_str());
                return Err(died_error(Some(0), msg));
            }
            Ok(v)
        },
    }
}

/// The runner of Anthropic's program, which its messages call by this name.
#[derive(Debug)]
pub struct RealSubprocessRunner {
    pub program: String,
}

impl RealSubprocessRunner {
    /// What a run came to.
    pub fn conclude(&self, inv: &SubprocessInvocation, end: &Ended) -> (r: Result<
        Json,
        ProviderError,
    >)
        ensures
            json_result(r) == claude_outcome(self.program@, inv@, end@),
    {
        match end {
            Ended::WaitFailed { error } => {
                let mut msg: String = "wait failed: ".to_owned();
                msg.append(error.as_str());
                Err(died_error(None, msg))
            },
            Ended::OutOfTime => {
                let mut msg: String = "timed out after ".to_owned();
                msg.append(decimal_of(inv.timeout_ms / 1000).as_str());
                msg.append("s (model=");
                msg.append(inv.model.as_str());
                msg.append(", prompt_chars=");
                msg.append(decimal_of(byte_count(inv.prompt.as_str()) as u64).as_str());
                msg.append(")");
                Err(died_error(None, msg))
            },
            Ended::Exited { success, code, stdout, stderr } => {
                if *success {
                    read_claude_answer(self.program.as_str(), text_lossy(stdout).as_str())
                } else {
                    Err(died_error(*code, truncate(text_lossy(stderr).as_str(), 500)))
                }
            },
        }
    }
}

/// Where the first opening brace of a text is; its start where there is none.
pub open spec fn brace_at(s: Seq<char>, i: int) -> int
    decreases s.len() - i,
{
    if i < 0 || i >= s.len() {
        0
    } else if s[i] == '{' {
        i
    } else {
        brace_at(s, i + 1)
    }
}

/// A text from its first opening brace on; the whole text where there is none.
pub open spec fn from_brace(s: Seq<char>) -> Seq<char> {
    s.skip(brace_at(s, 0))
}

/// Drops what stands before the first opening brace.
fn strip_to_brace(s: &str) -> (r: String)
    ensures
        r@ == from_brace(s@),
{
    let cs: Vec<char> = chars_of(s);
    let n: usize = cs.len();
    let mut i: usize = 0;
    while i < n && cs[i] != '{'
        invariant
            i <= n == cs@.len(),
            brace_at(cs@, i as int) == brace_at(cs@, 0),
        decreases n - i,
    {
        i += 1;
    }
    let from: usize = if i < n {
        i
    } else {
        0
    };
    assert(cs@.subrange(from as int, n as int) =~= cs@.skip(from as int));
    text_of_range(&cs, from, n)
}

/// What a program printed, put together to one value.
pub open spec fn framed(framing: OutputFraming, name: Seq<char>, stdout: Seq<char>) -> Result<
    JsonView,
    ErrorView,
> {
    match framing {
        OutputFraming::SingleObject { strip_prefix } => {
            let text = if strip_prefix {
                from_brace(stdout)
            } else {
                stdout
            };
            match serde_parse(text) {
                Err(e) => Err(
                    ErrorView::Parse(
                        name + " CLI non-JSON stdout: "@ + e + " (first 300: "@ + ellipsized(
                            stdout,
                            300,
                        ) + ")"@,
                    ),
                ),
                Ok(v) => if v is Obj {
                    Ok(v)
                } else {
                    Err(
                        ErrorView::Parse(
                            name + " CLI returned non-object JSON ("@ + serde_debug(v) + ")"@,
                        ),
                    )
                },
            }
        },
        OutputFraming::JsonLinesArray => Ok(
            JsonView::Arr(lines(stdout).map_values(|l: Seq<char>| JsonView::Str(l))),
        ),
        OutputFraming::RawText => Ok(JsonView::Str(stdout)),
    }
}

/// What the run of a program came to.
pub open spec fn shared_outcome(
    inv: InvocationView,
    framing: OutputFraming,
    end: EndedView,
) -> Result<JsonView, ErrorView> {
    let name = label(inv.executable);
    match end {
        EndedView::WaitFailed { error } => Err(program_died(None, "wait failed: "@ + error)),
        EndedView::OutOfTime => Err(
            program_died(
                None,
                "timed out after "@ + decimal((inv.timeout_ms / 1000) as nat) + "s (model="@
                    + inv.model + ")"@,
            ),
        ),
        EndedView::Exited { success, code, stdout, stderr } => if success {
            framed(framing, name, utf8_lossy(stdout))
        } else {
            Err(
                program_died(
                    code,
                    name + " exited non-zero: "@ + ellipsized(utf8_lossy(stderr), 500),
                ),
            )
        },
    }
}

/// The lines of a text as the strings of an array.
fn lines_json(stdout: &str) -> (r: Json)
    ensures
        r@ == JsonView::Arr(lines(stdout@).map_values(|l: Seq<char>| JsonView::Str(l))),
{
    let parts: Vec<String> = split_lines(stdout);
    let ghost whole = lines(stdout@).map_values(|l: Seq<char>| JsonView::Str(l));
    let mut out: Vec<Json> = Vec::new();
    let mut i: usize = 0;
    assert(items_view(out@) =~= whole.take(0));
    while i < parts.len()
        invariant
            i <= parts@.len(),
            strs(parts@) == lines(stdout@),
            whole == lines(stdout@).map_values(|l: Seq<char>| JsonView::Str(l)),
            items_view(out@) == whole.take(i as int),
        decreases parts@.len() - i,
    {
        assert(strs(parts@)[i as int] == parts@[i as int]@);
        push_item(&mut out, Json::Str(parts[i].clone()));
        assert(whole.take(i + 1) =~= whole.take(i as int).push(JsonView::Str(parts@[i as int]@)));
        i += 1;
    }
    assert(strs(parts@).len() == parts@.len());
    assert(whole.take(parts@.len() as int) =~= whole);
    Json::Arr(out)
}

/// Puts together what a program printed.
fn frame_output(framing: OutputFraming, name: &str, stdout: &str) -> (r: Result<
    Json,
    ProviderError,
>)
    ensures
        json_result(r) == framed(framing, name@, stdout@),
{
    match framing {
        OutputFraming::SingleObject { strip_prefix } => {
            let text: String = if strip_prefix {
                strip_to_brace(stdout)
            } else {
                stdout.to_owned()
            };
            match parse_json(text.as_str()) {
                Err(e) => {
                    let mut msg: String = name.to_owned();
                    msg.append(" CLI non-JSON stdout: ");
                    msg.append(e.as_str());
                    msg.append(" (first 300: ");
                    msg.append(truncate(stdout, 300).as_str());
                    msg.append(")");
                    Err(ProviderError::Parse(msg))
                },
                Ok(v) => {
                    if v.is_object() {
                        return Ok(v);
                    }
                    let mut msg: String = name.to_owned();
                    msg.append(" CLI returned non-object JSON (");
                    msg.append(debug_json(&v).as_str());
                    msg.append(")");
                    Err(ProviderError::Parse(msg))
                },
            }
        },
        OutputFraming::JsonLinesArray => Ok(lines_json(stdout)),
        OutputFraming::RawText => Ok(Json::text(stdout)),
    }
}

/// The runner that all other programs share.
pub struct SharedCliRunner<D> {
    pub dialect: D,
}

impl<D: CliDialect> SharedCliRunner<D> {
    /// The runner of a program.
    pub fn new(dialect: D) -> (r: SharedCliRunner<D>)
        ensures
            r.dialect == dialect,
    {
        SharedCliRunner { dialect }
    }

    /// What a run came to.
    pub fn conclude(&self, inv: &SubprocessInvocation, end: &Ended) -> (r: Result<
        Json,
        ProviderError,
    >)
        ensures
            json_result(r) == shared_outcome(inv@, self.dialect.framing_of(), end@),
    {
        let name: String = cli_label(inv.executable.as_str());
        match end {
            Ended::WaitFailed { error } => {
                let mut msg: String = "wait failed: ".to_owned();
                msg.append(error.as_str());
                Err(died_error(None, msg))
            },
            Ended::OutOfTime => {
                let mut msg: String = "timed out after ".to_owned();
                msg.append(decimal_of(inv.timeout_ms / 1000).as_str());
                msg.append("s (model=");
                msg.append(inv.model.as_str());
                msg.append(")");
                Err(died_error(None, msg))
            },
            Ended::Exited { success, code, stdout, stderr } => {
                if *success {
                    frame_output(
                        self.dialect.output_framing(),
                        name.as_str(),
                        text_lossy(stdout).as_str(),
                    )
                } else {
                    let mut msg: String = name;
                    msg.append(" exited non-zero: ");
                    msg.append(truncate(text_lossy(stderr).as_str(), 500).as_str());
                    Err(died_error(*code, msg))
                }
            },
        }
    }
}

/// Why a program could not be started.
#[derive(Debug, Clone, Copy, PartialEq, Eq, Structural)]
pub enum SpawnFailure {
    NotFound,
    PermissionDenied,
    Other,
}

/// The message for a program that could not be started.
pub open spec fn spawn_message(
    executable: Seq<char>,
    why: SpawnFailure,
    error: Seq<char>,
) -> Seq<char> {
    match why {
        SpawnFailure::NotFound => "`"@ + executable + "` not found in PATH"@,
        SpawnFailure::PermissionDenied => "`"@ + executable + "` not executable: "@ + error,
        SpawnFailure::Other => "spawn failed: "@ + error,
    }
}

/// The error for a program that could not be started.
pub fn spawn_error(executable: &str, why: SpawnFailure, error: &str) -> (r: ProviderError)
    ensures
        r@ == program_died(None, spawn_message(executable@, why, error@)),
{
    let msg: String = match why {
        SpawnFailure::NotFound => {
            let mut m: String = "`".to_owned();
            m.append(executable);
            m.append("` not found in PATH");
            m
        },
        SpawnFailure::PermissionDenied => {
            let mut m: String = "`".to_owned();
            m.append(executable);
            m.append("` not executable: ");
            m.append(error);
            m
        },
        SpawnFailure::Other => {
            let mut m: String = "spawn failed: ".to_owned();
            m.append(error);
            m
        },
    };
    died_error(None, msg)
}

/// Why a started program did not get its prompt.
#[derive(Debug)]
pub enum PromptFailure {
    /// There is no pipe to write it to.
    NoPipe,
    /// It could not be written.
    Write { error: String },
}

/// The error of Anthropic's program for a prompt that it did not get.
pub open spec fn claude_prompt_failure(
    program: Seq<char>,
    inv: InvocationView,
    why: PromptFailure,
) -> ErrorView {
    match why {
        PromptFailure::NoPipe => ErrorView::Internal(
            program + " child has no stdin pipe (Stdio::piped above)"@,
        ),
        PromptFailure::Write { error } => program_died(
            None,
            "stdin write failed after "@ + decimal(byte_len(inv.prompt)) + " prompt bytes: "@
                + error@,
        ),
    }
}

impl RealSubprocessRunner {
    /// The error for a prompt that the program did not get.
    pub fn prompt_error(&self, inv: &SubprocessInvocation, why: PromptFailure) -> (r: ProviderError)
        ensures
            r@ == claude_prompt_failure(self.program@, inv@, why),
    {
        match why {
            PromptFailure::NoPipe => {
                let mut msg: String = self.program.clone();
                msg.append(" child has no stdin pipe (Stdio::piped above)");
                ProviderError::Internal(msg)
            },
            PromptFailure::Write { error } => {
                let mut msg: String = "stdin write failed after ".to_owned();
                msg.append(decimal_of(byte_count(inv.prompt.as_str()) as u64).as_str());
                msg.append(" prompt bytes: ");
                msg.append(error.as_str());
                died_error(None, msg)
            },
        }
    }
}

/// The error of any other program for a prompt that it did not get.
pub open spec fn prompt_failure(inv: InvocationView, why: PromptFailure) -> ErrorView {
    match why {
        PromptFailure::NoPipe => ErrorView::Internal(
            label(inv.executable) + " child has no stdin pipe (piped above)"@,
        ),
        PromptFailure::Write { error } => program_died(None, "stdin write failed: "@ + error@),
    }
}

impl<D: CliDialect> SharedCliRunner<D> {
    /// The error for a prompt that the program did not get.
    pub fn prompt_error(&self, inv: &SubprocessInvocation, why: PromptFailure) -> (r: ProviderError)
        ensures
            r@ == prompt_failure(inv@, why),
    {
        match why {
            PromptFailure::NoPipe => {
                let mut msg: String = cli_label(inv.executable.as_str());
                msg.append(" child has no stdin pipe (piped above)");
                ProviderError::Internal(msg)
            },
            PromptFailure::Write { error } => {
                let mut msg: String = "stdin write failed: ".to_owned();
                msg.append(error.as_str());
                died_error(None, msg)
            },
        }
    }
}

/// A text in upper case.
pub open spec fn upper(s: Seq<char>) -> Seq<char> {
    if is_ascii_text(s) {
        raised(s)
    } else {
        uppercase(s)
    }
}

/// A text in upper case.
fn upper_text(s: &str) -> (r: String)
    ensures
        r@ == upper(s@),
{
    if all_ascii(s) {
        to_ascii_upper(s)
    } else {
        to_uppercase(s)
    }
}

/// The environment that a program gets: all variables but those that are kept from
/// it, however their names are written.
pub open spec fn child_env(
    vars: Seq<(Seq<char>, Seq<char>)>,
    stripped: Seq<Seq<char>>,
) -> Seq<(Seq<char>, Seq<char>)> {
    vars.filter(|kv: (Seq<char>, Seq<char>)| !stripped.contains(upper(kv.0)))
}

/// The environment that a program gets.
pub fn kept_env(vars: &Vec<(String, String)>, stripped: &Vec<String>) -> (r: Vec<(String, String)>)
    ensures
        header_views(r@) == child_env(header_views(vars@), strs(stripped@)),
{
    let ghost keep = |kv: (Seq<char>, Seq<char>)| !strs(stripped@).contains(upper(kv.0));
    let ghost whole = header_views(vars@);
    let mut out: Vec<(String, String)> = Vec::new();
    let mut i: usize = 0;
    proof {
        reveal(Seq::filter);
        assert(header_views(out@) =~= whole.take(0).filter(keep));
    }
    while i < vars.len()
        invariant
            i <= vars@.len(),
            whole == header_views(vars@),
            keep == (|kv: (Seq<char>, Seq<char>)| !strs(stripped@).contains(upper(kv.0))),
            header_views(out@) == whole.take(i as int).filter(keep),
        decreases vars@.len() - i,
    {
        proof {
            reveal(Seq::filter);
            assert(whole.take(i + 1).drop_last() =~= whole.take(i as int));
            assert(whole.take(i + 1).last() == (vars@[i as int].0@, vars@[i as int].1@));
        }
        if !is_among(stripped, upper_text(vars[i].0.as_str()).as_str()) {
            let ghost before = out@;
            out.push((vars[i].0.clone(), vars[i].1.clone()));
            assert(header_views(out@) =~= header_views(before).push(
                (vars@[i as int].0@, vars@[i as int].1@),
            ));
        }
        i += 1;
    }
    assert(whole.take(vars@.len() as int) =~= whole);
    out
}

/// No variable that is to be kept from a program reaches it, whether its name is
/// written in upper or in lower case, and every other variable does.
pub proof fn law_stripped_variables_stay_out(
    vars: Seq<(Seq<char>, Seq<char>)>,
    stripped: Seq<Seq<char>>,
    kv: (Seq<char>, Seq<char>),
)
    ensures
        child_env(vars, stripped).contains(kv) <==> vars.contains(kv) && !stripped.contains(
            upper(kv.0),
        ),
    decreases vars.len(),
{
    reveal(Seq::filter);
    if vars.len() > 0 {
        let front = vars.drop_last();
        let last = vars.last();
        law_stripped_variables_stay_out(front, stripped, kv);
        let before = child_env(front, stripped);
        assert(vars =~= front.push(last));
        lemma_push_contains(front, last, kv);
        lemma_push_contains(before, last, kv);
    }
}

proof fn lemma_push_contains<A>(s: Seq<A>, x: A, y: A)
    ensures
        s.push(x).contains(y) <==> s.contains(y) || x == y,
{
    if s.contains(y) {
        let i = choose|i: int| 0 <= i < s.len() && s[i] == y;
        assert(s.push(x)[i] == y);
    }
    if x == y {
        assert(s.push(x)[s.len() as int] == y);
    }
    if s.push(x).contains(y) && x != y {
        let i = choose|i: int| 0 <= i < s.push(x).len() && s.push(x)[i] == y;
        assert(s[i] == y);
    }
}

} // verus!
