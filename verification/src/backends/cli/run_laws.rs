//! What holds of the runs of command-line programs, and of what becomes of their output.

use crate::backends::cli::argv::InvocationView;
use crate::backends::cli::backend::{any_over, backend_reply, clamped, is_over};
use crate::backends::cli::dialect::OutputFraming;
use crate::backends::cli::streaming::{
    event_line, followed, is_result_line, stream_outcome, summary, StreamEndView, StreamView,
    UNKNOWN_SESSION,
};
use crate::backends::cli::subprocess::{
    brace_at, claude_outcome, from_brace, shared_outcome, spawn_message, utf8_lossy, EndedView,
    SpawnFailure,
};
use crate::http_base::{ellipsized, law_cut_is_tight};
use crate::json::{serde_parse, JsonView};
use crate::terms::{field, has_field, list, words};
use crate::text::{byte_len, lines};
use crate::types::{ErrorView, EventView};
use vstd::prelude::*;
use vstd::string::*;

verus! {

/// Whether an object says itself that it is an error.
pub open spec fn says_error(v: JsonView) -> bool {
    field(v, "is_error"@) == JsonView::Bool(true)
}

/// A run of Anthropic's program gives the object that it printed, as it is, if the program
/// ended well and the object does not say that it is an error; and nothing else does.
pub proof fn law_claude_run_gives_its_object(program: Seq<char>, inv: InvocationView, end: EndedView)
    ensures
        claude_outcome(program, inv, end) matches Ok(v) ==> (end matches EndedView::Exited {
            success,
            stdout,
            ..
        } && success && serde_parse(utf8_lossy(stdout)) == Ok::<JsonView, Seq<char>>(v) && v is Obj
            && !says_error(v)),
        end matches EndedView::Exited { success, stdout, .. } ==> success ==> (serde_parse(
            utf8_lossy(stdout),
        ) matches Ok(v) ==> v is Obj && !says_error(v) ==> claude_outcome(program, inv, end)
            == Ok::<JsonView, ErrorView>(v)),
{
}

/// A program that ended badly is an error with its exit code and with what it wrote on its
/// standard error, as far as it goes.
pub proof fn law_bad_end_is_an_error(
    program: Seq<char>,
    inv: InvocationView,
    framing: OutputFraming,
    code: Option<i32>,
    stdout: Seq<u8>,
    stderr: Seq<u8>,
)
    ensures
        ({
            let end = EndedView::Exited { success: false, code, stdout, stderr };
            let said = ellipsized(utf8_lossy(stderr), 500);
            &&& claude_outcome(program, inv, end) == Err::<JsonView, ErrorView>(
                ErrorView::CliSubprocessDied { exit_code: code, stderr: said },
            )
            &&& shared_outcome(inv, framing, end) matches Err(
                ErrorView::CliSubprocessDied { exit_code, stderr: m },
            ) && exit_code == code && said.is_suffix_of(m)
        }),
        claude_outcome(program, inv, EndedView::OutOfTime) matches Err(e) && e is CliSubprocessDied,
        shared_outcome(inv, framing, EndedView::OutOfTime) matches Err(e) && e is CliSubprocessDied,
{
    let end = EndedView::Exited { success: false, code, stdout, stderr };
    let said = ellipsized(utf8_lossy(stderr), 500);
    if let Err(ErrorView::CliSubprocessDied { exit_code, stderr: m }) = shared_outcome(
        inv,
        framing,
        end,
    ) {
        assert(m.skip(m.len() - said.len()) =~= said);
    }
}

proof fn lemma_brace(s: Seq<char>, i: int)
    requires
        0 <= i <= s.len(),
    ensures
        ({
            let k = brace_at(s, i);
            &&& (exists|j: int| i <= j < s.len() && #[trigger] s[j] == '{') ==> i <= k < s.len()
                && s[k] == '{' && forall|j: int| i <= j < k ==> #[trigger] s[j] != '{'
            &&& !(exists|j: int| i <= j < s.len() && #[trigger] s[j] == '{') ==> k == 0
        }),
    decreases s.len() - i,
{
    if i < s.len() && s[i] != '{' {
        lemma_brace(s, i + 1);
        if exists|j: int| i <= j < s.len() && #[trigger] s[j] == '{' {
            let j = choose|j: int| i <= j < s.len() && #[trigger] s[j] == '{';
            assert(i + 1 <= j < s.len() && s[j] == '{');
        }
    }
}

/// What stands before the object in an output is dropped, and nothing else: the rest
/// begins with the first brace. An output without one stays as it is.
pub proof fn law_object_begins_with_its_brace(s: Seq<char>, k: int)
    requires
        0 <= k <= s.len(),
        forall|j: int| 0 <= j < k ==> #[trigger] s[j] != '{',
        k < s.len() ==> s[k] == '{',
    ensures
        k < s.len() ==> from_brace(s) == s.skip(k),
        k == s.len() ==> from_brace(s) == s,
{
    lemma_brace(s, 0);
    if k < s.len() {
        assert(s[k] == '{');
    } else {
        assert(s.skip(0) =~= s);
    }
}

/// A run of any other program that ended well gives what it printed, in its framing: the
/// object from its first brace on or from the start, all lines, or the text.
pub proof fn law_run_gives_what_was_printed(
    inv: InvocationView,
    framing: OutputFraming,
    code: Option<i32>,
    stdout: Seq<u8>,
    stderr: Seq<u8>,
)
    ensures
        ({
            let end = EndedView::Exited { success: true, code, stdout, stderr };
            let r = shared_outcome(inv, framing, end);
            let text = utf8_lossy(stdout);
            match framing {
                OutputFraming::SingleObject { strip_prefix } => {
                    let held = serde_parse(
                        if strip_prefix {
                            from_brace(text)
                        } else {
                            text
                        },
                    );
                    &&& r is Ok <==> (held matches Ok(v) && v is Obj)
                    &&& r matches Ok(v) ==> held == Ok::<JsonView, Seq<char>>(v)
                    &&& r matches Err(e) ==> e is Parse
                },
                OutputFraming::JsonLinesArray => r matches Ok(v) && v is Arr && list(v).len()
                    == lines(text).len() && forall|i: int|
                    0 <= i < lines(text).len() ==> #[trigger] list(v)[i] == JsonView::Str(
                        lines(text)[i],
                    ),
                OutputFraming::RawText => r == Ok::<JsonView, ErrorView>(JsonView::Str(text)),
            }
        }),
{
}

/// The object on a line of a session.
pub open spec fn object_on(line: Seq<char>) -> JsonView {
    serde_parse(line)->Ok_0
}

proof fn lemma_last_result(s: Seq<Seq<char>>, i: int)
    requires
        0 <= i < s.len(),
        is_result_line(s[i]),
        forall|j: int| i < j < s.len() ==> !is_result_line(#[trigger] s[j]),
    ensures
        followed(s).result == Some(object_on(s[i])),
    decreases s.len(),
{
    if i < s.len() - 1 {
        let front = s.drop_last();
        assert(front[i] == s[i]);
        assert forall|j: int| i < j < front.len() implies !is_result_line(#[trigger] front[j]) by {
            assert(front[j] == s[j]);
        }
        lemma_last_result(front, i);
        assert(!is_result_line(s[s.len() - 1]));
    }
}

/// A program that is followed answers with the last result that it printed, whatever else
/// it printed: with all members of it, but for the one that tells what it is.
pub proof fn law_last_result_is_the_answer(
    program: Seq<char>,
    inv: InvocationView,
    s: Seq<Seq<char>>,
    i: int,
    code: Option<i32>,
    stderr: Seq<u8>,
)
    requires
        0 <= i < s.len(),
        serde_parse(s[i]) is Ok,
        object_on(s[i]) is Obj,
        field(object_on(s[i]), "type"@) == JsonView::Str("result"@),
        !says_error(object_on(s[i])),
        forall|j: int|
            i < j < s.len() ==> (serde_parse(#[trigger] s[j]) matches Ok(v) ==> field(v, "type"@)
                != JsonView::Str("result"@)),
    ensures
        stream_outcome(
            program,
            inv,
            followed(s).result,
            StreamEndView::Exited { success: true, code, stderr },
        ) matches Ok(v) && v is Obj && forall|key: Seq<char>|
            key != "type"@ ==> #[trigger] field(v, key) == field(object_on(s[i]), key),
        stream_outcome(
            program,
            inv,
            followed(s).result,
            StreamEndView::Exited { success: false, code, stderr },
        ) matches Err(ErrorView::CliSubprocessDied { exit_code, stderr: said }) && exit_code == code
            && said == ellipsized(utf8_lossy(stderr), 500),
        stream_outcome(program, inv, followed(s).result, StreamEndView::OutOfTime { stderr })
            matches Err(ErrorView::TimedOut { budget_ms, .. }) && budget_ms == inv.timeout_ms,
{
    assert forall|j: int| i < j < s.len() implies !is_result_line(#[trigger] s[j]) by {
        if let Ok(v) = serde_parse(s[j]) {
            assert(field(v, "type"@) != JsonView::Str("result"@));
        }
    }
    reveal_strlit("type");
    reveal_strlit("is_error");
    assert("type"@.len() != "is_error"@.len());
    lemma_last_result(s, i);
}

/// A result that says that it is an error is one, in its own words.
pub proof fn law_result_that_is_an_error(
    program: Seq<char>,
    inv: InvocationView,
    v: JsonView,
    code: Option<i32>,
    stderr: Seq<u8>,
)
    requires
        v is Obj,
        says_error(v),
    ensures
        stream_outcome(program, inv, Some(v), StreamEndView::Exited { success: true, code, stderr })
            matches Err(ErrorView::CliSubprocessDied { exit_code, stderr: said }) && exit_code
            == code && (field(v, "result"@) matches JsonView::Str(m) ==> m.is_suffix_of(said)),
{
    reveal_strlit("type");
    reveal_strlit("is_error");
    reveal_strlit("result");
    assert("type"@.len() == 4);
    assert("is_error"@.len() == 8);
    assert("result"@.len() == 6);
    let end = StreamEndView::Exited { success: true, code, stderr };
    if let Err(ErrorView::CliSubprocessDied { exit_code, stderr: said }) = stream_outcome(
        program,
        inv,
        Some(v),
        end,
    ) {
        if let JsonView::Str(m) = field(v, "result"@) {
            assert(said.skip(said.len() - m.len()) =~= m);
        }
    }
}

/// A session is called by the first eight characters of the id that it shows first, and
/// keeps that name.
pub proof fn law_session_keeps_its_name(seen: StreamView, line: Seq<char>, id: Seq<char>)
    requires
        serde_parse(line) is Ok,
        field(object_on(line), "session_id"@) == JsonView::Str(id),
    ensures
        seen.session != UNKNOWN_SESSION@ ==> seen.line(line).session == seen.session,
        seen.session == UNKNOWN_SESSION@ && id.len() >= 8 ==> seen.line(line).session == id.take(8),
        seen.session == UNKNOWN_SESSION@ && id.len() < 8 ==> seen.line(line).session == id,
{
    if id.len() == 8 {
        assert(id.take(8) =~= id);
    }
}

/// A line that is no JSON changes nothing of what has been seen.
pub proof fn law_other_lines_change_nothing(seen: StreamView, line: Seq<char>)
    requires
        serde_parse(line) is Err,
    ensures
        seen.line(line) == seen,
{
}

/// The reply of a program is its answer behind the event that names the model: as it is
/// where it is within the limit, and otherwise each text cut at its end, with all else
/// but the reason for the end unchanged.
pub proof fn law_reply_is_the_answer(s: Seq<EventView>, model: Seq<char>, limit: Option<u32>, i: int)
    requires
        0 <= i < s.len(),
    ensures
        ({
            let out = backend_reply(Ok(s), model, limit)->Ok_0;
            &&& backend_reply(Ok(s), model, limit) is Ok
            &&& out.len() == s.len() + 1
            &&& out[0] matches EventView::Started { actual_model, .. } && actual_model == model
            &&& limit is None ==> out[i + 1] == s[i]
            &&& limit matches Some(t) ==> (forall|j: int|
                0 <= j < s.len() ==> (#[trigger] s[j] matches EventView::Delta { text } ==> byte_len(
                    text,
                ) <= t as nat * 4)) ==> out[i + 1] == s[i]
            &&& match s[i] {
                EventView::Delta { text } => out[i + 1] matches EventView::Delta { text: cut }
                    && cut.is_prefix_of(text),
                EventView::Finished { usage, .. } => out[i + 1] matches EventView::Finished {
                    usage: u,
                    ..
                } && u == usage,
                _ => out[i + 1] == s[i],
            }
        }),
{
    let out = backend_reply(Ok(s), model, limit)->Ok_0;
    assert(out[i + 1] == clamped(s, limit)[i]);
    if let EventView::Delta { text } = s[i] {
        assert(text.is_prefix_of(text));
        if let Some(t) = limit {
            law_cut_is_tight(text, t as nat * 4);
        }
    }
    if let Some(t) = limit {
        if forall|j: int|
            0 <= j < s.len() ==> (#[trigger] s[j] matches EventView::Delta { text } ==> byte_len(
                text,
            ) <= t as nat * 4) {
            assert(!any_over(s, t as nat * 4)) by {
                if any_over(s, t as nat * 4) {
                    let j = choose|j: int| 0 <= j < s.len() && is_over(#[trigger] s[j], t as nat * 4);
                    assert(s[j] is Delta);
                }
            }
        }
    }
}

/// An answer that is an error stays that error.
pub proof fn law_failed_answer_stays_failed(e: ErrorView, model: Seq<char>, limit: Option<u32>)
    ensures
        backend_reply(Err(e), model, limit) == Err::<Seq<EventView>, ErrorView>(e),
{
}

proof fn lemma_kinds()
    ensures
        "assistant"@ != "rate_limit_event"@,
        "assistant"@ != "result"@,
        "assistant"@ != "stream_event"@,
        "assistant"@ != "system"@,
        "assistant"@ != "user"@,
        "rate_limit_event"@ != "result"@,
        "rate_limit_event"@ != "stream_event"@,
        "rate_limit_event"@ != "system"@,
        "rate_limit_event"@ != "user"@,
        "result"@ != "stream_event"@,
        "result"@ != "system"@,
        "result"@ != "user"@,
        "stream_event"@ != "system"@,
        "stream_event"@ != "user"@,
        "system"@ != "user"@,
{
    reveal_strlit("assistant");
    reveal_strlit("rate_limit_event");
    reveal_strlit("result");
    reveal_strlit("stream_event");
    reveal_strlit("system");
    reveal_strlit("user");
    assert("assistant"@.len() == 9);
    assert("rate_limit_event"@.len() == 16);
    assert("result"@.len() == 6);
    assert("stream_event"@.len() == 12);
    assert("system"@.len() == 6);
    assert("user"@.len() == 4);
    assert("result"@[0] != "system"@[0]);
}

proof fn lemma_inner()
    ensures
        "content_block_delta"@ != "content_block_start"@,
        "content_block_delta"@ != "content_block_stop"@,
        "content_block_delta"@ != "message_delta"@,
        "content_block_delta"@ != "message_start"@,
        "content_block_delta"@ != "message_stop"@,
        "content_block_start"@ != "content_block_stop"@,
        "content_block_start"@ != "message_delta"@,
        "content_block_start"@ != "message_start"@,
        "content_block_start"@ != "message_stop"@,
        "content_block_stop"@ != "message_delta"@,
        "content_block_stop"@ != "message_start"@,
        "content_block_stop"@ != "message_stop"@,
        "message_delta"@ != "message_start"@,
        "message_delta"@ != "message_stop"@,
        "message_start"@ != "message_stop"@,
{
    reveal_strlit("content_block_delta");
    reveal_strlit("content_block_start");
    reveal_strlit("content_block_stop");
    reveal_strlit("message_delta");
    reveal_strlit("message_start");
    reveal_strlit("message_stop");
    assert("content_block_delta"@.len() == 19);
    assert("content_block_start"@.len() == 19);
    assert("content_block_stop"@.len() == 18);
    assert("message_delta"@.len() == 13);
    assert("message_start"@.len() == 13);
    assert("message_stop"@.len() == 12);
    assert("content_block_delta"@[14] != "content_block_start"@[14]);
    assert("message_delta"@[8] != "message_start"@[8]);
}

/// The piece that a part of a message brings: a thought, a text, or arguments.
pub open spec fn piece_in(delta: JsonView) -> JsonView {
    field(
        delta,
        if has_field(delta, "thinking"@) {
            "thinking"@
        } else if has_field(delta, "text"@) {
            "text"@
        } else {
            "partial_json"@
        },
    )
}

/// A piece that a program streams is reported under its session, as far as its
/// first bytes go; the turns themselves are not.
pub proof fn law_pieces_are_reported(v: JsonView, sid: Seq<char>, text: Seq<char>)
    requires
        field(v, "type"@) == JsonView::Str("stream_event"@),
        field(field(v, "event"@), "type"@) == JsonView::Str("content_block_delta"@),
        piece_in(field(field(v, "event"@), "delta"@)) == JsonView::Str(text),
        text.len() > 0,
    ensures
        event_line(v, sid) matches Some(line) && ellipsized(text, 200).is_suffix_of(line)
            && exists|a: Seq<char>, b: Seq<char>| line == #[trigger] (a + sid + b),
{
    reveal_strlit("");
    lemma_kinds();
    lemma_inner();
    let line = event_line(v, sid)->0;
    let cut = ellipsized(text, 200);
    assert(line.skip(line.len() - cut.len()) =~= cut);
    let what = summary(v)->0;
    assert(line =~= "[claude_cli "@ + sid + ("] "@ + what));
}

/// The turns in a stream are not reported.
pub proof fn law_turns_are_not_reported(v: JsonView, sid: Seq<char>)
    requires
        field(v, "type"@) == JsonView::Str("assistant"@) || field(v, "type"@) == JsonView::Str(
            "user"@,
        ),
    ensures
        event_line(v, sid) is None,
{
    lemma_kinds();
}

/// A program that could not be started is named, or else the reason is given.
pub proof fn law_program_that_did_not_start(executable: Seq<char>, error: Seq<char>)
    ensures
        exists|a: Seq<char>, b: Seq<char>|
            spawn_message(executable, SpawnFailure::NotFound, error) == #[trigger] (a + executable
                + b),
        error.is_suffix_of(spawn_message(executable, SpawnFailure::PermissionDenied, error)),
        error.is_suffix_of(spawn_message(executable, SpawnFailure::Other, error)),
{
    let x = spawn_message(executable, SpawnFailure::NotFound, error);
    assert(x == "`"@ + executable + "` not found in PATH"@);
    let y = spawn_message(executable, SpawnFailure::PermissionDenied, error);
    assert(y.skip(y.len() - error.len()) =~= error);
    let z = spawn_message(executable, SpawnFailure::Other, error);
    assert(z.skip(z.len() - error.len()) =~= error);
}

} // verus!
