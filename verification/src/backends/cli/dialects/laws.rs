//! What holds of the calls of command-line programs, and of what they answer.

use crate::backends::cli::argv::{
    claude_argv, effort_arg, flag, opening_args, tools_args, valued, ContextView, InvocationView,
    ToolsView,
};
use crate::backends::cli::dialect::CliDialect;
use crate::backends::cli::dialects::antigravity::{agy_argv, AntigravityDialect};
use crate::backends::cli::dialects::claude::ClaudeCliDialect;
use crate::backends::cli::dialects::codex::{codex_argv, CodexCliDialect, SandboxMode};
use crate::backends::cli::dialects::gemini::{gemini_argv, GeminiCliDialect};
use crate::backends::cli::dialects::opencode::{
    lines_read, opencode_argv, opencode_content, opencode_counts_fit, opencode_dirs,
    OpenCodeDialect, Reading,
};
use crate::backends::cli::prompt::{messages_text, prompt_text};
use crate::backends::cli::subprocess::usage_fits;
use crate::json::{first_key, is_first_key, serde_parse, JsonView};
use crate::terms::{
    amount, field, finishes, lemma_none, lemma_one_more, models, thoughts, told, words, Told,
};
use crate::text::{
    byte_len, is_space, joined, lemma_less_total, opt_str, text_less, trimmed, trimmed_back,
};
use crate::text_laws::{is_blank, law_only_end_blanks_are_dropped};
use crate::types::{ChatRequest, EventView, ModelHint, StopReason, Usage};
use vstd::prelude::*;
use vstd::string::*;

verus! {

/// Whether a reply says this and no more, and then ends by itself.
pub open spec fn says_only(out: Seq<EventView>, text: Seq<char>) -> bool {
    &&& told(out) == seq![Told::Said(text)]
    &&& finishes(out).len() == 1
    &&& finishes(out)[0].0 == StopReason::EndTurn
    &&& out.last() is Finished
}

proof fn lemma_says_only(text: Seq<char>, usage: Usage)
    ensures
        ({
            let out = seq![
                EventView::Delta { text },
                EventView::Finished { stop_reason: StopReason::EndTurn, usage },
            ];
            says_only(out, text) && finishes(out)[0].1 == usage
        }),
{
    let none = Seq::<EventView>::empty();
    let e = EventView::Delta { text };
    let f = EventView::Finished { stop_reason: StopReason::EndTurn, usage };
    lemma_none(none);
    lemma_one_more(none, e);
    lemma_one_more(none.push(e), f);
    assert(seq![e, f] =~= none.push(e).push(f));
}

/// What Anthropic's program answers is told: its result, and the token counts, of which
/// the input is the fresh, the cached and the newly cached part together.
pub proof fn law_claude_answer_is_told(d: ClaudeCliDialect, payload: JsonView)
    requires
        usage_fits(payload),
    ensures
        d.content_of(payload) matches Ok(out) && says_only(out, words(field(payload, "result"@)))
            && {
            let u = field(payload, "usage"@);
            let usage = finishes(out)[0].1;
            &&& usage.input_tokens == amount(field(u, "input_tokens"@)) + amount(
                field(u, "cache_read_input_tokens"@),
            ) + amount(field(u, "cache_creation_input_tokens"@))
            &&& usage.output_tokens == amount(field(u, "output_tokens"@))
            &&& usage.cached_input_tokens == amount(field(u, "cache_read_input_tokens"@))
            &&& usage.cache_creation_tokens == amount(field(u, "cache_creation_input_tokens"@))
            &&& usage.thinking_tokens == 0
        },
{
    reveal_strlit("");
    let text = words(field(payload, "result"@));
    assert(payload.str_or("result"@, ""@) =~= text);
    let out = d.content_of(payload)->Ok_0;
    if let EventView::Finished { stop_reason, usage } = out[1] {
        lemma_says_only(text, usage);
    }
}

/// What the `gemini` program answers is told: its response, and the token counts of the
/// first model in its statistics.
pub proof fn law_gemini_answer_is_told(d: GeminiCliDialect, payload: JsonView, model: Seq<char>)
    requires
        ({
            let models = field(field(payload, "stats"@), "models"@);
            &&& models is Obj
            &&& models->Obj_0.contains_key(model)
            &&& forall|other: Seq<char>| #[trigger]
                models->Obj_0.contains_key(other) && other != model ==> text_less(model, other)
        }),
    ensures
        d.content_of(payload) matches Ok(out) && says_only(out, words(field(payload, "response"@)))
            && {
            let t = field(field(field(field(payload, "stats"@), "models"@), model), "tokens"@);
            let usage = finishes(out)[0].1;
            &&& usage.input_tokens == amount(field(t, "prompt"@))
            &&& usage.output_tokens == amount(field(t, "candidates"@))
            &&& usage.cached_input_tokens == amount(field(t, "cached"@))
            &&& usage.thinking_tokens == amount(field(t, "thoughts"@))
            &&& usage.cache_creation_tokens == 0
        },
{
    reveal_strlit("");
    let text = words(field(payload, "response"@));
    assert(payload.str_or("response"@, ""@) =~= text);
    let models = field(field(payload, "stats"@), "models"@);
    assert(is_first_key(models->Obj_0, model));
    let k = first_key(models)->0;
    assert(is_first_key(models->Obj_0, k));
    if k != model {
        lemma_less_total(k, model);
        assert(models->Obj_0.contains_key(k) && models->Obj_0.contains_key(model));
    }
    let out = d.content_of(payload)->Ok_0;
    if let EventView::Finished { stop_reason, usage } = out[1] {
        lemma_says_only(text, usage);
    }
}

/// What the `gemini` program answers is told, whatever it says of its tokens.
pub proof fn law_gemini_response_is_told(d: GeminiCliDialect, payload: JsonView)
    ensures
        d.content_of(payload) matches Ok(out) && says_only(out, words(field(payload, "response"@))),
{
    reveal_strlit("");
    let text = words(field(payload, "response"@));
    assert(payload.str_or("response"@, ""@) =~= text);
    let out = d.content_of(payload)->Ok_0;
    if let EventView::Finished { stop_reason, usage } = out[1] {
        lemma_says_only(text, usage);
    }
}

/// What the `agy` program prints is told, without the blanks at its end.
pub proof fn law_agy_answer_is_told(d: AntigravityDialect, printed: Seq<char>)
    ensures
        d.content_of(JsonView::Str(printed)) matches Ok(out) && exists|text: Seq<char>, rest: Seq<char>|
            #[trigger] (text + rest) == printed && is_blank(rest) && (text.len() > 0 ==> !is_space(
                text.last(),
            )) && says_only(out, text),
{
    law_only_end_blanks_are_dropped(printed);
    let text = trimmed_back(printed);
    let rest = printed.skip(text.len() as int);
    assert(text + rest =~= printed);
    let out = d.content_of(JsonView::Str(printed))->Ok_0;
    if let EventView::Finished { stop_reason, usage } = out[1] {
        lemma_says_only(text, usage);
    }
    assert(text + rest == printed && says_only(out, text));
}

/// The object on a line of an answer; null where there is none.
pub open spec fn object_on(item: JsonView) -> JsonView {
    match item {
        JsonView::Str(line) => if trimmed(line).len() > 0 && serde_parse(line) is Ok {
            serde_parse(line)->Ok_0
        } else {
            JsonView::Null
        },
        _ => JsonView::Null,
    }
}

/// Whether a line of an answer is of this kind.
pub open spec fn is_kind(item: JsonView, kind: Seq<char>) -> bool {
    field(object_on(item), "type"@) == JsonView::Str(kind)
}

/// What the lines of an answer tell: the texts and the reasoning that are not empty.
pub open spec fn told_on(lines: Seq<JsonView>) -> Seq<Told>
    decreases lines.len(),
{
    if lines.len() == 0 {
        seq![]
    } else {
        let item = lines.last();
        let before = told_on(lines.drop_last());
        let text = words(field(field(object_on(item), "part"@), "text"@));
        if text.len() == 0 {
            before
        } else if is_kind(item, "text"@) {
            before.push(Told::Said(text))
        } else if is_kind(item, "reasoning"@) {
            before.push(Told::Thought(text))
        } else {
            before
        }
    }
}

/// The token counts of the steps of an answer.
pub open spec fn steps_on(lines: Seq<JsonView>) -> Seq<JsonView>
    decreases lines.len(),
{
    if lines.len() == 0 {
        seq![]
    } else if is_kind(lines.last(), "step_finish"@) {
        steps_on(lines.drop_last()).push(
            field(field(object_on(lines.last()), "part"@), "tokens"@),
        )
    } else {
        steps_on(lines.drop_last())
    }
}

/// The sum of one count over all steps; with `group`, of one within that group.
pub open spec fn total(steps: Seq<JsonView>, group: Option<Seq<char>>, key: Seq<char>) -> int
    decreases steps.len(),
{
    if steps.len() == 0 {
        0
    } else {
        let step = match group {
            Some(g) => field(steps.last(), g),
            None => steps.last(),
        };
        total(steps.drop_last(), group, key) + amount(field(step, key))
    }
}

proof fn lemma_line_kinds()
    ensures
        "error"@ != "reasoning"@,
        "error"@ != "step_finish"@,
        "error"@ != "text"@,
        "reasoning"@ != "step_finish"@,
        "reasoning"@ != "text"@,
        "step_finish"@ != "text"@,
{
    reveal_strlit("error");
    reveal_strlit("reasoning");
    reveal_strlit("step_finish");
    reveal_strlit("text");
    assert("error"@.len() == 5);
    assert("reasoning"@.len() == 9);
    assert("step_finish"@.len() == 11);
    assert("text"@.len() == 4);
}

/// What one line tells.
spec fn told_by(item: JsonView) -> Seq<Told> {
    let text = words(field(field(object_on(item), "part"@), "text"@));
    if text.len() == 0 {
        seq![]
    } else if is_kind(item, "text"@) {
        seq![Told::Said(text)]
    } else if is_kind(item, "reasoning"@) {
        seq![Told::Thought(text)]
    } else {
        seq![]
    }
}

proof fn lemma_opencode_line(before: Reading, item: JsonView)
    requires
        before.err is None,
    ensures
        ({
            let after = before.line(item);
            let tokens = field(field(object_on(item), "part"@), "tokens"@);
            &&& after.err is Some <==> is_kind(item, "error"@)
            &&& after.err is None ==> told(after.out) == told(before.out) + told_by(item)
            &&& finishes(after.out) == finishes(before.out)
            &&& is_kind(item, "step_finish"@) ==> {
                &&& after.counts.input == before.counts.input + amount(field(tokens, "input"@))
                &&& after.counts.output == before.counts.output + amount(field(tokens, "output"@))
                &&& after.counts.thinking == before.counts.thinking + amount(
                    field(tokens, "reasoning"@),
                )
                &&& after.counts.cached == before.counts.cached + amount(
                    field(field(tokens, "cache"@), "read"@),
                )
                &&& after.counts.created == before.counts.created + amount(
                    field(field(tokens, "cache"@), "write"@),
                )
            }
            &&& !is_kind(item, "step_finish"@) ==> after.counts == before.counts
        }),
{
    reveal_strlit("");
    lemma_line_kinds();
    let v = object_on(item);
    let text = words(field(field(v, "part"@), "text"@));
    assert(v.at("part"@).str_or("text"@, ""@) =~= text);
    lemma_one_more(before.out, EventView::Delta { text });
    lemma_one_more(before.out, EventView::ThinkingDelta { text });
    assert(""@.len() == 0);
    reveal_strlit("text");
    reveal_strlit("reasoning");
    reveal_strlit("step_finish");
    reveal_strlit("error");
    assert("text"@.len() == 4);
    assert("reasoning"@.len() == 9);
    assert("step_finish"@.len() == 11);
    assert("error"@.len() == 5);
    let after = before.line(item);
    if !(item is Str) {
        assert(trimmed(""@).len() == 0);
        assert(after == before);
    }
    if after.err is None {
        assert(told(after.out) =~= told(before.out) + told_by(item));
    }
}

proof fn lemma_opencode_lines(lines: Seq<JsonView>)
    ensures
        ({
            let r = lines_read(lines);
            let steps = steps_on(lines);
            &&& r.err is None <==> forall|i: int|
                0 <= i < lines.len() ==> !is_kind(#[trigger] lines[i], "error"@)
            &&& r.err is None ==> {
                &&& told(r.out) == told_on(lines)
                &&& finishes(r.out).len() == 0
                &&& r.counts.input == total(steps, None, "input"@)
                &&& r.counts.output == total(steps, None, "output"@)
                &&& r.counts.thinking == total(steps, None, "reasoning"@)
                &&& r.counts.cached == total(steps, Some("cache"@), "read"@)
                &&& r.counts.created == total(steps, Some("cache"@), "write"@)
            }
        }),
    decreases lines.len(),
{
    if lines.len() == 0 {
        lemma_none(lines_read(lines).out);
        assert(told(lines_read(lines).out) =~= told_on(lines));
    } else {
        let front = lines.drop_last();
        lemma_opencode_lines(front);
        let before = lines_read(front);
        let item = lines[lines.len() - 1];
        let steps = steps_on(lines);
        if before.err is Some {
            let i = choose|i: int| 0 <= i < front.len() && is_kind(#[trigger] front[i], "error"@);
            assert(is_kind(lines[i], "error"@));
        } else {
            lemma_opencode_line(before, item);
            if is_kind(item, "step_finish"@) {
                assert(steps.drop_last() =~= steps_on(front));
            }
            if !is_kind(item, "error"@) {
                assert(told_on(lines) =~= told_on(front) + told_by(item));
                assert forall|i: int| 0 <= i < lines.len() implies !is_kind(
                    #[trigger] lines[i],
                    "error"@,
                ) by {
                    if i < front.len() {
                        assert(lines[i] == front[i]);
                    }
                }
            }
        }
    }
}

/// What the `opencode` program prints is told: its texts and its reasoning in their order
/// and none left out, and at the end the sum of the token counts of all steps. An answer
/// in which it reports an error is no reply, and every other one is.
pub proof fn law_opencode_answer_is_told(lines: Seq<JsonView>)
    requires
        opencode_counts_fit(JsonView::Arr(lines)),
    ensures
        opencode_content(JsonView::Arr(lines)) is Ok <==> forall|i: int|
            0 <= i < lines.len() ==> !is_kind(#[trigger] lines[i], "error"@),
        opencode_content(JsonView::Arr(lines)) matches Ok(out) ==> {
            let steps = steps_on(lines);
            let usage = finishes(out)[0].1;
            &&& told(out) == told_on(lines)
            &&& finishes(out).len() == 1
            &&& finishes(out)[0].0 == StopReason::EndTurn
            &&& out.last() is Finished
            &&& usage.input_tokens == total(steps, None, "input"@)
            &&& usage.output_tokens == total(steps, None, "output"@)
            &&& usage.thinking_tokens == total(steps, None, "reasoning"@)
            &&& usage.cached_input_tokens == total(steps, Some("cache"@), "read"@)
            &&& usage.cache_creation_tokens == total(steps, Some("cache"@), "write"@)
        },
{
    lemma_opencode_lines(lines);
    let r = lines_read(lines);
    if let Ok(out) = opencode_content(JsonView::Arr(lines)) {
        lemma_one_more(r.out, out.last());
        assert(out =~= r.out.push(out.last()));
    }
}

/// Whether a flag stands among the arguments with its value behind it.
pub open spec fn has_pair(argv: Seq<Seq<char>>, name: Seq<char>, value: Seq<char>) -> bool {
    exists|i: int| #[trigger] is_pair(argv, i, name, value)
}

/// Whether a flag stands in this place with its value behind it.
pub open spec fn is_pair(argv: Seq<Seq<char>>, i: int, name: Seq<char>, value: Seq<char>) -> bool {
    0 <= i < argv.len() - 1 && argv[i] == name && argv[i + 1] == value
}

/// The names of tools without those that hold a comma.
pub open spec fn listable(names: Seq<Seq<char>>) -> Seq<Seq<char>> {
    names.filter(|n: Seq<char>| !n.contains(','))
}

/// Anthropic's program is called with the model, the system prompt, the effort and the
/// tools that are asked for, reads the prompt from its input, and gets nothing else but
/// the arguments of the caller, at the end.
pub proof fn law_claude_arguments(inv: InvocationView, streaming: bool)
    ensures
        ({
            let argv = claude_argv(inv, streaming);
            let n = argv.len() - inv.extra_args.len();
            let count = |on: bool, k: int|
                if on {
                    k
                } else {
                    0
                };
            &&& is_pair(argv, 0, "-p"@, "-"@)
            &&& is_pair(argv, 2, "--model"@, inv.model)
            &&& is_pair(
                argv,
                4,
                "--output-format"@,
                if streaming {
                    "stream-json"@
                } else {
                    "json"@
                },
            )
            &&& inv.tools is Disabled ==> has_pair(argv, "--tools"@, ""@)
            &&& inv.tools matches ToolsView::Allow(names) ==> has_pair(
                argv,
                "--tools"@,
                joined(listable(names), ","@),
            )
            &&& inv.system matches Some(s) ==> is_pair(argv, n - 2, "--system-prompt"@, s)
            &&& inv.effort matches Some(e) ==> has_pair(argv, "--effort"@, e.arg())
            &&& inv.bare ==> argv.contains("--bare"@)
            &&& inv.exclude_dynamic_sections ==> argv.contains(
                "--exclude-dynamic-system-prompt-sections"@,
            )
            &&& argv.skip(n) == inv.extra_args
            &&& n == 7 + count(streaming, 2) + count(!(inv.tools is Default), 2) + count(
                inv.bare,
                1,
            ) + count(inv.effort is Some, 2) + count(inv.exclude_dynamic_sections, 1) + count(
                inv.system is Some,
                2,
            )
        }),
{
    let a = opening_args(inv.model, streaming);
    let b = tools_args(inv.tools);
    let c = flag("--bare"@, inv.bare);
    let d = valued("--effort"@, effort_arg(inv.effort));
    let e = flag("--exclude-dynamic-system-prompt-sections"@, inv.exclude_dynamic_sections);
    let f = valued("--system-prompt"@, inv.system);
    let argv = claude_argv(inv, streaming);
    let front = a + b + c + d + e + f;
    assert(argv == front + inv.extra_args);
    assert(argv.skip(front.len() as int) =~= inv.extra_args);
    let i = a.len() as int;
    if !(inv.tools is Default) {
        assert(argv[i] == b[0]);
        assert(argv[i + 1] == b[1]);
        assert(is_pair(argv, i, "--tools"@, b[1]));
    }
    let j = (a + b).len() as int;
    if inv.bare {
        assert(argv[j] == "--bare"@);
    }
    let k = (a + b + c).len() as int;
    if inv.effort is Some {
        assert(argv[k] == d[0]);
        assert(argv[k + 1] == d[1]);
        assert(is_pair(argv, k, "--effort"@, d[1]));
    }
    let l = (a + b + c + d).len() as int;
    if inv.exclude_dynamic_sections {
        assert(argv[l] == e[0]);
    }
    let m = (a + b + c + d + e).len() as int;
    if inv.system is Some {
        assert(argv[m] == f[0]);
        assert(argv[m + 1] == f[1]);
    }
}

/// The other programs are called with the model and get the prompt, each in its way.
pub proof fn law_other_arguments(inv: InvocationView, sandbox: SandboxMode, skip_git: bool)
    ensures
        ({
            let argv = gemini_argv(inv);
            &&& argv.len() == 6
            &&& is_pair(argv, 0, "-p"@, inv.prompt)
            &&& is_pair(argv, 2, "-m"@, inv.model)
            &&& is_pair(argv, 4, "-o"@, "json"@)
        }),
        ({
            let argv = agy_argv(inv);
            &&& is_pair(argv, 0, "-p"@, inv.prompt)
            &&& is_pair(argv, 2, "--model"@, inv.model)
            &&& argv[4] == "--dangerously-skip-permissions"@
            &&& inv.cwd matches Some(dir) ==> argv.len() == 7 && is_pair(argv, 5, "--add-dir"@, dir)
            &&& inv.cwd is None ==> argv.len() == 5
        }),
        ({
            let argv = opencode_argv(inv);
            &&& argv.len() == 6
            &&& argv[0] == "run"@
            &&& is_pair(argv, 1, "--format"@, "json"@)
            &&& is_pair(argv, 3, "--model"@, inv.model)
            &&& argv[5] == inv.prompt
        }),
        ({
            let argv = codex_argv(inv.model, sandbox, skip_git);
            &&& argv[0] == "exec"@
            &&& argv[1] == "--json"@
            &&& is_pair(argv, 2, "--model"@, inv.model)
            &&& is_pair(
                argv,
                4,
                "--sandbox"@,
                match sandbox {
                    SandboxMode::ReadOnly => "read-only"@,
                    SandboxMode::WorkspaceWrite => "workspace-write"@,
                    SandboxMode::DangerFullAccess => "danger-full-access"@,
                },
            )
            &&& is_pair(argv, 6, "-c"@, "approval_policy=\"never\""@)
            &&& argv.last() == "-"@
            &&& skip_git ==> argv.len() == 10 && argv[8] == "--skip-git-repo-check"@
            &&& !skip_git ==> argv.len() == 9
        }),
{
}

/// Whether a call carries this prompt for this model, in the directory and under the
/// confinement that the caller gives.
pub open spec fn carries(
    inv: InvocationView,
    model: Seq<char>,
    prompt: Seq<char>,
    ctx: ContextView,
) -> bool {
    &&& inv.model == model
    &&& inv.prompt == prompt
    &&& inv.cwd == ctx.cwd
    &&& inv.sandbox == ctx.sandbox
}

/// The model that a request names; nothing where it names none.
pub open spec fn named(req: ChatRequest) -> Option<Seq<char>> {
    match req.model {
        ModelHint::Explicit(m) => Some(m@),
        ModelHint::Tier(_) => None,
    }
}

/// Anthropic's program is called for a request that names its model: with the turns as
/// its prompt, the system prompt apart, and the settings of the dialect.
pub proof fn law_claude_is_called(
    d: ClaudeCliDialect,
    req: ChatRequest,
    model: Seq<char>,
    ctx: ContextView,
)
    ensures
        d.invocation_of(req, model, ctx) is Ok <==> named(req) is Some,
        d.invocation_of(req, model, ctx) matches Ok(inv) ==> {
            &&& carries(inv, named(req)->0, messages_text(req), ctx)
            &&& inv.executable == d.executable@
            &&& inv.system == opt_str(req.system)
            &&& inv.timeout_ms == d.timeout_ms
            &&& inv.tools == d.tools@
            &&& inv.bare == d.bare
            &&& inv.effort == d.effort
            &&& inv.exclude_dynamic_sections == d.exclude_dynamic_sections
            &&& inv.extra_args.len() == d.extra_args@.len()
            &&& forall|i: int|
                0 <= i < inv.extra_args.len() ==> #[trigger] inv.extra_args[i] == d.extra_args@[i]@
        },
{
}

/// The `gemini` program is called for a request that names its model and whose prompt can
/// be put among the arguments, without the keys that would change who pays.
pub proof fn law_gemini_is_called(
    d: GeminiCliDialect,
    req: ChatRequest,
    model: Seq<char>,
    ctx: ContextView,
)
    ensures
        d.invocation_of(req, model, ctx) is Ok <==> named(req) is Some && byte_len(
            prompt_text(req),
        ) <= 262144,
        d.invocation_of(req, model, ctx) matches Ok(inv) ==> {
            &&& carries(inv, named(req)->0, prompt_text(req), ctx)
            &&& inv.executable == d.executable@
            &&& inv.timeout_ms == d.timeout_ms
            &&& inv.stripped_env.contains("GEMINI_API_KEY"@)
            &&& inv.stripped_env.contains("GOOGLE_API_KEY"@)
            &&& inv.stripped_env.contains("GOOGLE_APPLICATION_CREDENTIALS"@)
            &&& inv.stripped_env.contains("GOOGLE_GENAI_USE_VERTEXAI"@)
        },
{
    if let Ok(inv) = d.invocation_of(req, model, ctx) {
        assert(inv.stripped_env[0] == "GEMINI_API_KEY"@);
        assert(inv.stripped_env[1] == "GOOGLE_API_KEY"@);
        assert(inv.stripped_env[2] == "GOOGLE_APPLICATION_CREDENTIALS"@);
        assert(inv.stripped_env[3] == "GOOGLE_GENAI_USE_VERTEXAI"@);
    }
}

/// The `codex` program is called for every request, without the keys that would change
/// who pays.
pub proof fn law_codex_is_called(
    d: CodexCliDialect,
    req: ChatRequest,
    model: Seq<char>,
    ctx: ContextView,
)
    ensures
        d.invocation_of(req, model, ctx) matches Ok(inv) && {
            &&& carries(inv, model, prompt_text(req), ctx)
            &&& inv.executable == d.executable@
            &&& inv.timeout_ms == d.timeout_ms
            &&& inv.stripped_env.contains("OPENAI_API_KEY"@)
            &&& inv.stripped_env.contains("CODEX_API_KEY"@)
            &&& inv.stripped_env.contains("CODEX_AGENT_IDENTITY"@)
        },
{
    let inv = d.invocation_of(req, model, ctx)->Ok_0;
    assert(inv.stripped_env[0] == "OPENAI_API_KEY"@);
    assert(inv.stripped_env[1] == "CODEX_API_KEY"@);
    assert(inv.stripped_env[2] == "CODEX_AGENT_IDENTITY"@);
}

/// Whether a time is within what the program and the caller allow, and is one of them.
pub open spec fn is_least(time: u64, own: u64, budget: Option<u64>) -> bool {
    &&& time <= own
    &&& budget matches Some(b) ==> time <= b
    &&& time == own || budget == Some(time)
}

/// The `agy` and `opencode` programs are called where the prompt can be put among the
/// arguments, and for no longer than they and the caller allow.
pub proof fn law_agents_are_called(
    a: AntigravityDialect,
    o: OpenCodeDialect,
    req: ChatRequest,
    model: Seq<char>,
    ctx: ContextView,
)
    ensures
        a.invocation_of(req, model, ctx) is Ok <==> byte_len(prompt_text(req)) <= 262144,
        o.invocation_of(req, model, ctx) is Ok <==> byte_len(prompt_text(req)) <= 262144,
        a.invocation_of(req, model, ctx) matches Ok(inv) ==> carries(
            inv,
            model,
            prompt_text(req),
            ctx,
        ) && inv.executable == a.executable@ && is_least(
            inv.timeout_ms,
            a.timeout_ms,
            ctx.budget_ms,
        ),
        o.invocation_of(req, model, ctx) matches Ok(inv) ==> carries(
            inv,
            model,
            prompt_text(req),
            ctx,
        ) && inv.executable == o.executable@ && is_least(
            inv.timeout_ms,
            o.timeout_ms,
            ctx.budget_ms,
        ),
        a.invocation_of(req, model, ctx) matches Err(e) ==> e is InvalidRequest,
        o.invocation_of(req, model, ctx) matches Err(e) ==> e is InvalidRequest,
{
}

/// The `opencode` program keeps its state in three directories below the home directory,
/// where that is known.
pub proof fn law_opencode_state(home: Seq<char>)
    requires
        home.len() > 0,
        home.last() != '/',
    ensures
        opencode_dirs(None).len() == 0,
        opencode_dirs(Some(home)) == seq![
            home + "/"@ + ".local/share/opencode"@,
            home + "/"@ + ".config/opencode"@,
            home + "/"@ + ".cache/opencode"@,
        ],
{
}

} // verus!
