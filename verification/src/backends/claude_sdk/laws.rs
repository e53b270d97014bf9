//! What holds of what the child process is asked, and of what it answers.

use crate::backends::claude_sdk::provider::{
    ancestors, last_start, lemma_path_ends, reply_events, request_line, script_candidates, solid_end,
};
use crate::backends::claude_sdk::session::{dispatched, DispatchView, PendingView};
use crate::backends::claude_sdk::wire::{
    chat_value, reply_read, reply_repeats, sdk_prompt, spoken_turns, RawUsage, ReplyView,
};
use crate::backends::cli::paths::below;
use crate::backends::cli::prompt_laws::{is_turn, lemma_turn, said_by};
use crate::json::{serde_parse, serde_print, JsonView, NumView};
use crate::members::{is_repeated, members_of};
use crate::terms::{
    field, finishes, has_field, lemma_none, lemma_one_more, list, models, told, words, Told,
};
use crate::types::{ChatRequest, ErrorView, EventView, Message, ModelHint, StopReason};
use vstd::prelude::*;
use vstd::string::*;

verus! {

proof fn lemma_request_keys()
    ensures
        "id"@ != "max_turns"@,
        "id"@ != "model"@,
        "id"@ != "prompt"@,
        "id"@ != "schema"@,
        "id"@ != "system"@,
        "max_turns"@ != "model"@,
        "max_turns"@ != "prompt"@,
        "max_turns"@ != "schema"@,
        "max_turns"@ != "system"@,
        "model"@ != "prompt"@,
        "model"@ != "schema"@,
        "model"@ != "system"@,
        "prompt"@ != "schema"@,
        "prompt"@ != "system"@,
        "schema"@ != "system"@,
{
    reveal_strlit("id");
    reveal_strlit("max_turns");
    reveal_strlit("model");
    reveal_strlit("prompt");
    reveal_strlit("schema");
    reveal_strlit("system");
    assert("id"@.len() == 2);
    assert("max_turns"@.len() == 9);
    assert("model"@.len() == 5);
    assert("prompt"@.len() == 6);
    assert("schema"@.len() == 6);
    assert("system"@.len() == 6);
    assert("prompt"@[0] != "schema"@[0]);
    assert("prompt"@[0] != "system"@[0]);
    assert("schema"@[1] != "system"@[1]);
}

proof fn lemma_reply_keys()
    ensures
        "error"@ != "id"@,
        "error"@ != "model"@,
        "error"@ != "result_subtype"@,
        "error"@ != "text"@,
        "error"@ != "usage"@,
        "id"@ != "model"@,
        "id"@ != "result_subtype"@,
        "id"@ != "text"@,
        "id"@ != "usage"@,
        "model"@ != "result_subtype"@,
        "model"@ != "text"@,
        "model"@ != "usage"@,
        "result_subtype"@ != "text"@,
        "result_subtype"@ != "usage"@,
        "text"@ != "usage"@,
{
    reveal_strlit("error");
    reveal_strlit("id");
    reveal_strlit("model");
    reveal_strlit("result_subtype");
    reveal_strlit("text");
    reveal_strlit("usage");
    assert("error"@.len() == 5);
    assert("id"@.len() == 2);
    assert("model"@.len() == 5);
    assert("result_subtype"@.len() == 14);
    assert("text"@.len() == 4);
    assert("usage"@.len() == 5);
    assert("error"@[0] != "model"@[0]);
    assert("error"@[0] != "usage"@[0]);
    assert("model"@[0] != "usage"@[0]);
}

proof fn lemma_subtypes()
    ensures
        "end_turn"@ != "max_tokens"@,
        "end_turn"@ != "success"@,
        "max_tokens"@ != "success"@,
{
    reveal_strlit("end_turn");
    reveal_strlit("max_tokens");
    reveal_strlit("success");
    assert("end_turn"@.len() == 8);
    assert("max_tokens"@.len() == 10);
    assert("success"@.len() == 7);
}

/// Whether an object asks this of the child process, and no more.
pub open spec fn asks(
    v: JsonView,
    id: u64,
    prompt: Seq<char>,
    system: Option<Seq<char>>,
    model: Option<Seq<char>>,
    schema: Option<JsonView>,
) -> bool {
    &&& field(v, "id"@) == JsonView::Num(NumView::Int(id as int))
    &&& field(v, "prompt"@) == JsonView::Str(prompt)
    &&& field(v, "max_turns"@) == JsonView::Num(NumView::Int(7))
    &&& match system {
        Some(s) => field(v, "system"@) == JsonView::Str(s),
        None => !has_field(v, "system"@),
    }
    &&& match model {
        Some(m) => field(v, "model"@) == JsonView::Str(m),
        None => !has_field(v, "model"@),
    }
    &&& match schema {
        Some(s) => has_field(v, "schema"@) && field(v, "schema"@) == s,
        None => !has_field(v, "schema"@),
    }
}

/// The object that asks for an answer holds the id, the prompt, and what else there is.
pub proof fn law_question_is_written(
    id: u64,
    prompt: Seq<char>,
    system: Option<Seq<char>>,
    model: Option<Seq<char>>,
    schema: Option<JsonView>,
)
    ensures
        asks(chat_value(id, prompt, system, model, schema), id, prompt, system, model, schema),
{
    lemma_request_keys();
}

/// A request is asked on one line: with its turns, its system prompt, its schema, and the
/// model that it names, or else the one that is configured.
pub proof fn law_request_is_asked(req: ChatRequest, default_model: Option<Seq<char>>, id: u64)
    ensures
        exists|v: JsonView|
            request_line(req, default_model, id) == serde_print(v).push('\n') && #[trigger] asks(
                v,
                id,
                sdk_prompt(req),
                system_of(req),
                model_of(req, default_model),
                schema_of(req),
            ),
{
    let prompt = sdk_prompt(req);
    let system = system_of(req);
    let model = model_of(req, default_model);
    let schema = schema_of(req);
    law_question_is_written(id, prompt, system, model, schema);
    let v = chat_value(id, prompt, system, model, schema);
    assert(asks(v, id, prompt, system, model, schema));
}

/// The system prompt of a request.
pub open spec fn system_of(req: ChatRequest) -> Option<Seq<char>> {
    match req.system {
        Some(s) => Some(s@),
        None => None,
    }
}

/// The model that is asked for: the one that the request names, or else the one that is
/// configured.
pub open spec fn model_of(req: ChatRequest, default_model: Option<Seq<char>>) -> Option<Seq<char>> {
    match req.model {
        ModelHint::Explicit(m) => Some(m@),
        ModelHint::Tier(_) => default_model,
    }
}

/// The schema that the answer has to follow.
pub open spec fn schema_of(req: ChatRequest) -> Option<JsonView> {
    match req.structured_output {
        Some(s) => Some(s.schema@),
        None => None,
    }
}

/// One turn more is that turn behind everything else, under the name of who says it; one
/// in which nothing is said is left out.
pub proof fn law_turns_follow_each_other(a: ChatRequest, b: ChatRequest, m: Message, t: Seq<char>)
    requires
        b.messages@ == a.messages@.push(m),
        is_turn(t, m, false),
    ensures
        said_by(m).len() == 0 ==> sdk_prompt(b) == sdk_prompt(a),
        said_by(m).len() > 0 ==> sdk_prompt(b) == t || sdk_prompt(b) == sdk_prompt(a) + "\n\n"@ + t,
        said_by(m).len() > 0 && sdk_prompt(a).len() > 0 ==> sdk_prompt(b) == sdk_prompt(a)
            + "\n\n"@ + t,
{
    lemma_turn(m, false);
    let before = spoken_turns(a.messages@);
    assert(b.messages@.drop_last() =~= a.messages@);
    let after = spoken_turns(b.messages@);
    if said_by(m).len() > 0 {
        assert(after == before.push(t));
        assert(after.drop_last() =~= before);
    }
}

/// A part of a line from the child process, by its name, or by its place in a list.
pub open spec fn part(v: JsonView, key: Seq<char>, place: int) -> JsonView {
    match v {
        JsonView::Arr(s) => if place < s.len() {
            s[place]
        } else {
            JsonView::Null
        },
        _ => field(v, key),
    }
}

/// Whether a value is this text, or is null where there is none.
pub open spec fn is_text(v: JsonView, s: Option<Seq<char>>) -> bool {
    match s {
        Some(x) => v == JsonView::Str(x),
        None => v == JsonView::Null,
    }
}

/// Whether a value is this count, or is null where there is none.
pub open spec fn is_count(v: JsonView, n: Option<u64>) -> bool {
    match n {
        Some(x) => v == JsonView::Num(NumView::Int(x as int)),
        None => v == JsonView::Null,
    }
}

/// Whether a value holds these token counts, or is null where there are none.
pub open spec fn are_counts(v: JsonView, u: Option<RawUsage>) -> bool {
    match u {
        Some(x) => {
            &&& is_count(part(v, "input_tokens"@, 0), x.input_tokens)
            &&& is_count(part(v, "output_tokens"@, 1), x.output_tokens)
            &&& is_count(part(v, "cache_read_input_tokens"@, 2), x.cache_read_input_tokens)
            &&& is_count(part(v, "cache_creation_input_tokens"@, 3), x.cache_creation_input_tokens)
        },
        None => v == JsonView::Null,
    }
}

/// A line from the child process is read as it came: for the call whose id it carries, an
/// error in its own words, or else the text with all that belongs to it.
pub proof fn law_answer_is_read(line: Seq<char>, v: JsonView, id: u64, r: Result<ReplyView, ErrorView>)
    requires
        serde_parse(line) == Ok::<JsonView, Seq<char>>(v),
        reply_read(line) == Some((id, r)),
    ensures
        part(v, "id"@, 0) == JsonView::Num(NumView::Int(id as int)),
        part(v, "error"@, 5) is Str <==> (r matches Err(e) && e is Internal),
        r matches Err(ErrorView::Internal(m)) ==> words(part(v, "error"@, 5)).is_suffix_of(m),
        r is Ok <==> part(v, "error"@, 5) == JsonView::Null && part(v, "text"@, 1) is Str,
        r matches Ok(reply) ==> {
            &&& part(v, "text"@, 1) == JsonView::Str(reply.text)
            &&& is_text(part(v, "result_subtype"@, 2), reply.result_subtype)
            &&& is_text(part(v, "model"@, 4), reply.model)
            &&& are_counts(part(v, "usage"@, 3), reply.usage)
        },
{
    if let Err(ErrorView::Internal(m)) = r {
        let said = words(part(v, "error"@, 5));
        assert(m.skip(m.len() - said.len()) =~= said);
    }
}

/// A line that holds an id and a text, and no member twice, is read and reaches its call.
pub proof fn law_sound_answer_is_delivered(p: PendingView, line: Seq<char>, v: JsonView, id: u64)
    requires
        serde_parse(line) == Ok::<JsonView, Seq<char>>(v),
        v is Obj,
        field(v, "id"@) == JsonView::Num(NumView::Int(id as int)),
        field(v, "text"@) is Str,
        !has_field(v, "result_subtype"@),
        !has_field(v, "usage"@),
        !has_field(v, "model"@),
        !has_field(v, "error"@),
        !reply_repeats(line, v),
        p.waiting.contains(id),
    ensures
        dispatched(p, line) matches DispatchView::Deliver { id: to, result } && to == id && (
        result matches Ok(reply) && reply.text == words(field(v, "text"@))),
{
    lemma_reply_keys();
}

/// Whether an answer that ended like this has this stop reason.
pub open spec fn stops_as(subtype: Option<Seq<char>>, stop: StopReason) -> bool {
    &&& stop == StopReason::EndTurn <==> subtype is None || subtype == Some("success"@) || subtype
        == Some("end_turn"@)
    &&& stop == StopReason::MaxTokens <==> subtype == Some("max_tokens"@)
    &&& stop == StopReason::EndTurn || stop == StopReason::MaxTokens || stop == StopReason::Other
}

/// A count; zero where there is none.
pub open spec fn or_none(n: Option<u64>) -> int {
    match n {
        Some(x) => x as int,
        None => 0,
    }
}

/// An answer is told: the model that gave it, or else the one that is configured, its
/// text, why it ended, and the token counts, of which the input is the fresh, the cached
/// and the newly cached part together.
pub proof fn law_answer_is_told(reply: ReplyView, default_model: Option<Seq<char>>)
    ensures
        ({
            let out = reply_events(reply, default_model);
            let usage = finishes(out)[0].1;
            &&& told(out) == seq![Told::Said(reply.text)]
            &&& models(out).len() == 1
            &&& reply.model matches Some(m) ==> models(out)[0] == m
            &&& reply.model is None ==> (default_model matches Some(m) ==> models(out)[0] == m)
            &&& out[0] is Started
            &&& finishes(out).len() == 1
            &&& out.last() is Finished
            &&& stops_as(reply.result_subtype, finishes(out)[0].0)
            &&& reply.usage matches Some(u) ==> {
                let input = or_none(u.input_tokens) + or_none(u.cache_read_input_tokens) + or_none(
                    u.cache_creation_input_tokens,
                );
                &&& input <= u64::MAX ==> usage.input_tokens == input
                &&& usage.output_tokens == or_none(u.output_tokens)
                &&& usage.cached_input_tokens == or_none(u.cache_read_input_tokens)
                &&& usage.cache_creation_tokens == or_none(u.cache_creation_input_tokens)
            }
            &&& usage.thinking_tokens == 0
        }),
{
    lemma_subtypes();
    let out = reply_events(reply, default_model);
    let none = Seq::<EventView>::empty();
    lemma_none(none);
    lemma_one_more(none, out[0]);
    lemma_one_more(none.push(out[0]), out[1]);
    lemma_one_more(none.push(out[0]).push(out[1]), out[2]);
    assert(out =~= none.push(out[0]).push(out[1]).push(out[2]));
    assert(told(out) =~= seq![Told::Said(reply.text)]);
}

/// The script is looked for first where the environment says, and last in the home
/// directory; where neither is known, in the directories alone.
pub proof fn law_named_script_comes_first(
    named: Option<Seq<char>>,
    cwd: Option<Seq<char>>,
    home: Option<Seq<char>>,
    daemon: Seq<char>,
)
    ensures
        ({
            let all = script_candidates(named, cwd, home, daemon);
            let end = "tools/"@ + daemon + "/server.mjs"@;
            &&& named matches Some(p) ==> all.len() > 0 && all[0] == p
            &&& home matches Some(h) ==> all.len() > 0 && (".tars/"@ + daemon
                + "/server.mjs"@).is_suffix_of(all.last()) && h.is_prefix_of(all.last())
            &&& cwd matches Some(dir) ==> {
                let dirs = ancestors(dir, dir.len() as int);
                let n = if named is Some {
                    1int
                } else {
                    0
                };
                &&& all.len() == dirs.len() + n + if home is Some {
                    1int
                } else {
                    0
                }
                &&& forall|i: int|
                    0 <= i < dirs.len() ==> (#[trigger] dirs[i]).is_prefix_of(all[n + i])
                        && end.is_suffix_of(all[n + i])
            }
            &&& cwd is None && named is None && home is None ==> all.len() == 0
        }),
{
    let all = script_candidates(named, cwd, home, daemon);
    let end = "tools/"@ + daemon + "/server.mjs"@;
    if let Some(h) = home {
        let rel = ".tars/"@ + daemon + "/server.mjs"@;
        lemma_below(h, rel);
    }
    if let Some(dir) = cwd {
        let dirs = ancestors(dir, dir.len() as int);
        let n = if named is Some {
            1int
        } else {
            0
        };
        assert forall|i: int| 0 <= i < dirs.len() implies (#[trigger] dirs[i]).is_prefix_of(
            all[n + i],
        ) && end.is_suffix_of(all[n + i]) by {
            lemma_below(dirs[i], end);
            assert(all[n + i] == below(dirs[i], end));
        }
    }
}

proof fn lemma_below(dir: Seq<char>, rel: Seq<char>)
    ensures
        dir.is_prefix_of(below(dir, rel)),
        rel.is_suffix_of(below(dir, rel)),
{
    let p = below(dir, rel);
    assert(p.take(dir.len() as int) =~= dir);
    assert(p.skip(p.len() - rel.len()) =~= rel);
}

/// Every directory in which the script is looked for lies on the way up from the working
/// directory: it is the front of its path, or the root, or nothing.
pub proof fn law_directories_lead_up(s: Seq<char>, end: int, i: int)
    requires
        0 <= end <= s.len(),
        0 <= i < ancestors(s, end).len(),
    ensures
        ancestors(s, end)[i].is_prefix_of(s) || ancestors(s, end)[i] == "/"@ || ancestors(s, end)[i]
            == ""@,
        i + 1 < ancestors(s, end).len() ==> ancestors(s, end)[i].len() > 0,
        solid_end(s, end) > 0 ==> ancestors(s, end)[0] == s.take(solid_end(s, end)),
    decreases end,
{
    lemma_path_ends(s, end);
    let solid = solid_end(s, end);
    if solid > 0 {
        let start = last_start(s, solid);
        lemma_path_ends(s, solid);
        lemma_path_ends(s, start);
        let next = solid_end(s, start);
        assert(ancestors(s, end) == seq![s.take(solid)] + ancestors(s, next));
        if i > 0 {
            law_directories_lead_up(s, next, i - 1);
        } else {
            assert(s.take(solid).is_prefix_of(s));
        }
    }
}

/// A line that holds a member twice is malformed, and reaches no call.
pub proof fn law_repeated_members_are_malformed(p: PendingView, line: Seq<char>, v: JsonView)
    requires
        serde_parse(line) == Ok::<JsonView, Seq<char>>(v),
        v is Obj,
        ({
            let ms = members_of(line);
            ||| is_repeated(ms, "id"@)
            ||| is_repeated(ms, "text"@)
            ||| is_repeated(ms, "result_subtype"@)
            ||| is_repeated(ms, "usage"@)
            ||| is_repeated(ms, "model"@)
            ||| is_repeated(ms, "error"@)
        }),
    ensures
        dispatched(p, line) is Malformed,
{
}

/// The directory above a directory is looked at next.
pub proof fn law_parent_comes_next(dir: Seq<char>, name: Seq<char>)
    requires
        dir.len() > 0,
        dir.last() != '/',
        name.len() > 0,
        !name.contains('/'),
    ensures
        ({
            let s = dir.push('/') + name;
            let dirs = ancestors(s, s.len() as int);
            dirs.len() > 1 && dirs[0] == s && dirs[1] == dir
        }),
{
    let s = dir.push('/') + name;
    let n = dir.len() as int;
    let end = s.len() as int;
    assert forall|i: int| n + 1 <= i < end implies #[trigger] s[i] != '/' by {
        assert(s[i] == name[i - n - 1]);
        assert(name.contains(name[i - n - 1]));
    }
    assert(s[end - 1] != '/');
    assert(solid_end(s, end) == end);
    lemma_starts_at(s, n + 1, end);
    assert(s[n] == '/');
    assert(s[n - 1] == dir.last());
    reveal_with_fuel(solid_end, 2);
    assert(solid_end(s, n + 1) == n);
    assert(s.take(end) =~= s);
    assert(s.take(n) =~= dir);
    reveal_with_fuel(ancestors, 2);
    lemma_path_ends(s, end);
    lemma_path_ends(s, n);
    assert(ancestors(s, n)[0] == s.take(n));
}

proof fn lemma_starts_at(s: Seq<char>, p: int, end: int)
    requires
        0 < p <= end <= s.len(),
        s[p - 1] == '/',
        forall|i: int| p <= i < end ==> #[trigger] s[i] != '/',
    ensures
        last_start(s, end) == p,
    decreases end - p,
{
    if end > p {
        assert(s[end - 1] != '/');
        lemma_starts_at(s, p, end - 1);
    }
}

} // verus!
