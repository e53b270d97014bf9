//! Recordings as JSON, in the form that they have in a file.

use crate::backends::cassette::request::{also, member, member_json};
use crate::backends::cassette::store::{Cassette, Recording, RecordingView};
use crate::capabilities::{Capabilities, Modalities, PromptCacheKind, StructuredOutputMode};
use crate::json::{
    at, items_view, jint, jstr, lemma_items, parse_json, parse_lenient, parse_or_null, plain,
    pretty_json, push_item, serde_parse, serde_pretty, Json, JsonView, MAX_DEPTH,
};
use crate::members::{
    behind_member, behind_value, find_named, is_repeated, items_of, lies_in, member_stop,
    member_views, members_of, named, next_named, past_blank, place, place_of, repeats, spelled,
    split_items, split_members, value_start, value_stop, Member, MemberView,
};
use crate::reasons::{in_ticks, invalid_type, missing, missing_field, wrong_type};
use crate::text::{opt_str, same};
use crate::types::{emit, events, CacheHitInfo, ChatEvent, EventView, StopReason, Usage};
use vstd::prelude::*;
use vstd::string::*;

verus! {

/// The name of the reason why a reply ended.
pub open spec fn stop_name(s: StopReason) -> Seq<char> {
    match s {
        StopReason::EndTurn => "end_turn"@,
        StopReason::MaxTokens => "max_tokens"@,
        StopReason::StopSequence => "stop_sequence"@,
        StopReason::ToolUse => "tool_use"@,
        StopReason::ContentFilter => "content_filter"@,
        StopReason::Other => "other"@,
    }
}

/// The reason that a name stands for.
pub open spec fn stop_named(s: Seq<char>) -> Option<StopReason> {
    if s == "end_turn"@ {
        Some(StopReason::EndTurn)
    } else if s == "max_tokens"@ {
        Some(StopReason::MaxTokens)
    } else if s == "stop_sequence"@ {
        Some(StopReason::StopSequence)
    } else if s == "tool_use"@ {
        Some(StopReason::ToolUse)
    } else if s == "content_filter"@ {
        Some(StopReason::ContentFilter)
    } else if s == "other"@ {
        Some(StopReason::Other)
    } else {
        None
    }
}

/// Token counts.
pub open spec fn usage_value(u: Usage) -> JsonView {
    also(
        also(
            also(
                also(
                    member("input_tokens"@, jint(u.input_tokens as int)),
                    "output_tokens"@,
                    jint(u.output_tokens as int),
                ),
                "cached_input_tokens"@,
                jint(u.cached_input_tokens as int),
            ),
            "cache_creation_tokens"@,
            jint(u.cache_creation_tokens as int),
        ),
        "thinking_tokens"@,
        jint(u.thinking_tokens as int),
    )
}

/// The token counts that a value stands for; one that is missing is zero.
pub open spec fn usage_of(v: JsonView) -> Usage {
    Usage {
        input_tokens: v.u64_or_zero("input_tokens"@),
        output_tokens: v.u64_or_zero("output_tokens"@),
        cached_input_tokens: v.u64_or_zero("cached_input_tokens"@),
        cache_creation_tokens: v.u64_or_zero("cache_creation_tokens"@),
        thinking_tokens: v.u64_or_zero("thinking_tokens"@),
    }
}

/// What a provider reported of its cache.
pub open spec fn cache_value(c: CacheHitInfo) -> JsonView {
    also(
        also(
            member("cached_input_tokens"@, jint(c.cached_input_tokens as int)),
            "used_explicit_handle"@,
            JsonView::Bool(c.used_explicit_handle),
        ),
        "replayed_from_cache"@,
        JsonView::Bool(c.replayed_from_cache),
    )
}

/// What a value reports of a cache; what is missing did not happen.
pub open spec fn cache_of(v: JsonView) -> CacheHitInfo {
    CacheHitInfo {
        cached_input_tokens: v.u64_or_zero("cached_input_tokens"@),
        used_explicit_handle: v.true_at("used_explicit_handle"@),
        replayed_from_cache: v.true_at("replayed_from_cache"@),
    }
}

/// An event of this kind, so far without anything else.
pub open spec fn kind_value(kind: Seq<char>) -> JsonView {
    member("type"@, jstr(kind))
}

/// An event.
pub open spec fn event_value(e: EventView) -> JsonView {
    match e {
        EventView::Started { actual_model, cache_hit } => also(
            also(kind_value("started"@), "actual_model"@, jstr(actual_model)),
            "cache_hit"@,
            cache_value(cache_hit),
        ),
        EventView::Delta { text } => also(kind_value("delta"@), "text"@, jstr(text)),
        EventView::ThinkingDelta { text } => also(
            kind_value("thinking_delta"@),
            "text"@,
            jstr(text),
        ),
        EventView::ToolCallStart { index, id, name } => also(
            also(
                also(kind_value("tool_call_start"@), "index"@, jint(index as int)),
                "id"@,
                jstr(id),
            ),
            "name"@,
            jstr(name),
        ),
        EventView::ToolCallArgsDelta { index, args_delta } => also(
            also(kind_value("tool_call_args_delta"@), "index"@, jint(index as int)),
            "args_delta"@,
            jstr(args_delta),
        ),
        EventView::ToolCallEnd { index, id, parsed_args } => also(
            also(
                also(kind_value("tool_call_end"@), "index"@, jint(index as int)),
                "id"@,
                jstr(id),
            ),
            "parsed_args"@,
            parsed_args,
        ),
        EventView::Finished { stop_reason, usage } => also(
            also(kind_value("finished"@), "stop_reason"@, jstr(stop_name(stop_reason))),
            "usage"@,
            usage_value(usage),
        ),
    }
}

/// The index in an event.
pub open spec fn index_of(v: JsonView) -> Option<usize> {
    match v.at("index"@).as_u64() {
        Some(n) if n <= usize::MAX => Some(n as usize),
        _ => None,
    }
}

/// The event that a value stands for, if it stands for one.
pub open spec fn event_of(v: JsonView) -> Option<EventView> {
    match v.at("type"@).as_str() {
        None => None,
        Some(kind) => if kind == "started"@ {
            match v.at("actual_model"@).as_str() {
                Some(actual_model) => Some(
                    EventView::Started { actual_model, cache_hit: cache_of(v.at("cache_hit"@)) },
                ),
                None => None,
            }
        } else if kind == "delta"@ {
            match v.at("text"@).as_str() {
                Some(text) => Some(EventView::Delta { text }),
                None => None,
            }
        } else if kind == "thinking_delta"@ {
            match v.at("text"@).as_str() {
                Some(text) => Some(EventView::ThinkingDelta { text }),
                None => None,
            }
        } else if kind == "tool_call_start"@ {
            match (index_of(v), v.at("id"@).as_str(), v.at("name"@).as_str()) {
                (Some(index), Some(id), Some(name)) => Some(
                    EventView::ToolCallStart { index, id, name },
                ),
                _ => None,
            }
        } else if kind == "tool_call_args_delta"@ {
            match (index_of(v), v.at("args_delta"@).as_str()) {
                (Some(index), Some(args_delta)) => Some(
                    EventView::ToolCallArgsDelta { index, args_delta },
                ),
                _ => None,
            }
        } else if kind == "tool_call_end"@ {
            match (index_of(v), v.at("id"@).as_str(), v.get("parsed_args"@)) {
                (Some(index), Some(id), Some(parsed_args)) => Some(
                    EventView::ToolCallEnd { index, id, parsed_args },
                ),
                _ => None,
            }
        } else if kind == "finished"@ {
            match v.at("stop_reason"@).as_str() {
                Some(name) => match stop_named(name) {
                    Some(stop_reason) => Some(
                        EventView::Finished { stop_reason, usage: usage_of(v.at("usage"@)) },
                    ),
                    None => None,
                },
                None => None,
            }
        } else {
            None
        },
    }
}

/// The events that the items of an array stand for, if each stands for one.
pub open spec fn events_of(s: Seq<JsonView>) -> Option<Seq<EventView>> {
    if forall|i: int| 0 <= i < s.len() ==> event_of(#[trigger] s[i]) is Some {
        Some(s.map_values(|v: JsonView| event_of(v)->0))
    } else {
        None
    }
}

/// An object with a text where there is one.
pub open spec fn also_text(v: JsonView, key: Seq<char>, s: Option<Seq<char>>) -> JsonView {
    match s {
        Some(x) => also(v, key, jstr(x)),
        None => v,
    }
}

/// A recording.
pub open spec fn recording_value(r: RecordingView) -> JsonView {
    also_text(
        also_text(
            member("events"@, JsonView::Arr(r.events.map_values(|e: EventView| event_value(e)))),
            "request"@,
            r.request,
        ),
        "step"@,
        r.step,
    )
}

/// A text that may be missing or null; nothing where it is something else.
pub open spec fn text_of(v: JsonView) -> Option<Option<Seq<char>>> {
    match v {
        JsonView::Null => Some(None),
        JsonView::Str(s) => Some(Some(s)),
        _ => None,
    }
}

/// The recording that a value stands for, if it stands for one. An array is a
/// recording of which only the events were kept.
pub open spec fn recording_of(v: JsonView) -> Option<RecordingView> {
    match v {
        JsonView::Arr(s) => match events_of(s) {
            Some(events) => Some(RecordingView { request: None, step: None, events }),
            None => None,
        },
        _ => match (text_of(v.at("request"@)), text_of(v.at("step"@)), v.at("events"@)) {
            (Some(request), Some(step), JsonView::Arr(s)) => match events_of(s) {
                Some(events) => Some(RecordingView { request, step, events }),
                None => None,
            },
            _ => None,
        },
    }
}

/// Recordings by their fingerprint.
pub open spec fn recordings_value(m: Map<Seq<char>, RecordingView>) -> JsonView {
    JsonView::Obj(m.map_values(|r: RecordingView| recording_value(r)))
}

/// The recordings that the members of an object stand for, if each stands for one. A
/// later one takes the place of an earlier one with the same fingerprint.
pub open spec fn recordings_in(ms: Seq<MemberView>) -> Option<Map<Seq<char>, RecordingView>>
    decreases ms.len(),
{
    if ms.len() == 0 {
        Some(Map::empty())
    } else {
        match (recordings_in(ms.drop_last()), recording_of(ms.last().value())) {
            (Some(m), Some(r)) => Some(m.insert(ms.last().key, r)),
            _ => None,
        }
    }
}

/// The recordings that a text stands for, if it stands for some.
pub open spec fn recordings_read(t: Seq<char>) -> Option<Map<Seq<char>, RecordingView>> {
    if parse_or_null(t) is Obj {
        recordings_in(members_of(t))
    } else {
        None
    }
}

/// The name of a way to keep to a schema.
pub open spec fn mode_name(m: StructuredOutputMode) -> Seq<char> {
    match m {
        StructuredOutputMode::Unsupported => "none"@,
        StructuredOutputMode::JsonObjectMode => "json_object_mode"@,
        StructuredOutputMode::StrictSchema => "strict_schema"@,
        StructuredOutputMode::ToolUseEmulation => "tool_use_emulation"@,
    }
}

/// The way to keep to a schema that a value names.
pub open spec fn mode_of(v: JsonView) -> Option<StructuredOutputMode> {
    match v.as_str() {
        None => None,
        Some(s) => if s == "none"@ {
            Some(StructuredOutputMode::Unsupported)
        } else if s == "json_object_mode"@ {
            Some(StructuredOutputMode::JsonObjectMode)
        } else if s == "strict_schema"@ {
            Some(StructuredOutputMode::StrictSchema)
        } else if s == "tool_use_emulation"@ {
            Some(StructuredOutputMode::ToolUseEmulation)
        } else {
            None
        },
    }
}

/// A kind of prompt cache.
pub open spec fn prompt_cache_value(k: PromptCacheKind) -> JsonView {
    match k {
        PromptCacheKind::NoCache => jstr("none"@),
        PromptCacheKind::ImplicitPrefix { min_tokens } => member(
            "implicit_prefix"@,
            member("min_tokens"@, jint(min_tokens as int)),
        ),
        PromptCacheKind::ExplicitMarker => jstr("explicit_marker"@),
        PromptCacheKind::ExplicitObject => jstr("explicit_object"@),
        PromptCacheKind::Delegated => jstr("delegated"@),
    }
}

/// The kind of prompt cache that a value stands for.
pub open spec fn prompt_cache_of(v: JsonView) -> Option<PromptCacheKind> {
    match v.as_str() {
        None => match size_of(v.at("implicit_prefix"@).at("min_tokens"@)) {
            Some(min_tokens) => Some(PromptCacheKind::ImplicitPrefix { min_tokens }),
            None => None,
        },
        Some(s) => if s == "none"@ {
            Some(PromptCacheKind::NoCache)
        } else if s == "explicit_marker"@ {
            Some(PromptCacheKind::ExplicitMarker)
        } else if s == "explicit_object"@ {
            Some(PromptCacheKind::ExplicitObject)
        } else if s == "delegated"@ {
            Some(PromptCacheKind::Delegated)
        } else {
            None
        },
    }
}

/// Kinds of content.
pub open spec fn modalities_value(m: Modalities) -> JsonView {
    also(member("text"@, JsonView::Bool(m.text)), "image"@, JsonView::Bool(m.image))
}

/// The kinds of content that a value stands for.
pub open spec fn modalities_of(v: JsonView) -> Modalities {
    Modalities { text: v.true_at("text"@), image: v.true_at("image"@) }
}

/// The sizes and the switches of a profile.
pub open spec fn switches_value(c: Capabilities) -> JsonView {
    let v1 = member("max_context_tokens"@, jint(c.max_context_tokens as int));
    let v2 = also(v1, "max_output_tokens"@, jint(c.max_output_tokens as int));
    let v3 = also(v2, "supports_tool_use"@, JsonView::Bool(c.supports_tool_use));
    let v4 = also(
        v3,
        "supports_parallel_tool_calls"@,
        JsonView::Bool(c.supports_parallel_tool_calls),
    );
    let v5 = also(v4, "supports_vision"@, JsonView::Bool(c.supports_vision));
    let v6 = also(v5, "supports_thinking"@, JsonView::Bool(c.supports_thinking));
    let v7 = also(v6, "supports_cancel"@, JsonView::Bool(c.supports_cancel));
    also(v7, "streaming"@, JsonView::Bool(c.streaming))
}

/// A profile: what a provider can do.
pub open spec fn profile_value(c: Capabilities) -> JsonView {
    let v1 = also(
        switches_value(c),
        "supports_structured_output"@,
        jstr(mode_name(c.supports_structured_output)),
    );
    let v2 = also(v1, "prompt_cache"@, prompt_cache_value(c.prompt_cache));
    let v3 = also(v2, "modalities_in"@, modalities_value(c.modalities_in));
    also(v3, "modalities_out"@, modalities_value(c.modalities_out))
}

/// A size in a profile.
pub open spec fn size_of(v: JsonView) -> Option<u32> {
    match v.as_u64() {
        Some(n) if n <= u32::MAX => Some(n as u32),
        _ => None,
    }
}

/// The profile that a value stands for, if it stands for one.
pub open spec fn profile_of(v: JsonView) -> Option<Capabilities> {
    match (
        size_of(v.at("max_context_tokens"@)),
        size_of(v.at("max_output_tokens"@)),
        mode_of(v.at("supports_structured_output"@)),
        prompt_cache_of(v.at("prompt_cache"@)),
    ) {
        (Some(context), Some(output), Some(mode), Some(cache)) => Some(
            Capabilities {
                max_context_tokens: context,
                max_output_tokens: output,
                supports_tool_use: v.true_at("supports_tool_use"@),
                supports_parallel_tool_calls: v.true_at("supports_parallel_tool_calls"@),
                supports_structured_output: mode,
                supports_vision: v.true_at("supports_vision"@),
                supports_thinking: v.true_at("supports_thinking"@),
                supports_cancel: v.true_at("supports_cancel"@),
                prompt_cache: cache,
                streaming: v.true_at("streaming"@),
                modalities_in: modalities_of(v.at("modalities_in"@)),
                modalities_out: modalities_of(v.at("modalities_out"@)),
            },
        ),
        _ => None,
    }
}

/// What a file holds: the profile of the provider that was recorded, where it was
/// kept, and the recordings.
pub struct FileView {
    pub profile: Option<Capabilities>,
    pub recordings: Map<Seq<char>, RecordingView>,
}

/// A file.
pub open spec fn file_value(f: FileView) -> JsonView {
    let v = member("recordings"@, recordings_value(f.recordings));
    match f.profile {
        Some(c) => also(v, "capabilities"@, profile_value(c)),
        None => v,
    }
}

/// A profile that may be missing or null; nothing where it is something else.
pub open spec fn opt_profile_of(v: JsonView) -> Option<Option<Capabilities>> {
    match v {
        JsonView::Null => Some(None),
        _ => match profile_of(v) {
            Some(c) => Some(Some(c)),
            None => None,
        },
    }
}

/// A file with this profile and the recordings in this text, if both can be read.
pub open spec fn file_with(profile: JsonView, recordings: Seq<char>) -> Option<FileView> {
    match (opt_profile_of(profile), recordings_read(recordings)) {
        (Some(profile), Some(recordings)) => Some(FileView { profile, recordings }),
        _ => None,
    }
}

/// What a text says as a file in the form of today: an object that holds each of its
/// members once, or a list of its two members in their order.
pub open spec fn current_in(t: Seq<char>) -> Option<FileView> {
    match parse_or_null(t) {
        JsonView::Obj(_) => {
            let ms = members_of(t);
            if is_repeated(ms, "capabilities"@) || is_repeated(ms, "recordings"@) {
                None
            } else {
                match named(ms, "recordings"@) {
                    Some(m) => file_with(
                        match named(ms, "capabilities"@) {
                            Some(c) => c.value(),
                            None => JsonView::Null,
                        },
                        m.text,
                    ),
                    None => None,
                }
            }
        },
        JsonView::Arr(_) => {
            let items = items_of(t);
            if items.len() == 2 {
                file_with(parse_or_null(items[0]), items[1])
            } else {
                None
            }
        },
        _ => None,
    }
}

/// What a text says as a file. One in the former form holds the recordings alone.
pub open spec fn file_in(t: Seq<char>) -> Option<FileView> {
    match current_in(t) {
        Some(f) => Some(f),
        None => match recordings_read(t) {
            Some(recordings) => Some(FileView { profile: None, recordings }),
            None => None,
        },
    }
}

/// What is wrong with a text in a value, if anything is.
pub open spec fn text_fault(v: JsonView, name: Seq<char>) -> Option<Seq<char>> {
    match v.get(name) {
        None => Some(missing_field(name)),
        Some(JsonView::Str(_)) => None,
        Some(x) => Some(invalid_type(x, "a string"@)),
    }
}

/// What is wrong with the index in an event, if anything is.
pub open spec fn index_fault(v: JsonView) -> Option<Seq<char>> {
    match v.get("index"@) {
        None => Some(missing_field("index"@)),
        Some(x) => if index_of(v) is Some {
            None
        } else {
            Some(invalid_type(x, "usize"@))
        },
    }
}

/// What is wrong with the reason in an event, if anything is.
pub open spec fn stop_fault(v: JsonView) -> Option<Seq<char>> {
    match v.get("stop_reason"@) {
        None => Some(missing_field("stop_reason"@)),
        Some(JsonView::Str(name)) => if stop_named(name) is Some {
            None
        } else {
            Some("unknown variant `"@ + name + "`"@)
        },
        Some(x) => Some(invalid_type(x, "a string"@)),
    }
}

/// The first of two faults.
pub open spec fn either(a: Option<Seq<char>>, b: Option<Seq<char>>) -> Option<Seq<char>> {
    if a is Some {
        a
    } else {
        b
    }
}

/// What is wrong with an event of this kind, if anything is.
pub open spec fn kind_fault(kind: Seq<char>, v: JsonView) -> Option<Seq<char>> {
    if kind == "started"@ {
        text_fault(v, "actual_model"@)
    } else if kind == "delta"@ || kind == "thinking_delta"@ {
        text_fault(v, "text"@)
    } else if kind == "tool_call_start"@ {
        either(either(index_fault(v), text_fault(v, "id"@)), text_fault(v, "name"@))
    } else if kind == "tool_call_args_delta"@ {
        either(index_fault(v), text_fault(v, "args_delta"@))
    } else if kind == "tool_call_end"@ {
        either(
            either(index_fault(v), text_fault(v, "id"@)),
            if v.get("parsed_args"@) is Some {
                None
            } else {
                Some(missing_field("parsed_args"@))
            },
        )
    } else if kind == "finished"@ {
        stop_fault(v)
    } else {
        Some("unknown variant `"@ + kind + "`"@)
    }
}

/// What is wrong with an event, if anything is.
pub open spec fn event_fault(v: JsonView) -> Option<Seq<char>> {
    match v {
        JsonView::Obj(_) => match v.get("type"@) {
            None => Some(missing_field("type"@)),
            Some(JsonView::Str(kind)) => kind_fault(kind, v),
            Some(x) => Some(invalid_type(x, "variant identifier"@)),
        },
        _ => Some(invalid_type(v, "internally tagged enum ChatEvent"@)),
    }
}

/// What is wrong with the first of the events that cannot be read, if there is one.
pub open spec fn events_fault(s: Seq<JsonView>) -> Option<Seq<char>>
    decreases s.len(),
{
    if s.len() == 0 {
        None
    } else {
        either(events_fault(s.drop_last()), event_fault(s.last()))
    }
}

/// What is wrong with a text that may be missing or null, if anything is.
pub open spec fn optional_fault(v: JsonView, name: Seq<char>) -> Option<Seq<char>> {
    match v.at(name) {
        JsonView::Null | JsonView::Str(_) => None,
        x => Some(invalid_type(x, "a string"@)),
    }
}

/// What is wrong with the events of a recording, if anything is but that they are
/// missing.
pub open spec fn list_fault(v: JsonView) -> Option<Seq<char>> {
    match v.get("events"@) {
        None => None,
        Some(JsonView::Arr(s)) => events_fault(s),
        Some(x) => Some(invalid_type(x, "a sequence"@)),
    }
}

/// What is wrong with a recording, if anything is. Its members are looked at in the
/// order of their names.
pub open spec fn recording_fault(v: JsonView) -> Option<Seq<char>> {
    match v {
        JsonView::Arr(s) => events_fault(s),
        JsonView::Obj(_) => either(
            either(
                either(list_fault(v), optional_fault(v, "request"@)),
                optional_fault(v, "step"@),
            ),
            if v.get("events"@) is Some {
                None
            } else {
                Some(missing_field("events"@))
            },
        ),
        _ => Some(invalid_type(v, "struct Obj"@)),
    }
}

/// The first member from `i` on that is no recording.
pub open spec fn next_fault(ms: Seq<MemberView>, i: int) -> int
    decreases ms.len() - i,
{
    if 0 <= i < ms.len() && recording_fault(ms[i].value()) is None {
        next_fault(ms, i + 1)
    } else {
        i
    }
}

/// What is wrong with a text that holds JSON but no file, and where: the first member
/// that is no recording, or that it is no object.
pub open spec fn file_fault(t: Seq<char>) -> Seq<char> {
    match parse_or_null(t) {
        JsonView::Obj(_) => {
            let ms = members_of(t);
            let m = ms[next_fault(ms, 0)];
            recording_fault(m.value())->0 + place(t, behind_member(t, m))
        },
        v => invalid_type(v, "a map"@) + place(
            t,
            if v is Arr {
                past_blank(t, 0)
            } else {
                behind_value(t)
            },
        ),
    }
}

/// The name of the reason why a reply ended.
fn stop_text(s: StopReason) -> (r: &'static str)
    ensures
        r@ == stop_name(s),
{
    match s {
        StopReason::EndTurn => "end_turn",
        StopReason::MaxTokens => "max_tokens",
        StopReason::StopSequence => "stop_sequence",
        StopReason::ToolUse => "tool_use",
        StopReason::ContentFilter => "content_filter",
        StopReason::Other => "other",
    }
}

fn read_stop(s: &str) -> (r: Option<StopReason>)
    ensures
        r == stop_named(s@),
{
    if same(s, "end_turn") {
        Some(StopReason::EndTurn)
    } else if same(s, "max_tokens") {
        Some(StopReason::MaxTokens)
    } else if same(s, "stop_sequence") {
        Some(StopReason::StopSequence)
    } else if same(s, "tool_use") {
        Some(StopReason::ToolUse)
    } else if same(s, "content_filter") {
        Some(StopReason::ContentFilter)
    } else if same(s, "other") {
        Some(StopReason::Other)
    } else {
        None
    }
}

fn usage_json(u: &Usage) -> (r: Json)
    ensures
        r@ == usage_value(*u),
{
    member_json("input_tokens", Json::Uint(u.input_tokens)).with(
        "output_tokens",
        Json::Uint(u.output_tokens),
    ).with("cached_input_tokens", Json::Uint(u.cached_input_tokens)).with(
        "cache_creation_tokens",
        Json::Uint(u.cache_creation_tokens),
    ).with("thinking_tokens", Json::Uint(u.thinking_tokens))
}

fn read_usage(v: &Json) -> (r: Usage)
    ensures
        r == usage_of(v@),
{
    Usage {
        input_tokens: v.u64_or_zero("input_tokens"),
        output_tokens: v.u64_or_zero("output_tokens"),
        cached_input_tokens: v.u64_or_zero("cached_input_tokens"),
        cache_creation_tokens: v.u64_or_zero("cache_creation_tokens"),
        thinking_tokens: v.u64_or_zero("thinking_tokens"),
    }
}

fn cache_json(c: &CacheHitInfo) -> (r: Json)
    ensures
        r@ == cache_value(*c),
{
    member_json("cached_input_tokens", Json::Uint(c.cached_input_tokens)).with(
        "used_explicit_handle",
        Json::Bool(c.used_explicit_handle),
    ).with("replayed_from_cache", Json::Bool(c.replayed_from_cache))
}

fn read_cache(v: &Json) -> (r: CacheHitInfo)
    ensures
        r == cache_of(v@),
{
    CacheHitInfo {
        cached_input_tokens: v.u64_or_zero("cached_input_tokens"),
        used_explicit_handle: v.true_at("used_explicit_handle"),
        replayed_from_cache: v.true_at("replayed_from_cache"),
    }
}

fn kind_json(kind: &str) -> (r: Json)
    ensures
        r@ == kind_value(kind@),
{
    member_json("type", Json::text(kind))
}

/// An event as JSON.
pub fn event_json(e: &ChatEvent) -> (r: Json)
    ensures
        r@ == event_value(e@),
{
    match e {
        ChatEvent::Started { actual_model, cache_hit } => kind_json("started").with(
            "actual_model",
            Json::text(actual_model.as_str()),
        ).with("cache_hit", cache_json(cache_hit)),
        ChatEvent::Delta { text } => kind_json("delta").with("text", Json::text(text.as_str())),
        ChatEvent::ThinkingDelta { text } => kind_json("thinking_delta").with(
            "text",
            Json::text(text.as_str()),
        ),
        ChatEvent::ToolCallStart { index, id, name } => kind_json("tool_call_start").with(
            "index",
            Json::Uint(*index as u64),
        ).with("id", Json::text(id.as_str())).with("name", Json::text(name.as_str())),
        ChatEvent::ToolCallArgsDelta { index, args_delta } => kind_json(
            "tool_call_args_delta",
        ).with("index", Json::Uint(*index as u64)).with(
            "args_delta",
            Json::text(args_delta.as_str()),
        ),
        ChatEvent::ToolCallEnd { index, id, parsed_args } => kind_json("tool_call_end").with(
            "index",
            Json::Uint(*index as u64),
        ).with("id", Json::text(id.as_str())).with("parsed_args", parsed_args.clone()),
        ChatEvent::Finished { stop_reason, usage } => kind_json("finished").with(
            "stop_reason",
            Json::text(stop_text(*stop_reason)),
        ).with("usage", usage_json(usage)),
    }
}

fn read_index(v: &Json) -> (r: Option<usize>)
    ensures
        r == index_of(v@),
{
    let null: Json = Json::Null;
    match at(v, "index", &null).as_u64() {
        Some(n) => if n <= usize::MAX as u64 {
            Some(n as usize)
        } else {
            None
        },
        None => None,
    }
}

/// What an event that may be missing says.
pub open spec fn opt_event(e: Option<ChatEvent>) -> Option<EventView> {
    match e {
        Some(x) => Some(x@),
        None => None,
    }
}

/// Reads an event.
pub fn read_event(v: &Json) -> (r: Option<ChatEvent>)
    ensures
        opt_event(r) == event_of(v@),
{
    let null: Json = Json::Null;
    let kind: &str = match v.str_at("type") {
        Some(k) => k,
        None => {
            return None;
        },
    };
    if same(kind, "started") {
        match v.str_at("actual_model") {
            Some(m) => Some(
                ChatEvent::Started {
                    actual_model: m.to_owned(),
                    cache_hit: read_cache(at(v, "cache_hit", &null)),
                },
            ),
            None => None,
        }
    } else if same(kind, "delta") {
        match v.str_at("text") {
            Some(s) => Some(ChatEvent::Delta { text: s.to_owned() }),
            None => None,
        }
    } else if same(kind, "thinking_delta") {
        match v.str_at("text") {
            Some(s) => Some(ChatEvent::ThinkingDelta { text: s.to_owned() }),
            None => None,
        }
    } else if same(kind, "tool_call_start") {
        match (read_index(v), v.str_at("id"), v.str_at("name")) {
            (Some(index), Some(id), Some(name)) => Some(
                ChatEvent::ToolCallStart { index, id: id.to_owned(), name: name.to_owned() },
            ),
            _ => None,
        }
    } else if same(kind, "tool_call_args_delta") {
        match (read_index(v), v.str_at("args_delta")) {
            (Some(index), Some(s)) => Some(
                ChatEvent::ToolCallArgsDelta { index, args_delta: s.to_owned() },
            ),
            _ => None,
        }
    } else if same(kind, "tool_call_end") {
        match (read_index(v), v.str_at("id"), v.get("parsed_args")) {
            (Some(index), Some(id), Some(args)) => Some(
                ChatEvent::ToolCallEnd { index, id: id.to_owned(), parsed_args: args.clone() },
            ),
            _ => None,
        }
    } else if same(kind, "finished") {
        match v.str_at("stop_reason") {
            Some(name) => match read_stop(name) {
                Some(stop_reason) => Some(
                    ChatEvent::Finished { stop_reason, usage: read_usage(at(v, "usage", &null)) },
                ),
                None => None,
            },
            None => None,
        }
    } else {
        None
    }
}

fn events_json(s: &Vec<ChatEvent>) -> (r: Json)
    ensures
        r@ == JsonView::Arr(events(s@).map_values(|e: EventView| event_value(e))),
{
    let ghost whole = events(s@).map_values(|e: EventView| event_value(e));
    let mut out: Vec<Json> = Vec::new();
    let mut i: usize = 0;
    assert(items_view(out@) =~= whole.take(0));
    while i < s.len()
        invariant
            i <= s@.len(),
            whole == events(s@).map_values(|e: EventView| event_value(e)),
            items_view(out@) == whole.take(i as int),
        decreases s@.len() - i,
    {
        push_item(&mut out, event_json(&s[i]));
        assert(whole.take(i + 1) =~= whole.take(i as int).push(event_value(s@[i as int]@)));
        i += 1;
    }
    assert(whole.take(s@.len() as int) =~= whole);
    Json::Arr(out)
}

/// Reads the events of a recording.
fn read_events(s: &Vec<Json>) -> (r: Option<Vec<ChatEvent>>)
    ensures
        match r {
            Some(v) => events_of(items_view(s@)) == Some(events(v@)),
            None => events_of(items_view(s@)) is None,
        },
{
    let ghost items = items_view(s@);
    let ghost whole = items.map_values(|v: JsonView| event_of(v)->0);
    let mut out: Vec<ChatEvent> = Vec::new();
    let mut i: usize = 0;
    proof {
        lemma_items(s@);
        assert(events(out@) =~= whole.take(0));
    }
    while i < s.len()
        invariant
            i <= s@.len(),
            items == items_view(s@),
            items.len() == s@.len(),
            forall|j: int| 0 <= j < s@.len() ==> #[trigger] items[j] == s@[j]@,
            whole == items.map_values(|v: JsonView| event_of(v)->0),
            forall|j: int| 0 <= j < i ==> event_of(#[trigger] items[j]) is Some,
            events(out@) == whole.take(i as int),
        decreases s@.len() - i,
    {
        assert(items[i as int] == s@[i as int]@);
        match read_event(&s[i]) {
            Some(e) => {
                assert(event_of(items[i as int]) == Some(e@));
                emit(&mut out, e);
                assert(whole.take(i + 1) =~= whole.take(i as int).push(e@));
            },
            None => {
                assert(event_of(items[i as int]) is None);
                return None;
            },
        }
        i += 1;
    }
    assert(whole.take(s@.len() as int) =~= whole);
    Some(out)
}

fn put_text(v: Json, key: &str, s: &Option<String>) -> (r: Json)
    requires
        v@ is Obj,
    ensures
        r@ == also_text(v@, key@, opt_str(*s)),
{
    match s {
        Some(x) => v.with(key, Json::text(x.as_str())),
        None => v,
    }
}

/// A recording as JSON.
pub fn recording_json(rec: &Recording) -> (r: Json)
    ensures
        r@ == recording_value(rec@),
{
    put_text(
        put_text(member_json("events", events_json(&rec.events)), "request", &rec.request),
        "step",
        &rec.step,
    )
}

fn read_text(v: &Json) -> (r: Option<Option<String>>)
    ensures
        match r {
            Some(s) => text_of(v@) == Some(opt_str(s)),
            None => text_of(v@) is None,
        },
{
    match v {
        Json::Null => Some(None),
        Json::Str(s) => Some(Some(s.clone())),
        _ => None,
    }
}

/// What a recording that may be missing says.
pub open spec fn opt_recording(r: Option<Recording>) -> Option<RecordingView> {
    match r {
        Some(x) => Some(x@),
        None => None,
    }
}

/// Reads a recording.
pub fn read_recording(v: &Json) -> (r: Option<Recording>)
    ensures
        opt_recording(r) == recording_of(v@),
{
    let null: Json = Json::Null;
    match v {
        Json::Arr(s) => match read_events(s) {
            Some(list) => Some(Recording::from_events(list)),
            None => None,
        },
        _ => match (
            read_text(at(v, "request", &null)),
            read_text(at(v, "step", &null)),
            at(v, "events", &null),
        ) {
            (Some(request), Some(step), Json::Arr(s)) => match read_events(s) {
                Some(list) => Some(Recording { request, step, events: list }),
                None => None,
            },
            _ => None,
        },
    }
}

/// What recordings that may be missing say.
pub open spec fn opt_cassette(r: Option<Cassette>) -> Option<Map<Seq<char>, RecordingView>> {
    match r {
        Some(x) => Some(x@),
        None => None,
    }
}

/// The members behind one that is no recording are not read.
proof fn lemma_recordings_stop(ms: Seq<MemberView>, k: int)
    requires
        0 <= k <= ms.len(),
        recordings_in(ms.take(k)) is None,
    ensures
        recordings_in(ms) is None,
    decreases ms.len() - k,
{
    if k < ms.len() {
        assert(ms.take(k + 1).drop_last() =~= ms.take(k));
        lemma_recordings_stop(ms, k + 1);
    } else {
        assert(ms.take(k) =~= ms);
    }
}

/// Reads the recordings in the members of an object.
fn collect_recordings(ms: &Vec<Member>) -> (r: Option<Cassette>)
    ensures
        opt_cassette(r) == recordings_in(member_views(ms@)),
{
    let ghost whole = member_views(ms@);
    let mut out: Cassette = Cassette::new();
    let mut i: usize = 0;
    assert(whole.take(0) =~= seq![]);
    while i < ms.len()
        invariant
            i <= ms@.len(),
            whole == member_views(ms@),
            recordings_in(whole.take(i as int)) == Some(out@),
        decreases ms@.len() - i,
    {
        proof {
            assert(whole.take(i + 1).drop_last() =~= whole.take(i as int));
            assert(whole.take(i + 1).last() == ms@[i as int]@);
        }
        match read_recording(&ms[i].value()) {
            Some(rec) => {
                out.insert(ms[i].key.clone(), rec);
            },
            None => {
                proof {
                    lemma_recordings_stop(whole, i + 1);
                }
                return None;
            },
        }
        i += 1;
    }
    assert(whole.take(ms@.len() as int) =~= whole);
    Some(out)
}

/// Reads recordings.
pub fn read_recordings(text: &str) -> (r: Option<Cassette>)
    ensures
        opt_cassette(r) == recordings_read(text@),
{
    if parse_lenient(text).is_object() {
        collect_recordings(&split_members(text))
    } else {
        None
    }
}

fn mode_text(m: StructuredOutputMode) -> (r: &'static str)
    ensures
        r@ == mode_name(m),
{
    match m {
        StructuredOutputMode::Unsupported => "none",
        StructuredOutputMode::JsonObjectMode => "json_object_mode",
        StructuredOutputMode::StrictSchema => "strict_schema",
        StructuredOutputMode::ToolUseEmulation => "tool_use_emulation",
    }
}

fn read_mode(v: &Json) -> (r: Option<StructuredOutputMode>)
    ensures
        r == mode_of(v@),
{
    match v.as_str() {
        None => None,
        Some(s) => if same(s, "none") {
            Some(StructuredOutputMode::Unsupported)
        } else if same(s, "json_object_mode") {
            Some(StructuredOutputMode::JsonObjectMode)
        } else if same(s, "strict_schema") {
            Some(StructuredOutputMode::StrictSchema)
        } else if same(s, "tool_use_emulation") {
            Some(StructuredOutputMode::ToolUseEmulation)
        } else {
            None
        },
    }
}

fn prompt_cache_json(k: PromptCacheKind) -> (r: Json)
    ensures
        r@ == prompt_cache_value(k),
{
    match k {
        PromptCacheKind::NoCache => Json::text("none"),
        PromptCacheKind::ImplicitPrefix { min_tokens } => member_json(
            "implicit_prefix",
            member_json("min_tokens", Json::Uint(min_tokens as u64)),
        ),
        PromptCacheKind::ExplicitMarker => Json::text("explicit_marker"),
        PromptCacheKind::ExplicitObject => Json::text("explicit_object"),
        PromptCacheKind::Delegated => Json::text("delegated"),
    }
}

fn read_prompt_cache(v: &Json) -> (r: Option<PromptCacheKind>)
    ensures
        r == prompt_cache_of(v@),
{
    let null: Json = Json::Null;
    match v.as_str() {
        None => match read_size(at(at(v, "implicit_prefix", &null), "min_tokens", &null)) {
            Some(min_tokens) => Some(PromptCacheKind::ImplicitPrefix { min_tokens }),
            None => None,
        },
        Some(s) => if same(s, "none") {
            Some(PromptCacheKind::NoCache)
        } else if same(s, "explicit_marker") {
            Some(PromptCacheKind::ExplicitMarker)
        } else if same(s, "explicit_object") {
            Some(PromptCacheKind::ExplicitObject)
        } else if same(s, "delegated") {
            Some(PromptCacheKind::Delegated)
        } else {
            None
        },
    }
}

fn read_size(v: &Json) -> (r: Option<u32>)
    ensures
        r == size_of(v@),
{
    match v.as_u64() {
        Some(n) => if n <= u32::MAX as u64 {
            Some(n as u32)
        } else {
            None
        },
        None => None,
    }
}

fn modalities_json(m: &Modalities) -> (r: Json)
    ensures
        r@ == modalities_value(*m),
{
    member_json("text", Json::Bool(m.text)).with("image", Json::Bool(m.image))
}

fn read_modalities(v: &Json) -> (r: Modalities)
    ensures
        r == modalities_of(v@),
{
    Modalities { text: v.true_at("text"), image: v.true_at("image") }
}

/// A profile as JSON.
pub fn profile_json(c: &Capabilities) -> (r: Json)
    ensures
        r@ == profile_value(*c),
{
    let switches: Json = member_json(
        "max_context_tokens",
        Json::Uint(c.max_context_tokens as u64),
    ).with("max_output_tokens", Json::Uint(c.max_output_tokens as u64)).with(
        "supports_tool_use",
        Json::Bool(c.supports_tool_use),
    ).with("supports_parallel_tool_calls", Json::Bool(c.supports_parallel_tool_calls)).with(
        "supports_vision",
        Json::Bool(c.supports_vision),
    ).with("supports_thinking", Json::Bool(c.supports_thinking)).with(
        "supports_cancel",
        Json::Bool(c.supports_cancel),
    ).with("streaming", Json::Bool(c.streaming));
    switches.with(
        "supports_structured_output",
        Json::text(mode_text(c.supports_structured_output)),
    ).with("prompt_cache", prompt_cache_json(c.prompt_cache)).with(
        "modalities_in",
        modalities_json(&c.modalities_in),
    ).with("modalities_out", modalities_json(&c.modalities_out))
}

/// Reads a profile.
pub fn read_profile(v: &Json) -> (r: Option<Capabilities>)
    ensures
        r == profile_of(v@),
{
    let null: Json = Json::Null;
    match (
        read_size(at(v, "max_context_tokens", &null)),
        read_size(at(v, "max_output_tokens", &null)),
        read_mode(at(v, "supports_structured_output", &null)),
        read_prompt_cache(at(v, "prompt_cache", &null)),
    ) {
        (Some(context), Some(output), Some(mode), Some(cache)) => Some(
            Capabilities {
                max_context_tokens: context,
                max_output_tokens: output,
                supports_tool_use: v.true_at("supports_tool_use"),
                supports_parallel_tool_calls: v.true_at("supports_parallel_tool_calls"),
                supports_structured_output: mode,
                supports_vision: v.true_at("supports_vision"),
                supports_thinking: v.true_at("supports_thinking"),
                supports_cancel: v.true_at("supports_cancel"),
                prompt_cache: cache,
                streaming: v.true_at("streaming"),
                modalities_in: read_modalities(at(v, "modalities_in", &null)),
                modalities_out: read_modalities(at(v, "modalities_out", &null)),
            },
        ),
        _ => None,
    }
}

/// Whether what the call of a tool was given is of a kind that comes back out of a
/// text.
pub open spec fn event_lasts(e: EventView) -> bool {
    e matches EventView::ToolCallEnd { parsed_args, .. } ==> plain(parsed_args, 122)
}

/// Whether all that a file holds is of a kind that comes back out of a text.
pub open spec fn file_lasts(f: FileView) -> bool {
    forall|k: Seq<char>, i: int|
        f.recordings.contains_key(k) && 0 <= i < f.recordings[k].events.len() ==> event_lasts(
            #[trigger] f.recordings[k].events[i],
        )
}

/// A file as JSON.
fn file_json(profile: Option<&Capabilities>, recordings: &Cassette) -> (r: Json)
    ensures
        r@ == file_value(
            (FileView {
                profile: match profile {
                    Some(c) => Some(*c),
                    None => None,
                },
                recordings: recordings@,
            }),
        ),
{
    let v: Json = member_json("recordings", recordings.to_json());
    match profile {
        Some(c) => v.with("capabilities", profile_json(c)),
        None => v,
    }
}

/// The text to keep in a file: the recordings, and the profile of the provider that
/// was recorded. Without recordings there is nothing to keep. What is kept comes back
/// out of the text.
pub fn flush_text(recordings: &Cassette, profile: &Capabilities) -> (r: Option<String>)
    ensures
        r is None <==> recordings@.dom() =~= Set::<Seq<char>>::empty(),
        r matches Some(text) ==> {
            let f = FileView { profile: Some(*profile), recordings: recordings@ };
            &&& text@ == serde_pretty(file_value(f))
            &&& file_lasts(f) ==> file_in(text@) == Some(f)
        },
{
    if recordings.len() == 0 {
        return None;
    }
    let ghost f = FileView { profile: Some(*profile), recordings: recordings@ };
    proof {
        if file_lasts(f) {
            lemma_file_plain(f);
        }
    }
    let text: String = pretty_json(&file_json(Some(profile), recordings));
    proof {
        if file_lasts(f) {
            law_file_read_back(f, text@);
        }
    }
    Some(text)
}

/// Why a text is no file.
#[derive(Debug, PartialEq)]
pub enum FileError {
    /// It is no JSON; the reason.
    NotJson(String),
    /// It is JSON of another shape; the reason.
    Malformed(String),
}

impl FileError {
    /// What is wrong with the text.
    pub fn message(&self) -> (r: &str)
        ensures
            r@ == (match self {
                FileError::NotJson(e) => e@,
                FileError::Malformed(e) => e@,
            }),
    {
        match self {
            FileError::NotJson(e) => e.as_str(),
            FileError::Malformed(e) => e.as_str(),
        }
    }
}

/// Finds what is wrong with a text in a value.
fn find_text_fault(v: &Json, name: &str) -> (r: Option<String>)
    ensures
        opt_str(r) == text_fault(v@, name@),
{
    match v.get(name) {
        None => Some(missing(name)),
        Some(Json::Str(_)) => None,
        Some(x) => Some(wrong_type(x, "a string")),
    }
}

/// Finds what is wrong with the index in an event.
fn find_index_fault(v: &Json) -> (r: Option<String>)
    ensures
        opt_str(r) == index_fault(v@),
{
    match v.get("index") {
        None => Some(missing("index")),
        Some(x) => if read_index(v).is_some() {
            None
        } else {
            Some(wrong_type(x, "usize"))
        },
    }
}

/// Finds what is wrong with the reason in an event.
fn find_stop_fault(v: &Json) -> (r: Option<String>)
    ensures
        opt_str(r) == stop_fault(v@),
{
    match v.get("stop_reason") {
        None => Some(missing("stop_reason")),
        Some(Json::Str(name)) => if read_stop(name.as_str()).is_some() {
            None
        } else {
            Some(in_ticks("unknown variant `", name.as_str()))
        },
        Some(x) => Some(wrong_type(x, "a string")),
    }
}

/// The first of two faults.
fn first_of(a: Option<String>, b: Option<String>) -> (r: Option<String>)
    ensures
        opt_str(r) == either(opt_str(a), opt_str(b)),
{
    if a.is_some() {
        a
    } else {
        b
    }
}

/// Finds what is wrong with an event of this kind.
fn find_kind_fault(kind: &str, v: &Json) -> (r: Option<String>)
    ensures
        opt_str(r) == kind_fault(kind@, v@),
{
    if same(kind, "started") {
        find_text_fault(v, "actual_model")
    } else if same(kind, "delta") || same(kind, "thinking_delta") {
        find_text_fault(v, "text")
    } else if same(kind, "tool_call_start") {
        first_of(
            first_of(find_index_fault(v), find_text_fault(v, "id")),
            find_text_fault(v, "name"),
        )
    } else if same(kind, "tool_call_args_delta") {
        first_of(find_index_fault(v), find_text_fault(v, "args_delta"))
    } else if same(kind, "tool_call_end") {
        let args: Option<String> = if v.get("parsed_args").is_some() {
            None
        } else {
            Some(missing("parsed_args"))
        };
        first_of(first_of(find_index_fault(v), find_text_fault(v, "id")), args)
    } else if same(kind, "finished") {
        find_stop_fault(v)
    } else {
        Some(in_ticks("unknown variant `", kind))
    }
}

/// Finds what is wrong with an event.
fn find_event_fault(v: &Json) -> (r: Option<String>)
    ensures
        opt_str(r) == event_fault(v@),
{
    match v {
        Json::Obj(_) => match v.get("type") {
            None => Some(missing("type")),
            Some(Json::Str(kind)) => find_kind_fault(kind.as_str(), v),
            Some(x) => Some(wrong_type(x, "variant identifier")),
        },
        _ => Some(wrong_type(v, "internally tagged enum ChatEvent")),
    }
}

proof fn lemma_events_fault_stays(s: Seq<JsonView>, k: int)
    requires
        0 <= k <= s.len(),
        events_fault(s.take(k)) is Some,
    ensures
        events_fault(s) == events_fault(s.take(k)),
    decreases s.len() - k,
{
    if k < s.len() {
        assert(s.take(k + 1).drop_last() =~= s.take(k));
        lemma_events_fault_stays(s, k + 1);
    } else {
        assert(s.take(k) =~= s);
    }
}

/// Finds what is wrong with the first of the events that cannot be read.
fn find_events_fault(s: &Vec<Json>) -> (r: Option<String>)
    ensures
        opt_str(r) == events_fault(items_view(s@)),
{
    let ghost whole = items_view(s@);
    let mut i: usize = 0;
    proof {
        lemma_items(s@);
        assert(whole.take(0) =~= seq![]);
    }
    while i < s.len()
        invariant
            i <= s@.len(),
            whole == items_view(s@),
            whole.len() == s@.len(),
            forall|j: int| 0 <= j < s@.len() ==> #[trigger] whole[j] == s@[j]@,
            events_fault(whole.take(i as int)) is None,
        decreases s@.len() - i,
    {
        proof {
            assert(whole.take(i + 1).drop_last() =~= whole.take(i as int));
            assert(whole.take(i + 1).last() == whole[i as int]);
        }
        let fault: Option<String> = find_event_fault(&s[i]);
        if fault.is_some() {
            proof {
                lemma_events_fault_stays(whole, i + 1);
            }
            return fault;
        }
        i += 1;
    }
    assert(whole.take(s@.len() as int) =~= whole);
    None
}

/// Finds what is wrong with a text that may be missing or null.
fn find_optional_fault(v: &Json, name: &str) -> (r: Option<String>)
    ensures
        opt_str(r) == optional_fault(v@, name@),
{
    let null: Json = Json::Null;
    let x: &Json = at(v, name, &null);
    match x {
        Json::Null | Json::Str(_) => None,
        _ => Some(wrong_type(x, "a string")),
    }
}

/// Finds what is wrong with the events of a recording.
fn find_list_fault(v: &Json) -> (r: Option<String>)
    ensures
        opt_str(r) == list_fault(v@),
{
    match v.get("events") {
        None => None,
        Some(Json::Arr(s)) => find_events_fault(s),
        Some(x) => Some(wrong_type(x, "a sequence")),
    }
}

/// Finds what is wrong with a recording.
fn find_recording_fault(v: &Json) -> (r: Option<String>)
    ensures
        opt_str(r) == recording_fault(v@),
{
    match v {
        Json::Arr(s) => find_events_fault(s),
        Json::Obj(_) => {
            let events: Option<String> = if v.get("events").is_some() {
                None
            } else {
                Some(missing("events"))
            };
            first_of(
                first_of(
                    first_of(find_list_fault(v), find_optional_fault(v, "request")),
                    find_optional_fault(v, "step"),
                ),
                events,
            )
        },
        _ => Some(wrong_type(v, "struct Obj")),
    }
}

proof fn lemma_event_fault(v: JsonView)
    ensures
        event_fault(v) is Some <==> event_of(v) is None,
{
    lemma_event_keys();
}

proof fn lemma_events_fault(s: Seq<JsonView>)
    ensures
        events_fault(s) is Some <==> events_of(s) is None,
    decreases s.len(),
{
    if s.len() > 0 {
        let front = s.drop_last();
        lemma_events_fault(front);
        lemma_event_fault(s.last());
        if events_of(front) is None {
            let i = choose|i: int| 0 <= i < front.len() && !(event_of(#[trigger] front[i]) is Some);
            assert(s[i] == front[i]);
        } else if event_of(s.last()) is Some {
            assert forall|i: int| 0 <= i < s.len() implies event_of(#[trigger] s[i]) is Some by {
                if i < front.len() {
                    assert(front[i] == s[i]);
                }
            }
        } else {
            assert(!(event_of(s[s.len() - 1]) is Some));
        }
    }
}

/// What cannot be read as a recording has a fault, and nothing else has.
proof fn lemma_recording_fault(v: JsonView)
    ensures
        recording_fault(v) is Some <==> recording_of(v) is None,
{
    match v {
        JsonView::Arr(s) => lemma_events_fault(s),
        JsonView::Obj(_) => {
            if let JsonView::Arr(s) = v.at("events"@) {
                lemma_events_fault(s);
            }
        },
        _ => {},
    }
}

proof fn lemma_next_fault(ms: Seq<MemberView>, i: int)
    requires
        0 <= i <= ms.len(),
        forall|j: int| 0 <= j < i ==> recording_of((#[trigger] ms[j]).value()) is Some,
        recordings_in(ms) is None,
    ensures
        i <= next_fault(ms, i) < ms.len(),
        recording_fault(ms[next_fault(ms, i)].value()) is Some,
    decreases ms.len() - i,
{
    if i < ms.len() {
        lemma_recording_fault(ms[i].value());
        if recording_fault(ms[i].value()) is None {
            lemma_next_fault(ms, i + 1);
        }
    } else {
        lemma_recordings_some(ms);
    }
}

proof fn lemma_recordings_some(ms: Seq<MemberView>)
    requires
        forall|j: int| 0 <= j < ms.len() ==> recording_of((#[trigger] ms[j]).value()) is Some,
    ensures
        recordings_in(ms) is Some,
    decreases ms.len(),
{
    if ms.len() > 0 {
        let front = ms.drop_last();
        assert forall|j: int| 0 <= j < front.len() implies recording_of(
            (#[trigger] front[j]).value(),
        ) is Some by {
            assert(front[j] == ms[j]);
        }
        lemma_recordings_some(front);
        assert(ms.last() == ms[ms.len() - 1]);
    }
}

/// Finds what is wrong with a text that holds JSON but no file.
fn find_file_fault(text: &str) -> (r: String)
    requires
        file_in(text@) is None,
    ensures
        r@ == file_fault(text@),
{
    let v: Json = parse_lenient(text);
    match &v {
        Json::Obj(_) => {
            let ms: Vec<Member> = split_members(text);
            let ghost views = member_views(ms@);
            let mut i: usize = 0;
            proof {
                lemma_next_fault(views, 0);
            }
            while i < ms.len()
                invariant
                    i <= ms@.len(),
                    views == member_views(ms@),
                    views == members_of(text@),
                    parse_or_null(text@) is Obj,
                    next_fault(views, i as int) == next_fault(views, 0),
                    next_fault(views, 0) < views.len(),
                    forall|j: int| 0 <= j < ms@.len() ==> lies_in((#[trigger] ms@[j])@, text@),
                decreases ms@.len() - i,
            {
                assert(views[i as int] == ms@[i as int]@);
                match find_recording_fault(&ms[i].value()) {
                    Some(fault) => {
                        let mut out: String = fault;
                        let stop: usize = member_stop(text, &ms[i]);
                        out.append(place_of(text, stop).as_str());
                        return out;
                    },
                    None => {},
                }
                i += 1;
            }
            assert(false);
            String::new()
        },
        _ => {
            let spot: usize = match &v {
                Json::Arr(_) => value_start(text),
                _ => value_stop(text),
            };
            let mut out: String = wrong_type(&v, "a map");
            out.append(place_of(text, spot).as_str());
            out
        },
    }
}

/// What is kept in a file: the profile of the provider that was recorded, and the
/// recordings.
#[derive(Debug)]
pub struct CassetteFile {
    pub capabilities: Option<Capabilities>,
    pub recordings: Cassette,
}

impl View for CassetteFile {
    type V = FileView;

    open spec fn view(&self) -> FileView {
        FileView { profile: self.capabilities, recordings: self.recordings@ }
    }
}

/// What a file that may be malformed says.
pub open spec fn opt_file(r: Option<CassetteFile>) -> Option<FileView> {
    match r {
        Some(x) => Some(x@),
        None => None,
    }
}

/// What reading a file gives.
pub open spec fn file_result(r: Result<CassetteFile, FileError>) -> Result<FileView, FileError> {
    match r {
        Ok(f) => Ok(f@),
        Err(e) => Err(e),
    }
}

/// Whether a text is read as a file: it holds one, or the error says why it does not. The
/// reason for one that is no JSON is that of `serde_json`.
pub open spec fn is_file_read(t: Seq<char>, r: Result<FileView, FileError>) -> bool {
    match r {
        Ok(f) => serde_parse(t) is Ok && file_in(t) == Some(f),
        Err(FileError::NotJson(e)) => serde_parse(t) == Err::<JsonView, Seq<char>>(e@),
        Err(FileError::Malformed(e)) => serde_parse(t) is Ok && file_in(t) is None && e@
            == file_fault(t),
    }
}

impl CassetteFile {
    /// A file as JSON.
    pub fn to_json(&self) -> (r: Json)
        ensures
            r@ == file_value(self@),
    {
        match &self.capabilities {
            Some(c) => file_json(Some(c), &self.recordings),
            None => file_json(None, &self.recordings),
        }
    }

    /// Reads the text of a file.
    pub fn from_text(text: &str) -> (r: Result<CassetteFile, FileError>)
        ensures
            is_file_read(text@, file_result(r)),
    {
        match parse_json(text) {
            Ok(_) => match CassetteFile::read(text) {
                Some(f) => Ok(f),
                None => Err(FileError::Malformed(find_file_fault(text))),
            },
            Err(e) => Err(FileError::NotJson(e)),
        }
    }

    /// Reads a file with this profile and the recordings in this text.
    fn with(profile: &Json, recordings: &str) -> (r: Option<CassetteFile>)
        ensures
            opt_file(r) == file_with(profile@, recordings@),
    {
        let capabilities: Option<Capabilities> = match profile {
            Json::Null => None,
            _ => match read_profile(profile) {
                Some(p) => Some(p),
                None => {
                    return None;
                },
            },
        };
        match read_recordings(recordings) {
            Some(recordings) => Some(CassetteFile { capabilities, recordings }),
            None => None,
        }
    }

    /// Reads a file in the form of today.
    pub fn read_current(text: &str) -> (r: Option<CassetteFile>)
        ensures
            opt_file(r) == current_in(text@),
    {
        match parse_lenient(text) {
            Json::Obj(_) => {
                let ms: Vec<Member> = split_members(text);
                if repeats(&ms, "capabilities") || repeats(&ms, "recordings") {
                    return None;
                }
                let profile: Json = match find_named(&ms, "capabilities") {
                    Some(c) => c.value(),
                    None => Json::Null,
                };
                match find_named(&ms, "recordings") {
                    Some(m) => CassetteFile::with(&profile, m.text.as_str()),
                    None => None,
                }
            },
            Json::Arr(_) => {
                let items: Vec<String> = split_items(text);
                if items.len() == 2 {
                    CassetteFile::with(&parse_lenient(items[0].as_str()), items[1].as_str())
                } else {
                    None
                }
            },
            _ => None,
        }
    }

    /// Reads a file, in the form of today or in the former one.
    pub fn read(text: &str) -> (r: Option<CassetteFile>)
        ensures
            opt_file(r) == file_in(text@),
    {
        match CassetteFile::read_current(text) {
            Some(f) => Some(f),
            None => match read_recordings(text) {
                Some(recordings) => Some(CassetteFile { capabilities: None, recordings }),
                None => None,
            },
        }
    }
}

/// The names of the members of an event are different.
proof fn lemma_event_keys()
    ensures
        "type"@ != "text"@,
        "type"@ != "actual_model"@,
        "type"@ != "cache_hit"@,
        "actual_model"@ != "cache_hit"@,
        "type"@ != "index"@,
        "type"@ != "id"@,
        "type"@ != "name"@,
        "type"@ != "args_delta"@,
        "type"@ != "parsed_args"@,
        "index"@ != "id"@,
        "index"@ != "name"@,
        "index"@ != "args_delta"@,
        "index"@ != "parsed_args"@,
        "id"@ != "name"@,
        "id"@ != "args_delta"@,
        "id"@ != "parsed_args"@,
        "name"@ != "args_delta"@,
        "name"@ != "parsed_args"@,
        "args_delta"@ != "parsed_args"@,
        "type"@ != "stop_reason"@,
        "type"@ != "usage"@,
        "stop_reason"@ != "usage"@,
        "cached_input_tokens"@ != "used_explicit_handle"@,
        "cached_input_tokens"@ != "replayed_from_cache"@,
        "used_explicit_handle"@ != "replayed_from_cache"@,
        "input_tokens"@ != "output_tokens"@,
        "input_tokens"@ != "cached_input_tokens"@,
        "input_tokens"@ != "cache_creation_tokens"@,
        "input_tokens"@ != "thinking_tokens"@,
        "output_tokens"@ != "cached_input_tokens"@,
        "output_tokens"@ != "cache_creation_tokens"@,
        "output_tokens"@ != "thinking_tokens"@,
        "cached_input_tokens"@ != "cache_creation_tokens"@,
        "cached_input_tokens"@ != "thinking_tokens"@,
        "cache_creation_tokens"@ != "thinking_tokens"@,
{
    reveal_strlit("type");
    reveal_strlit("text");
    reveal_strlit("actual_model");
    reveal_strlit("cache_hit");
    reveal_strlit("index");
    reveal_strlit("id");
    reveal_strlit("name");
    reveal_strlit("args_delta");
    reveal_strlit("parsed_args");
    reveal_strlit("stop_reason");
    reveal_strlit("usage");
    reveal_strlit("cached_input_tokens");
    reveal_strlit("used_explicit_handle");
    reveal_strlit("replayed_from_cache");
    reveal_strlit("input_tokens");
    reveal_strlit("output_tokens");
    reveal_strlit("cache_creation_tokens");
    reveal_strlit("thinking_tokens");
    assert("type"@.len() == 4);
    assert("text"@.len() == 4);
    assert("actual_model"@.len() == 12);
    assert("cache_hit"@.len() == 9);
    assert("index"@.len() == 5);
    assert("id"@.len() == 2);
    assert("name"@.len() == 4);
    assert("args_delta"@.len() == 10);
    assert("parsed_args"@.len() == 11);
    assert("stop_reason"@.len() == 11);
    assert("usage"@.len() == 5);
    assert("cached_input_tokens"@.len() == 19);
    assert("used_explicit_handle"@.len() == 20);
    assert("replayed_from_cache"@.len() == 19);
    assert("input_tokens"@.len() == 12);
    assert("output_tokens"@.len() == 13);
    assert("cache_creation_tokens"@.len() == 21);
    assert("thinking_tokens"@.len() == 15);
    assert("type"@[1] != "text"@[1]);
    assert("type"@[0] != "name"@[0]);
    assert("cached_input_tokens"@[0] != "replayed_from_cache"@[0]);
}

/// The names of the members of a file are different.
proof fn lemma_file_keys()
    ensures
        "request"@ != "step"@,
        "request"@ != "events"@,
        "step"@ != "events"@,
        "capabilities"@ != "recordings"@,
{
    reveal_strlit("request");
    reveal_strlit("step");
    reveal_strlit("events");
    reveal_strlit("capabilities");
    reveal_strlit("recordings");
    assert("request"@.len() == 7);
    assert("step"@.len() == 4);
    assert("events"@.len() == 6);
    assert("capabilities"@.len() == 12);
    assert("recordings"@.len() == 10);
}

/// The names of the members of a profile are different.
proof fn lemma_profile_keys()
    ensures
        "max_context_tokens"@ != "max_output_tokens"@,
        "max_context_tokens"@ != "supports_tool_use"@,
        "max_context_tokens"@ != "supports_parallel_tool_calls"@,
        "max_context_tokens"@ != "supports_structured_output"@,
        "max_context_tokens"@ != "supports_vision"@,
        "max_context_tokens"@ != "supports_thinking"@,
        "max_context_tokens"@ != "supports_cancel"@,
        "max_context_tokens"@ != "prompt_cache"@,
        "max_context_tokens"@ != "streaming"@,
        "max_context_tokens"@ != "modalities_in"@,
        "max_context_tokens"@ != "modalities_out"@,
        "max_output_tokens"@ != "supports_tool_use"@,
        "max_output_tokens"@ != "supports_parallel_tool_calls"@,
        "max_output_tokens"@ != "supports_structured_output"@,
        "max_output_tokens"@ != "supports_vision"@,
        "max_output_tokens"@ != "supports_thinking"@,
        "max_output_tokens"@ != "supports_cancel"@,
        "max_output_tokens"@ != "prompt_cache"@,
        "max_output_tokens"@ != "streaming"@,
        "max_output_tokens"@ != "modalities_in"@,
        "max_output_tokens"@ != "modalities_out"@,
        "supports_tool_use"@ != "supports_parallel_tool_calls"@,
        "supports_tool_use"@ != "supports_structured_output"@,
        "supports_tool_use"@ != "supports_vision"@,
        "supports_tool_use"@ != "supports_thinking"@,
        "supports_tool_use"@ != "supports_cancel"@,
        "supports_tool_use"@ != "prompt_cache"@,
        "supports_tool_use"@ != "streaming"@,
        "supports_tool_use"@ != "modalities_in"@,
        "supports_tool_use"@ != "modalities_out"@,
        "supports_parallel_tool_calls"@ != "supports_structured_output"@,
        "supports_parallel_tool_calls"@ != "supports_vision"@,
        "supports_parallel_tool_calls"@ != "supports_thinking"@,
        "supports_parallel_tool_calls"@ != "supports_cancel"@,
        "supports_parallel_tool_calls"@ != "prompt_cache"@,
        "supports_parallel_tool_calls"@ != "streaming"@,
        "supports_parallel_tool_calls"@ != "modalities_in"@,
        "supports_parallel_tool_calls"@ != "modalities_out"@,
        "supports_structured_output"@ != "supports_vision"@,
        "supports_structured_output"@ != "supports_thinking"@,
        "supports_structured_output"@ != "supports_cancel"@,
        "supports_structured_output"@ != "prompt_cache"@,
        "supports_structured_output"@ != "streaming"@,
        "supports_structured_output"@ != "modalities_in"@,
        "supports_structured_output"@ != "modalities_out"@,
        "supports_vision"@ != "supports_thinking"@,
        "supports_vision"@ != "supports_cancel"@,
        "supports_vision"@ != "prompt_cache"@,
        "supports_vision"@ != "streaming"@,
        "supports_vision"@ != "modalities_in"@,
        "supports_vision"@ != "modalities_out"@,
        "supports_thinking"@ != "supports_cancel"@,
        "supports_thinking"@ != "prompt_cache"@,
        "supports_thinking"@ != "streaming"@,
        "supports_thinking"@ != "modalities_in"@,
        "supports_thinking"@ != "modalities_out"@,
        "supports_cancel"@ != "prompt_cache"@,
        "supports_cancel"@ != "streaming"@,
        "supports_cancel"@ != "modalities_in"@,
        "supports_cancel"@ != "modalities_out"@,
        "prompt_cache"@ != "streaming"@,
        "prompt_cache"@ != "modalities_in"@,
        "prompt_cache"@ != "modalities_out"@,
        "streaming"@ != "modalities_in"@,
        "streaming"@ != "modalities_out"@,
        "modalities_in"@ != "modalities_out"@,
        "text"@ != "image"@,
{
    reveal_strlit("max_context_tokens");
    reveal_strlit("max_output_tokens");
    reveal_strlit("supports_tool_use");
    reveal_strlit("supports_parallel_tool_calls");
    reveal_strlit("supports_structured_output");
    reveal_strlit("supports_vision");
    reveal_strlit("supports_thinking");
    reveal_strlit("supports_cancel");
    reveal_strlit("prompt_cache");
    reveal_strlit("streaming");
    reveal_strlit("modalities_in");
    reveal_strlit("modalities_out");
    reveal_strlit("text");
    reveal_strlit("image");
    assert("max_context_tokens"@.len() == 18);
    assert("max_output_tokens"@.len() == 17);
    assert("supports_tool_use"@.len() == 17);
    assert("supports_parallel_tool_calls"@.len() == 28);
    assert("supports_structured_output"@.len() == 26);
    assert("supports_vision"@.len() == 15);
    assert("supports_thinking"@.len() == 17);
    assert("supports_cancel"@.len() == 15);
    assert("prompt_cache"@.len() == 12);
    assert("streaming"@.len() == 9);
    assert("modalities_in"@.len() == 13);
    assert("modalities_out"@.len() == 14);
    assert("text"@.len() == 4);
    assert("image"@.len() == 5);
    assert("max_output_tokens"@[0] != "supports_tool_use"@[0]);
    assert("max_output_tokens"@[0] != "supports_thinking"@[0]);
    assert("supports_tool_use"@[10] != "supports_thinking"@[10]);
    assert("supports_vision"@[9] != "supports_cancel"@[9]);
}

/// The kinds of events, the reasons for an end and the modes are different.
proof fn lemma_kinds()
    ensures
        "started"@ != "delta"@,
        "started"@ != "thinking_delta"@,
        "started"@ != "tool_call_start"@,
        "started"@ != "tool_call_args_delta"@,
        "started"@ != "tool_call_end"@,
        "started"@ != "finished"@,
        "delta"@ != "thinking_delta"@,
        "delta"@ != "tool_call_start"@,
        "delta"@ != "tool_call_args_delta"@,
        "delta"@ != "tool_call_end"@,
        "delta"@ != "finished"@,
        "thinking_delta"@ != "tool_call_start"@,
        "thinking_delta"@ != "tool_call_args_delta"@,
        "thinking_delta"@ != "tool_call_end"@,
        "thinking_delta"@ != "finished"@,
        "tool_call_start"@ != "tool_call_args_delta"@,
        "tool_call_start"@ != "tool_call_end"@,
        "tool_call_start"@ != "finished"@,
        "tool_call_args_delta"@ != "tool_call_end"@,
        "tool_call_args_delta"@ != "finished"@,
        "tool_call_end"@ != "finished"@,
        "end_turn"@ != "max_tokens"@,
        "end_turn"@ != "stop_sequence"@,
        "end_turn"@ != "tool_use"@,
        "end_turn"@ != "content_filter"@,
        "end_turn"@ != "other"@,
        "max_tokens"@ != "stop_sequence"@,
        "max_tokens"@ != "tool_use"@,
        "max_tokens"@ != "content_filter"@,
        "max_tokens"@ != "other"@,
        "stop_sequence"@ != "tool_use"@,
        "stop_sequence"@ != "content_filter"@,
        "stop_sequence"@ != "other"@,
        "tool_use"@ != "content_filter"@,
        "tool_use"@ != "other"@,
        "content_filter"@ != "other"@,
        "none"@ != "json_object_mode"@,
        "none"@ != "strict_schema"@,
        "none"@ != "tool_use_emulation"@,
        "json_object_mode"@ != "strict_schema"@,
        "json_object_mode"@ != "tool_use_emulation"@,
        "strict_schema"@ != "tool_use_emulation"@,
        "none"@ != "explicit_marker"@,
        "none"@ != "explicit_object"@,
        "none"@ != "delegated"@,
        "explicit_marker"@ != "explicit_object"@,
        "explicit_marker"@ != "delegated"@,
        "explicit_object"@ != "delegated"@,
{
    reveal_strlit("started");
    reveal_strlit("delta");
    reveal_strlit("thinking_delta");
    reveal_strlit("tool_call_start");
    reveal_strlit("tool_call_args_delta");
    reveal_strlit("tool_call_end");
    reveal_strlit("finished");
    reveal_strlit("end_turn");
    reveal_strlit("max_tokens");
    reveal_strlit("stop_sequence");
    reveal_strlit("tool_use");
    reveal_strlit("content_filter");
    reveal_strlit("other");
    reveal_strlit("none");
    reveal_strlit("json_object_mode");
    reveal_strlit("strict_schema");
    reveal_strlit("tool_use_emulation");
    reveal_strlit("explicit_marker");
    reveal_strlit("explicit_object");
    reveal_strlit("delegated");
    assert("started"@.len() == 7);
    assert("delta"@.len() == 5);
    assert("thinking_delta"@.len() == 14);
    assert("tool_call_start"@.len() == 15);
    assert("tool_call_args_delta"@.len() == 20);
    assert("tool_call_end"@.len() == 13);
    assert("finished"@.len() == 8);
    assert("end_turn"@.len() == 8);
    assert("max_tokens"@.len() == 10);
    assert("stop_sequence"@.len() == 13);
    assert("tool_use"@.len() == 8);
    assert("content_filter"@.len() == 14);
    assert("other"@.len() == 5);
    assert("none"@.len() == 4);
    assert("json_object_mode"@.len() == 16);
    assert("strict_schema"@.len() == 13);
    assert("tool_use_emulation"@.len() == 18);
    assert("explicit_marker"@.len() == 15);
    assert("explicit_object"@.len() == 15);
    assert("delegated"@.len() == 9);
    assert("end_turn"@[0] != "tool_use"@[0]);
    assert("explicit_marker"@[9] != "explicit_object"@[9]);
}

/// An event is read back as it was written.
pub proof fn law_event_read_back(e: EventView)
    ensures
        event_of(event_value(e)) == Some(e),
{
    lemma_event_keys();
    lemma_kinds();
    match e {
        EventView::Started { actual_model, cache_hit } => {
            assert(cache_of(cache_value(cache_hit)) == cache_hit);
        },
        EventView::Finished { stop_reason, usage } => {
            assert(usage_of(usage_value(usage)) == usage);
            assert(stop_named(stop_name(stop_reason)) == Some(stop_reason));
        },
        _ => {},
    }
}

/// A recording is read back as it was written.
pub proof fn law_recording_read_back(r: RecordingView)
    ensures
        recording_of(recording_value(r)) == Some(r),
{
    lemma_file_keys();
    let v = recording_value(r);
    let s = r.events.map_values(|e: EventView| event_value(e));
    assert(v.at("events"@) == JsonView::Arr(s));
    assert(text_of(v.at("request"@)) == Some(r.request));
    assert(text_of(v.at("step"@)) == Some(r.step));
    assert forall|i: int| 0 <= i < s.len() implies event_of(#[trigger] s[i]) is Some by {
        law_event_read_back(r.events[i]);
    }
    let back = s.map_values(|x: JsonView| event_of(x)->0);
    assert(back =~= r.events) by {
        assert forall|i: int| 0 <= i < s.len() implies back[i] == r.events[i] by {
            law_event_read_back(r.events[i]);
        }
    }
}

/// A recording of which only the events were kept is read as such.
pub proof fn law_bare_events_read(s: Seq<EventView>)
    ensures
        recording_of(JsonView::Arr(s.map_values(|e: EventView| event_value(e)))) == Some(
            RecordingView { request: None, step: None, events: s },
        ),
{
    let v = s.map_values(|e: EventView| event_value(e));
    assert forall|i: int| 0 <= i < v.len() implies event_of(#[trigger] v[i]) is Some by {
        law_event_read_back(s[i]);
    }
    let back = v.map_values(|x: JsonView| event_of(x)->0);
    assert(back =~= s) by {
        assert forall|i: int| 0 <= i < v.len() implies back[i] == s[i] by {
            law_event_read_back(s[i]);
        }
    }
}

/// A profile is read back as it was written.
pub proof fn law_profile_read_back(c: Capabilities)
    ensures
        profile_of(profile_value(c)) == Some(c),
{
    lemma_profile_keys();
    lemma_kinds();
    let v = profile_value(c);
    assert(mode_of(v.at("supports_structured_output"@)) == Some(c.supports_structured_output));
    assert(prompt_cache_of(v.at("prompt_cache"@)) == Some(c.prompt_cache));
    assert(modalities_of(v.at("modalities_in"@)) == c.modalities_in);
    assert(modalities_of(v.at("modalities_out"@)) == c.modalities_out);
}

proof fn lemma_recordings_spelled(ms: Seq<MemberView>, m: Map<Seq<char>, RecordingView>)
    requires
        forall|i: int|
            0 <= i < ms.len() ==> m.contains_key((#[trigger] ms[i]).key) && recording_of(
                ms[i].value(),
            ) == Some(m[ms[i].key]),
    ensures
        recordings_in(ms) matches Some(out) && (forall|k: Seq<char>| #[trigger]
            out.contains_key(k) ==> m.contains_key(k) && out[k] == m[k]) && (forall|i: int|
            0 <= i < ms.len() ==> out.contains_key((#[trigger] ms[i]).key)),
    decreases ms.len(),
{
    if ms.len() > 0 {
        let front = ms.drop_last();
        assert forall|i: int| 0 <= i < front.len() implies m.contains_key((#[trigger] front[i]).key)
            && recording_of(front[i].value()) == Some(m[front[i].key]) by {
            assert(front[i] == ms[i]);
        }
        lemma_recordings_spelled(front, m);
        let before = recordings_in(front)->0;
        let last = ms[ms.len() - 1];
        assert(ms.last() == last);
        let out = before.insert(last.key, m[last.key]);
        assert forall|i: int| 0 <= i < ms.len() implies out.contains_key((#[trigger] ms[i]).key) by {
            if i < front.len() {
                assert(before.contains_key(front[i].key));
            }
        }
    }
}

proof fn lemma_named(ms: Seq<MemberView>, key: Seq<char>, i: int)
    requires
        0 <= i <= ms.len(),
    ensures
        i <= next_named(ms, key, i) <= ms.len(),
        next_named(ms, key, i) < ms.len() ==> ms[next_named(ms, key, i)].key == key,
    decreases ms.len() - i,
{
    if i < ms.len() && ms[i].key != key {
        lemma_named(ms, key, i + 1);
    }
}

proof fn lemma_found(ms: Seq<MemberView>, i: int, from: int)
    requires
        0 <= from <= i < ms.len(),
    ensures
        next_named(ms, ms[i].key, from) <= i,
    decreases i - from,
{
    if from < i && ms[from].key != ms[i].key {
        lemma_found(ms, i, from + 1);
    }
}

proof fn lemma_recordings_read_back(m: Map<Seq<char>, RecordingView>, text: Seq<char>)
    requires
        parse_or_null(text) == recordings_value(m),
        spelled(text, recordings_value(m), 1),
    ensures
        recordings_read(text) == Some(m),
{
    let v = m.map_values(|r: RecordingView| recording_value(r));
    assert(recordings_value(m) == JsonView::Obj(v));
    let ms = members_of(text);
    assert forall|i: int| 0 <= i < ms.len() implies m.contains_key((#[trigger] ms[i]).key)
        && recording_of(ms[i].value()) == Some(m[ms[i].key]) by {
        lemma_found(ms, i, 0);
        assert(named(ms, ms[i].key) is Some);
        assert(v.contains_key(ms[i].key));
        law_recording_read_back(m[ms[i].key]);
    }
    lemma_recordings_spelled(ms, m);
    let out = recordings_in(ms)->0;
    assert forall|k: Seq<char>| m.contains_key(k) implies #[trigger] out.contains_key(k) by {
        assert(v.contains_key(k));
        assert(named(ms, k) is Some);
        lemma_named(ms, k, 0);
        let i = next_named(ms, k, 0);
        assert(out.contains_key(ms[i].key));
    }
    assert(out =~= m);
}

/// A file is read back as it was written: the profile of the provider and all
/// recordings. The text writes out the file, each member of an object once.
pub proof fn law_file_read_back(f: FileView, text: Seq<char>)
    requires
        serde_parse(text) == Ok::<JsonView, Seq<char>>(file_value(f)),
        spelled(text, file_value(f), 2),
    ensures
        file_in(text) == Some(f),
{
    lemma_file_keys();
    let v = file_value(f);
    let ms = members_of(text);
    assert(v.get("recordings"@) == Some(recordings_value(f.recordings)));
    assert(v->Obj_0.contains_key("recordings"@));
    assert(named(ms, "recordings"@) is Some);
    assert(!is_repeated(ms, "recordings"@));
    lemma_named(ms, "recordings"@, 0);
    let r = ms[next_named(ms, "recordings"@, 0)];
    assert(r.value() == recordings_value(f.recordings));
    assert(spelled(r.text, recordings_value(f.recordings), 1));
    lemma_recordings_read_back(f.recordings, r.text);
    lemma_named(ms, "capabilities"@, 0);
    assert(named(ms, "capabilities"@) is Some <==> v->Obj_0.contains_key("capabilities"@));
    assert(!is_repeated(ms, "capabilities"@));
    if let Some(c) = f.profile {
        law_profile_read_back(c);
        assert(v->Obj_0.contains_key("capabilities"@));
        assert(v->Obj_0["capabilities"@] == profile_value(c));
        let m = ms[next_named(ms, "capabilities"@, 0)];
        assert(m.value() == profile_value(c));
    } else {
        assert(!v->Obj_0.contains_key("capabilities"@));
    }
}

/// An object is nested one deeper than its members.
proof fn lemma_flat(v: JsonView, depth: nat)
    requires
        v is Obj,
        forall|k: Seq<char>| #[trigger]
            v->Obj_0.contains_key(k) ==> plain(v->Obj_0[k], depth),
    ensures
        plain(v, depth + 1),
{
}

proof fn lemma_event_plain(e: EventView)
    requires
        event_lasts(e),
    ensures
        plain(event_value(e), 123),
{
    match e {
        EventView::Started { actual_model, cache_hit } => {
            lemma_flat(cache_value(cache_hit), 121);
        },
        EventView::Finished { stop_reason, usage } => {
            lemma_flat(usage_value(usage), 121);
        },
        _ => {},
    }
    lemma_flat(event_value(e), 122);
}

proof fn lemma_recording_plain(r: RecordingView)
    requires
        forall|i: int| 0 <= i < r.events.len() ==> event_lasts(#[trigger] r.events[i]),
    ensures
        plain(recording_value(r), 125),
{
    let s = r.events.map_values(|e: EventView| event_value(e));
    assert forall|i: int| 0 <= i < s.len() implies plain(#[trigger] s[i], 123) by {
        lemma_event_plain(r.events[i]);
    }
    assert(plain(JsonView::Arr(s), 124));
    lemma_flat(recording_value(r), 124);
}

proof fn lemma_profile_plain(c: Capabilities)
    ensures
        plain(profile_value(c), 126),
{
    lemma_flat(modalities_value(c.modalities_in), 124);
    lemma_flat(modalities_value(c.modalities_out), 124);
    if let PromptCacheKind::ImplicitPrefix { min_tokens } = c.prompt_cache {
        let v = member("min_tokens"@, jint(min_tokens as int));
        lemma_flat(v, 123);
        lemma_flat(prompt_cache_value(c.prompt_cache), 124);
    }
    lemma_flat(profile_value(c), 125);
}

proof fn lemma_file_plain(f: FileView)
    requires
        file_lasts(f),
    ensures
        plain(file_value(f), MAX_DEPTH as nat),
{
    let m = f.recordings.map_values(|r: RecordingView| recording_value(r));
    assert forall|k: Seq<char>| #[trigger] m.contains_key(k) implies plain(m[k], 125) by {
        assert forall|i: int| 0 <= i < f.recordings[k].events.len() implies event_lasts(
            #[trigger] f.recordings[k].events[i],
        ) by {}
        lemma_recording_plain(f.recordings[k]);
    }
    lemma_flat(recordings_value(f.recordings), 125);
    if let Some(c) = f.profile {
        lemma_profile_plain(c);
    }
    lemma_flat(file_value(f), 126);
}

} // verus!
