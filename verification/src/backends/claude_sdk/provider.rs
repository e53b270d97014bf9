//! How the provider is configured, what it asks the child process, and what the
//! answer means.

use crate::backends::claude_sdk::wire::{
    chat_line, chat_value, map_stop_reason, normalize_usage, sdk_prompt, sdk_usage,
    serialize_messages, stop_reason, usage_fits, DaemonChatReply, ReplyView,
};
use crate::backends::cli::paths::{below, join_path};
use crate::capabilities::{
    text_only, Capabilities, Modalities, PromptCacheKind, StructuredOutputMode,
};
use crate::json::{serde_print, Json, JsonView};
use crate::text::{chars_of, is_empty, opt_slice, opt_str, push_text, strs, text_of_range};
use crate::types::{
    emit, events, started_event, text_result, ChatEvent, ChatRequest, ErrorView, EventView,
    ProviderError,
};
use vstd::prelude::*;
use vstd::string::*;

verus! {

/// How long a call may take unless the provider is told otherwise.
pub const DEFAULT_TIMEOUT_MS: u64 = 900_000;

/// What the provider can do unless it is told otherwise.
pub open spec fn sdk_capabilities() -> Capabilities {
    Capabilities {
        max_context_tokens: 200_000,
        max_output_tokens: 8_192,
        supports_tool_use: false,
        supports_parallel_tool_calls: false,
        supports_structured_output: StructuredOutputMode::StrictSchema,
        supports_vision: false,
        supports_thinking: false,
        supports_cancel: true,
        prompt_cache: PromptCacheKind::Delegated,
        streaming: false,
        modalities_in: text_only(),
        modalities_out: text_only(),
    }
}

/// What the provider can do unless it is told otherwise.
pub fn default_capabilities() -> (r: Capabilities)
    ensures
        r == sdk_capabilities(),
{
    Capabilities {
        max_context_tokens: 200_000,
        max_output_tokens: 8_192,
        supports_tool_use: false,
        supports_parallel_tool_calls: false,
        supports_structured_output: StructuredOutputMode::StrictSchema,
        supports_vision: false,
        supports_thinking: false,
        supports_cancel: true,
        prompt_cache: PromptCacheKind::Delegated,
        streaming: false,
        modalities_in: Modalities::text_only(),
        modalities_out: Modalities::text_only(),
    }
}

/// Puts a provider together.
pub struct ClaudeSdkProviderBuilder {
    pub id: String,
    pub executable: String,
    pub script_path: Option<String>,
    pub default_model: Option<String>,
    pub timeout_ms: u64,
    pub capabilities: Option<Capabilities>,
}

/// A provider, as far as it is configured.
pub struct ClaudeSdkProvider {
    pub id: String,
    pub executable: String,
    pub script_path: Option<String>,
    pub default_model: Option<String>,
    pub timeout_ms: u64,
    pub capabilities: Capabilities,
}

impl ClaudeSdkProviderBuilder {
    /// A provider that runs its script with `node`.
    pub fn new(id: &str) -> (r: ClaudeSdkProviderBuilder)
        ensures
            r.id@ == id@,
            r.executable@ == "node"@,
            r.script_path is None,
            r.default_model is None,
            r.timeout_ms == DEFAULT_TIMEOUT_MS,
            r.capabilities is None,
    {
        ClaudeSdkProviderBuilder {
            id: id.to_owned(),
            executable: "node".to_owned(),
            script_path: None,
            default_model: None,
            timeout_ms: DEFAULT_TIMEOUT_MS,
            capabilities: None,
        }
    }

    /// Another program to run the script with.
    pub fn executable(self, executable: String) -> (r: ClaudeSdkProviderBuilder)
        ensures
            r == (ClaudeSdkProviderBuilder { executable, ..self }),
    {
        ClaudeSdkProviderBuilder { executable, ..self }
    }

    /// The script to run.
    pub fn script_path(self, path: String) -> (r: ClaudeSdkProviderBuilder)
        ensures
            r == (ClaudeSdkProviderBuilder { script_path: Some(path), ..self }),
    {
        ClaudeSdkProviderBuilder { script_path: Some(path), ..self }
    }

    /// The model for requests that name none.
    pub fn default_model(self, model: String) -> (r: ClaudeSdkProviderBuilder)
        ensures
            r == (ClaudeSdkProviderBuilder { default_model: Some(model), ..self }),
    {
        ClaudeSdkProviderBuilder { default_model: Some(model), ..self }
    }

    /// How long a call may take.
    pub fn timeout(self, timeout_ms: u64) -> (r: ClaudeSdkProviderBuilder)
        ensures
            r == (ClaudeSdkProviderBuilder { timeout_ms, ..self }),
    {
        ClaudeSdkProviderBuilder { timeout_ms, ..self }
    }

    /// Other capabilities.
    pub fn capabilities(self, caps: Capabilities) -> (r: ClaudeSdkProviderBuilder)
        ensures
            r == (ClaudeSdkProviderBuilder { capabilities: Some(caps), ..self }),
    {
        ClaudeSdkProviderBuilder { capabilities: Some(caps), ..self }
    }

    /// The provider.
    pub fn build(self) -> (r: ClaudeSdkProvider)
        ensures
            r == (ClaudeSdkProvider {
                id: self.id,
                executable: self.executable,
                script_path: self.script_path,
                default_model: self.default_model,
                timeout_ms: self.timeout_ms,
                capabilities: match self.capabilities {
                    Some(c) => c,
                    None => sdk_capabilities(),
                },
            }),
    {
        let caps: Capabilities = match self.capabilities {
            Some(c) => c,
            None => default_capabilities(),
        };
        ClaudeSdkProvider {
            id: self.id,
            executable: self.executable,
            script_path: self.script_path,
            default_model: self.default_model,
            timeout_ms: self.timeout_ms,
            capabilities: caps,
        }
    }
}

/// The model that a call asks for: the one in the request, or else the default.
pub open spec fn wanted_model(
    explicit: Option<Seq<char>>,
    default_model: Option<Seq<char>>,
) -> Option<Seq<char>> {
    match explicit {
        Some(m) => Some(m),
        None => default_model,
    }
}

/// The schema that the answer has to follow.
pub open spec fn wanted_schema(req: ChatRequest) -> Option<JsonView> {
    match req.structured_output {
        Some(s) => Some(s.schema@),
        None => None,
    }
}

/// The line that asks for an answer to a request, under this id.
pub open spec fn request_line(
    req: ChatRequest,
    default_model: Option<Seq<char>>,
    id: u64,
) -> Seq<char> {
    serde_print(
        chat_value(
            id,
            sdk_prompt(req),
            opt_str(req.system),
            wanted_model(req.model.explicit_view(), default_model),
            wanted_schema(req),
        ),
    ).push('\n')
}

/// The events of an answer.
pub open spec fn reply_events(
    reply: ReplyView,
    default_model: Option<Seq<char>>,
) -> Seq<EventView> {
    let model = match wanted_model(reply.model, default_model) {
        Some(m) => m,
        None => ""@,
    };
    seq![
        started_event(model),
        EventView::Delta { text: reply.text },
        EventView::Finished {
            stop_reason: stop_reason(reply.result_subtype),
            usage: sdk_usage(reply.usage),
        },
    ]
}

impl ClaudeSdkProvider {
    /// Whether something is said in a request.
    pub fn check(&self, req: &ChatRequest) -> (r: Result<(), ProviderError>)
        ensures
            match r {
                Ok(_) => sdk_prompt(*req).len() > 0,
                Err(e) => sdk_prompt(*req).len() == 0 && e@ == ErrorView::InvalidRequest(
                    "claude_sdk: request has no user-visible content"@,
                ),
            },
    {
        if is_empty(serialize_messages(req).as_str()) {
            Err(
                ProviderError::InvalidRequest(
                    "claude_sdk: request has no user-visible content".to_owned(),
                ),
            )
        } else {
            Ok(())
        }
    }

    /// The line that asks for an answer to a request, under this id.
    pub fn line(&self, req: &ChatRequest, id: u64) -> (r: String)
        ensures
            r@ == request_line(*req, opt_str(self.default_model), id),
    {
        let prompt: String = serialize_messages(req);
        let model: Option<&str> = match req.model.explicit() {
            Some(m) => Some(m),
            None => match &self.default_model {
                Some(m) => Some(m.as_str()),
                None => None,
            },
        };
        let system: Option<&str> = match &req.system {
            Some(s) => Some(s.as_str()),
            None => None,
        };
        let schema: Option<&Json> = match &req.structured_output {
            Some(s) => Some(&s.schema),
            None => None,
        };
        chat_line(id, prompt.as_str(), system, model, schema)
    }

    /// The events of an answer.
    pub fn respond(&self, reply: DaemonChatReply) -> (r: Vec<ChatEvent>)
        requires
            usage_fits(reply.usage),
        ensures
            events(r@) == reply_events(reply@, opt_str(self.default_model)),
    {
        let usage: crate::types::Usage = normalize_usage(&reply.usage);
        let subtype: Option<&str> = match &reply.result_subtype {
            Some(s) => Some(s.as_str()),
            None => None,
        };
        let stop: crate::types::StopReason = map_stop_reason(subtype);
        let model: String = match &reply.model {
            Some(m) => m.clone(),
            None => match &self.default_model {
                Some(m) => m.clone(),
                None => "".to_owned(),
            },
        };
        let mut out: Vec<ChatEvent> = Vec::new();
        assert(events(out@) =~= seq![]);
        emit(&mut out, ChatEvent::started(model.as_str()));
        emit(&mut out, ChatEvent::Delta { text: reply.text });
        emit(&mut out, ChatEvent::Finished { stop_reason: stop, usage });
        assert(events(out@) =~= reply_events(reply@, opt_str(self.default_model)));
        out
    }
}

/// Where a path ends without the slashes at its end.
pub open spec fn solid_end(s: Seq<char>, end: int) -> int
    decreases end,
{
    if end <= 0 || s[end - 1] != '/' {
        end
    } else {
        solid_end(s, end - 1)
    }
}

/// Where the last part of a path that ends at `end` begins.
pub open spec fn last_start(s: Seq<char>, end: int) -> int
    decreases end,
{
    if end <= 0 || s[end - 1] == '/' {
        end
    } else {
        last_start(s, end - 1)
    }
}

/// The ends of a path and of its last part lie where they should.
pub proof fn lemma_path_ends(s: Seq<char>, end: int)
    requires
        0 <= end <= s.len(),
    ensures
        0 <= solid_end(s, end) <= end,
        0 <= last_start(s, end) <= end,
        end > 0 && s[end - 1] != '/' ==> last_start(s, end) < end,
        solid_end(s, end) > 0 ==> s[solid_end(s, end) - 1] != '/',
    decreases end,
{
    if end > 0 {
        lemma_path_ends(s, end - 1);
    }
}

/// The directories above the path that ends at `end`, from it on to the root. A path
/// that does not begin at the root ends in the empty path.
pub open spec fn ancestors(s: Seq<char>, end: int) -> Seq<Seq<char>>
    decreases end,
    when 0 <= end <= s.len()
{
    proof {
        lemma_path_ends(s, end);
        lemma_path_ends(s, solid_end(s, end));
        lemma_path_ends(s, last_start(s, solid_end(s, end)));
    }
    let solid = solid_end(s, end);
    if solid == 0 {
        if s.len() > 0 && s[0] == '/' {
            seq!["/"@]
        } else {
            seq![""@]
        }
    } else {
        seq![s.take(solid)] + ancestors(s, solid_end(s, last_start(s, solid)))
    }
}

/// Where the script of a daemon lies below a working directory.
pub open spec fn script_in(daemon: Seq<char>, dir: Seq<char>) -> Seq<char> {
    below(dir, "tools/"@ + daemon + "/server.mjs"@)
}

/// Where to look for the script, in this order: where the environment says, in the
/// working directory and the directories above it, and in the home directory.
pub open spec fn script_candidates(
    named: Option<Seq<char>>,
    cwd: Option<Seq<char>>,
    home: Option<Seq<char>>,
    daemon: Seq<char>,
) -> Seq<Seq<char>> {
    (match named {
        Some(p) => seq![p],
        None => seq![],
    }) + (match cwd {
        Some(dir) => ancestors(dir, dir.len() as int).map_values(|d: Seq<char>| script_in(daemon, d)),
        None => seq![],
    }) + (match home {
        Some(h) => seq![below(h, ".tars/"@ + daemon + "/server.mjs"@)],
        None => seq![],
    })
}

/// Where the script of a daemon lies below a directory for tools.
fn script_below(dir: &str, daemon: &str) -> (r: String)
    ensures
        r@ == dir@ + daemon@ + "/server.mjs"@,
{
    let mut rel: String = dir.to_owned();
    rel.append(daemon);
    rel.append("/server.mjs");
    rel
}

/// Appends where the script may lie in the working directory and above it.
fn push_ancestors(out: &mut Vec<String>, cwd: &str, daemon: &str)
    ensures
        strs(final(out)@) == strs(old(out)@) + ancestors(cwd@, cwd@.len() as int).map_values(
            |d: Seq<char>| script_in(daemon@, d),
        ),
{
    let ghost before = strs(out@);
    let ghost place = |d: Seq<char>| script_in(daemon@, d);
    let rel: String = script_below("tools/", daemon);
    let ghost whole = ancestors(cwd@, cwd@.len() as int).map_values(place);
    let cs: Vec<char> = chars_of(cwd);
    let mut end: usize = cs.len();
    assert(before + whole =~= strs(out@) + ancestors(cs@, end as int).map_values(place));
    loop
        invariant_except_break
            end <= cs@.len(),
            place == (|d: Seq<char>| script_in(daemon@, d)),
            rel@ == "tools/"@ + daemon@ + "/server.mjs"@,
            before + whole == strs(out@) + ancestors(cs@, end as int).map_values(place),
        ensures
            before + whole == strs(out@),
        decreases end,
    {
        proof {
            lemma_path_ends(cs@, end as int);
        }
        let ghost rest = ancestors(cs@, end as int);
        let mut solid: usize = end;
        while solid > 0 && cs[solid - 1] == '/'
            invariant
                solid <= end <= cs@.len(),
                solid_end(cs@, solid as int) == solid_end(cs@, end as int),
            decreases solid,
        {
            solid -= 1;
        }
        if solid == 0 {
            let ghost so_far = strs(out@);
            if cs.len() > 0 && cs[0] == '/' {
                push_text(out, join_path("/", rel.as_str()));
                assert(rest.map_values(place) =~= seq![script_in(daemon@, "/"@)]);
            } else {
                push_text(out, join_path("", rel.as_str()));
                assert(rest.map_values(place) =~= seq![script_in(daemon@, ""@)]);
            }
            assert(strs(out@) =~= so_far + rest.map_values(place));
            break;
        }
        proof {
            lemma_path_ends(cs@, solid as int);
        }
        let ghost so_far = strs(out@);
        let dir: String = text_of_range(&cs, 0, solid);
        assert(cs@.subrange(0, solid as int) =~= cs@.take(solid as int));
        push_text(out, join_path(dir.as_str(), rel.as_str()));
        let mut start: usize = solid;
        while start > 0 && cs[start - 1] != '/'
            invariant
                start <= solid <= cs@.len(),
                last_start(cs@, start as int) == last_start(cs@, solid as int),
            decreases start,
        {
            start -= 1;
        }
        proof {
            lemma_path_ends(cs@, start as int);
        }
        let mut next: usize = start;
        while next > 0 && cs[next - 1] == '/'
            invariant
                next <= start <= cs@.len(),
                solid_end(cs@, next as int) == solid_end(cs@, start as int),
            decreases next,
        {
            next -= 1;
        }
        let ghost above = ancestors(cs@, next as int);
        assert(rest =~= seq![cs@.take(solid as int)] + above);
        assert(rest.map_values(place) =~= seq![script_in(daemon@, cs@.take(solid as int))]
            + above.map_values(place));
        assert(so_far + rest.map_values(place) =~= strs(out@) + above.map_values(place));
        end = next;
    }
}

/// Where to look for the script.
pub fn default_script_candidates(
    named: Option<String>,
    cwd: Option<&str>,
    home: Option<&str>,
    daemon: &str,
) -> (r: Vec<String>)
    ensures
        strs(r@) == script_candidates(opt_str(named), opt_slice(cwd), opt_slice(home), daemon@),
{
    let mut out: Vec<String> = Vec::new();
    assert(strs(out@) =~= seq![]);
    if let Some(p) = named {
        push_text(&mut out, p);
        assert(strs(out@) =~= seq![p@]);
    }
    let ghost first = strs(out@);
    if let Some(dir) = cwd {
        push_ancestors(&mut out, dir, daemon);
    }
    let ghost second = strs(out@);
    if let Some(h) = home {
        let rel: String = script_below(".tars/", daemon);
        push_text(&mut out, join_path(h, rel.as_str()));
        assert(strs(out@) =~= second + seq![below(h@, rel@)]);
    }
    assert(strs(out@) =~= script_candidates(
        opt_str(named),
        opt_slice(cwd),
        opt_slice(home),
        daemon@,
    ));
    out
}

/// The error where no script is found.
pub open spec fn no_script(daemon: Seq<char>) -> ErrorView {
    ErrorView::Internal(
        "claude_sdk: no `script_path` configured and none of the default locations exist (checked $TARS_CLAUDE_SDK_SCRIPT, `tools/"@
            + daemon + "/server.mjs` walking up from CWD, and `~/.tars/"@ + daemon
            + "/server.mjs`)"@,
    )
}

/// The script to run: the one that is configured, or else the first that was found.
pub fn choose_script(configured: &Option<String>, found: Option<String>, daemon: &str) -> (r: Result<
    String,
    ProviderError,
>)
    ensures
        text_result(r) == (match opt_str(*configured) {
            Some(p) => Ok::<Seq<char>, ErrorView>(p),
            None => match opt_str(found) {
                Some(p) => Ok(p),
                None => Err(no_script(daemon@)),
            },
        }),
{
    match configured {
        Some(p) => Ok(p.clone()),
        None => match found {
            Some(p) => Ok(p),
            None => {
                let mut msg: String =
                    "claude_sdk: no `script_path` configured and none of the default locations exist (checked $TARS_CLAUDE_SDK_SCRIPT, `tools/".to_owned();
                msg.append(daemon);
                msg.append("/server.mjs` walking up from CWD, and `~/.tars/");
                msg.append(daemon);
                msg.append("/server.mjs`)");
                Err(ProviderError::Internal(msg))
            },
        },
    }
}

} // verus!
