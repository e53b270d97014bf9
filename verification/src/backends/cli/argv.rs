//! How a command-line program is called: with what arguments and in which
//! surroundings.

use crate::backends::cli::sandbox::{PolicyView, SandboxPolicy};
use crate::text::{
    append_texts, chars_of, copy_texts, join, joined, lowered, opt_slice, opt_str, push_text, same,
    strs, to_ascii_lower, trim, trimmed,
};
use vstd::prelude::*;
use vstd::string::*;

verus! {

/// The environment variables that must not reach Anthropic's program, in upper case: with any
/// of them the call would be billed to another account.
pub open spec fn claude_stripped() -> Seq<Seq<char>> {
    seq![
        "ANTHROPIC_API_KEY"@,
        "CLAUDE_CODE_USE_BEDROCK"@,
        "CLAUDE_CODE_USE_VERTEX"@,
        "CLAUDE_CODE_USE_FOUNDRY"@,
    ]
}

/// The environment variables that must not reach Anthropic's program, in upper case.
pub fn claude_stripped_env() -> (r: Vec<String>)
    ensures
        strs(r@) == claude_stripped(),
{
    let mut out: Vec<String> = Vec::new();
    push_text(&mut out, "ANTHROPIC_API_KEY".to_owned());
    push_text(&mut out, "CLAUDE_CODE_USE_BEDROCK".to_owned());
    push_text(&mut out, "CLAUDE_CODE_USE_VERTEX".to_owned());
    push_text(&mut out, "CLAUDE_CODE_USE_FOUNDRY".to_owned());
    assert(strs(out@) =~= claude_stripped());
    out
}

/// The tools that Anthropic's program may use.
#[derive(Debug, PartialEq)]
pub enum ClaudeCliTools {
    /// None, so that it only answers.
    Disabled,
    /// Those that it has by itself.
    Default,
    /// These.
    Allow(Vec<String>),
}

/// What a choice of tools says.
pub enum ToolsView {
    Disabled,
    Default,
    Allow(Seq<Seq<char>>),
}

impl View for ClaudeCliTools {
    type V = ToolsView;

    open spec fn view(&self) -> ToolsView {
        match self {
            ClaudeCliTools::Disabled => ToolsView::Disabled,
            ClaudeCliTools::Default => ToolsView::Default,
            ClaudeCliTools::Allow(v) => ToolsView::Allow(strs(v@)),
        }
    }
}

impl Clone for ClaudeCliTools {
    fn clone(&self) -> (r: ClaudeCliTools)
        ensures
            r@ == self@,
    {
        match self {
            ClaudeCliTools::Disabled => ClaudeCliTools::Disabled,
            ClaudeCliTools::Default => ClaudeCliTools::Default,
            ClaudeCliTools::Allow(v) => ClaudeCliTools::Allow(copy_texts(v)),
        }
    }
}

impl Default for ClaudeCliTools {
    fn default() -> (r: ClaudeCliTools)
        ensures
            r@ == ToolsView::Disabled,
    {
        ClaudeCliTools::Disabled
    }
}

/// How much effort Anthropic's program is to spend.
#[derive(Debug, Clone, Copy, PartialEq, Eq, Structural)]
pub enum ClaudeCliEffort {
    Low,
    Medium,
    High,
    Xhigh,
    Max,
}

impl ClaudeCliEffort {
    /// The name of the effort on the command line.
    pub open spec fn arg(self) -> Seq<char> {
        match self {
            ClaudeCliEffort::Low => "low"@,
            ClaudeCliEffort::Medium => "medium"@,
            ClaudeCliEffort::High => "high"@,
            ClaudeCliEffort::Xhigh => "xhigh"@,
            ClaudeCliEffort::Max => "max"@,
        }
    }

    /// The name of the effort on the command line.
    pub fn as_arg(self) -> (r: &'static str)
        ensures
            r@ == self.arg(),
    {
        match self {
            ClaudeCliEffort::Low => "low",
            ClaudeCliEffort::Medium => "medium",
            ClaudeCliEffort::High => "high",
            ClaudeCliEffort::Xhigh => "xhigh",
            ClaudeCliEffort::Max => "max",
        }
    }
}

/// One call of a command-line program. The tools and what follows them matter to
/// Anthropic's program alone.
#[derive(Debug)]
pub struct SubprocessInvocation {
    pub executable: String,
    pub model: String,
    pub system: Option<String>,
    pub prompt: String,
    pub timeout_ms: u64,
    /// Environment variables to keep from the program, in upper case.
    pub stripped_env: Vec<String>,
    pub cwd: Option<String>,
    pub sandbox: SandboxPolicy,
    pub tools: ClaudeCliTools,
    pub bare: bool,
    pub effort: Option<ClaudeCliEffort>,
    pub exclude_dynamic_sections: bool,
    pub extra_args: Vec<String>,
}

/// What a call says.
pub struct InvocationView {
    pub executable: Seq<char>,
    pub model: Seq<char>,
    pub system: Option<Seq<char>>,
    pub prompt: Seq<char>,
    pub timeout_ms: u64,
    pub stripped_env: Seq<Seq<char>>,
    pub cwd: Option<Seq<char>>,
    pub sandbox: PolicyView,
    pub tools: ToolsView,
    pub bare: bool,
    pub effort: Option<ClaudeCliEffort>,
    pub exclude_dynamic_sections: bool,
    pub extra_args: Seq<Seq<char>>,
}

impl View for SubprocessInvocation {
    type V = InvocationView;

    open spec fn view(&self) -> InvocationView {
        InvocationView {
            executable: self.executable@,
            model: self.model@,
            system: opt_str(self.system),
            prompt: self.prompt@,
            timeout_ms: self.timeout_ms,
            stripped_env: strs(self.stripped_env@),
            cwd: opt_str(self.cwd),
            sandbox: self.sandbox@,
            tools: self.tools@,
            bare: self.bare,
            effort: self.effort,
            exclude_dynamic_sections: self.exclude_dynamic_sections,
            extra_args: strs(self.extra_args@),
        }
    }
}

impl InvocationView {
    /// A call that leaves what matters to Anthropic's program alone as it is by default.
    pub open spec fn neutral(
        executable: Seq<char>,
        model: Seq<char>,
        prompt: Seq<char>,
        timeout_ms: u64,
        stripped_env: Seq<Seq<char>>,
        cwd: Option<Seq<char>>,
        sandbox: PolicyView,
    ) -> InvocationView {
        InvocationView {
            executable,
            model,
            system: None,
            prompt,
            timeout_ms,
            stripped_env,
            cwd,
            sandbox,
            tools: ToolsView::Disabled,
            bare: false,
            effort: None,
            exclude_dynamic_sections: false,
            extra_args: seq![],
        }
    }
}

impl SubprocessInvocation {
    /// A call of a program other than Anthropic's program.
    pub fn neutral(
        executable: String,
        model: String,
        prompt: String,
        timeout_ms: u64,
        stripped_env: Vec<String>,
        cwd: Option<String>,
        sandbox: SandboxPolicy,
    ) -> (r: SubprocessInvocation)
        ensures
            r@ == InvocationView::neutral(
                executable@,
                model@,
                prompt@,
                timeout_ms,
                strs(stripped_env@),
                opt_str(cwd),
                sandbox@,
            ),
    {
        let r: SubprocessInvocation = SubprocessInvocation {
            executable,
            model,
            system: None,
            prompt,
            timeout_ms,
            stripped_env,
            cwd,
            sandbox,
            tools: ClaudeCliTools::Disabled,
            bare: false,
            effort: None,
            exclude_dynamic_sections: false,
            extra_args: Vec::new(),
        };
        assert(r@.extra_args =~= seq![]);
        r
    }
}

/// What a call is made for: where it runs, how it is confined, and how much time the
/// caller has left for it.
#[derive(Debug)]
pub struct CallContext {
    pub cwd: Option<String>,
    pub sandbox: SandboxPolicy,
    pub budget_ms: Option<u64>,
}

/// What such a context says.
pub struct ContextView {
    pub cwd: Option<Seq<char>>,
    pub sandbox: PolicyView,
    pub budget_ms: Option<u64>,
}

impl View for CallContext {
    type V = ContextView;

    open spec fn view(&self) -> ContextView {
        ContextView {
            cwd: opt_str(self.cwd),
            sandbox: self.sandbox@,
            budget_ms: self.budget_ms,
        }
    }
}

impl ContextView {
    /// The time for a call that may take so long by itself.
    pub open spec fn call_budget(self, timeout_ms: u64) -> u64 {
        match self.budget_ms {
            Some(b) if b < timeout_ms => b,
            _ => timeout_ms,
        }
    }
}

impl CallContext {
    /// The time for a call that may take so long by itself.
    pub fn call_budget(&self, timeout_ms: u64) -> (r: u64)
        ensures
            r == self@.call_budget(timeout_ms),
    {
        match self.budget_ms {
            Some(b) if b < timeout_ms => b,
            _ => timeout_ms,
        }
    }
}

impl Default for CallContext {
    /// A call without a directory, a confinement or a deadline of its own.
    fn default() -> (r: CallContext)
        ensures
            r.cwd is None,
            r.budget_ms is None,
            r@.sandbox == (PolicyView {
                mode: crate::backends::cli::sandbox::PolicyMode::DangerFullAccess,
                writable_roots: seq![],
                network: true,
            }),
    {
        CallContext { cwd: None, sandbox: SandboxPolicy::default(), budget_ms: None }
    }
}

/// Whether a setting turns streaming on.
pub open spec fn turns_on(setting: Option<Seq<char>>) -> bool {
    match setting {
        Some(s) => {
            let v = lowered(trimmed(s));
            v != ""@ && v != "0"@ && v != "false"@ && v != "off"@ && v != "no"@
        },
        None => false,
    }
}

/// Whether the setting in the environment turns streaming on.
pub fn streaming_enabled(setting: Option<&str>) -> (r: bool)
    ensures
        r == turns_on(opt_slice(setting)),
{
    match setting {
        Some(s) => {
            let v: String = to_ascii_lower(trim(s).as_str());
            let v: &str = v.as_str();
            !same(v, "") && !same(v, "0") && !same(v, "false") && !same(v, "off") && !same(v, "no")
        },
        None => false,
    }
}

/// The names that hold no comma: with one, a name would be read as two.
pub open spec fn without_commas(names: Seq<Seq<char>>) -> Seq<Seq<char>> {
    names.filter(|n: Seq<char>| !n.contains(','))
}

/// The arguments that choose the tools.
pub open spec fn tools_args(tools: ToolsView) -> Seq<Seq<char>> {
    match tools {
        ToolsView::Disabled => seq!["--tools"@, ""@],
        ToolsView::Default => seq![],
        ToolsView::Allow(names) => seq!["--tools"@, joined(without_commas(names), ","@)],
    }
}

/// The arguments that every call of Anthropic's program begins with.
pub open spec fn opening_args(model: Seq<char>, streaming: bool) -> Seq<Seq<char>> {
    let format = if streaming {
        "stream-json"@
    } else {
        "json"@
    };
    let first = seq![
        "-p"@,
        "-"@,
        "--model"@,
        model,
        "--output-format"@,
        format,
        "--disable-slash-commands"@,
    ];
    if streaming {
        first + seq!["--include-partial-messages"@, "--verbose"@]
    } else {
        first
    }
}

/// A flag, where it is set.
pub open spec fn flag(name: Seq<char>, on: bool) -> Seq<Seq<char>> {
    if on {
        seq![name]
    } else {
        seq![]
    }
}

/// A flag with its value, where there is one.
pub open spec fn valued(name: Seq<char>, value: Option<Seq<char>>) -> Seq<Seq<char>> {
    match value {
        Some(v) => seq![name, v],
        None => seq![],
    }
}

/// The name of an effort, where one is chosen.
pub open spec fn effort_arg(e: Option<ClaudeCliEffort>) -> Option<Seq<char>> {
    match e {
        Some(x) => Some(x.arg()),
        None => None,
    }
}

/// The arguments of Anthropic's program.
pub open spec fn claude_argv(inv: InvocationView, streaming: bool) -> Seq<Seq<char>> {
    opening_args(inv.model, streaming) + tools_args(inv.tools) + flag("--bare"@, inv.bare) + valued(
        "--effort"@,
        effort_arg(inv.effort),
    ) + flag(
        "--exclude-dynamic-system-prompt-sections"@,
        inv.exclude_dynamic_sections,
    ) + valued("--system-prompt"@, inv.system) + inv.extra_args
}

/// Whether a name holds a comma.
fn has_comma(s: &str) -> (r: bool)
    ensures
        r == s@.contains(','),
{
    let cs: Vec<char> = chars_of(s);
    let mut i: usize = 0;
    while i < cs.len()
        invariant
            i <= cs@.len(),
            cs@ == s@,
            forall|j: int| 0 <= j < i ==> s@[j] != ',',
        decreases cs@.len() - i,
    {
        if cs[i] == ',' {
            assert(s@[i as int] == ',');
            return true;
        }
        i += 1;
    }
    false
}

/// Keeps the names that hold no comma.
fn keep_plain(names: &Vec<String>) -> (r: Vec<String>)
    ensures
        strs(r@) == without_commas(strs(names@)),
{
    let ghost plain = |n: Seq<char>| !n.contains(',');
    let ghost whole = strs(names@);
    let mut out: Vec<String> = Vec::new();
    let mut i: usize = 0;
    proof {
        reveal(Seq::filter);
        assert(strs(out@) =~= whole.take(0).filter(plain));
    }
    while i < names.len()
        invariant
            i <= names@.len(),
            whole == strs(names@),
            plain == (|n: Seq<char>| !n.contains(',')),
            strs(out@) == whole.take(i as int).filter(plain),
        decreases names@.len() - i,
    {
        proof {
            reveal(Seq::filter);
            assert(whole.take(i + 1).drop_last() =~= whole.take(i as int));
            assert(whole.take(i + 1).last() == names@[i as int]@);
        }
        if !has_comma(names[i].as_str()) {
            push_text(&mut out, names[i].clone());
        }
        i += 1;
    }
    assert(whole.take(names@.len() as int) =~= whole);
    out
}

/// Appends the arguments that choose the tools.
fn push_tools(argv: &mut Vec<String>, tools: &ClaudeCliTools)
    ensures
        strs(final(argv)@) == strs(old(argv)@) + tools_args(tools@),
{
    let ghost before = strs(argv@);
    match tools {
        ClaudeCliTools::Disabled => {
            push_text(argv, "--tools".to_owned());
            push_text(argv, "".to_owned());
        },
        ClaudeCliTools::Default => {},
        ClaudeCliTools::Allow(names) => {
            push_text(argv, "--tools".to_owned());
            push_text(argv, join(&keep_plain(names), ","));
        },
    }
    assert(strs(argv@) =~= before + tools_args(tools@));
}

/// The arguments that every call of Anthropic's program begins with.
fn opening(model: &str, streaming: bool) -> (r: Vec<String>)
    ensures
        strs(r@) == opening_args(model@, streaming),
{
    let mut argv: Vec<String> = Vec::new();
    push_text(&mut argv, "-p".to_owned());
    push_text(&mut argv, "-".to_owned());
    push_text(&mut argv, "--model".to_owned());
    push_text(&mut argv, model.to_owned());
    push_text(&mut argv, "--output-format".to_owned());
    if streaming {
        push_text(&mut argv, "stream-json".to_owned());
    } else {
        push_text(&mut argv, "json".to_owned());
    }
    push_text(&mut argv, "--disable-slash-commands".to_owned());
    if streaming {
        push_text(&mut argv, "--include-partial-messages".to_owned());
        push_text(&mut argv, "--verbose".to_owned());
    }
    assert(strs(argv@) =~= opening_args(model@, streaming));
    argv
}

/// Appends a flag, where it is set.
fn push_flag(argv: &mut Vec<String>, name: &str, on: bool)
    ensures
        strs(final(argv)@) == strs(old(argv)@) + flag(name@, on),
{
    if on {
        push_text(argv, name.to_owned());
    }
    assert(strs(argv@) =~= strs(old(argv)@) + flag(name@, on));
}

/// Appends a flag with its value, where there is one.
fn push_valued(argv: &mut Vec<String>, name: &str, value: Option<&str>)
    ensures
        strs(final(argv)@) == strs(old(argv)@) + valued(name@, opt_slice(value)),
{
    if let Some(v) = value {
        push_text(argv, name.to_owned());
        push_text(argv, v.to_owned());
    }
    assert(strs(argv@) =~= strs(old(argv)@) + valued(name@, opt_slice(value)));
}

/// The arguments of Anthropic's program, without the program itself.
pub fn build_argv_with(inv: &SubprocessInvocation, streaming: bool) -> (r: Vec<String>)
    ensures
        strs(r@) == claude_argv(inv@, streaming),
{
    let mut argv: Vec<String> = opening(inv.model.as_str(), streaming);
    push_tools(&mut argv, &inv.tools);
    push_flag(&mut argv, "--bare", inv.bare);
    let effort: Option<&str> = match inv.effort {
        Some(e) => Some(e.as_arg()),
        None => None,
    };
    push_valued(&mut argv, "--effort", effort);
    push_flag(
        &mut argv,
        "--exclude-dynamic-system-prompt-sections",
        inv.exclude_dynamic_sections,
    );
    let system: Option<&str> = match &inv.system {
        Some(s) => Some(s.as_str()),
        None => None,
    };
    push_valued(&mut argv, "--system-prompt", system);
    append_texts(&mut argv, &inv.extra_args);
    argv
}

/// The arguments of Anthropic's program, where the environment says whether it streams.
pub fn build_argv(inv: &SubprocessInvocation, setting: Option<&str>) -> (r: Vec<String>)
    ensures
        strs(r@) == claude_argv(inv@, turns_on(opt_slice(setting))),
{
    build_argv_with(inv, streaming_enabled(setting))
}

} // verus!
