//! Anthropic's command-line program as a provider: a subscription in place of an API
//! key. The name of the program is given by the caller.

use crate::backends::cli::argv::{ClaudeCliEffort, ClaudeCliTools, ToolsView};
use crate::backends::cli::backend::AgentCliBackend;
use crate::backends::cli::dialects::claude::ClaudeCliDialect;
use crate::capabilities::{delegated, Capabilities};
use vstd::prelude::*;
use vstd::string::*;

verus! {

/// A provider that calls Anthropic's program.
pub type ClaudeCliProvider = AgentCliBackend<ClaudeCliDialect>;

/// What the provider can do unless it is told otherwise.
pub fn default_capabilities() -> (r: Capabilities)
    ensures
        r == delegated(200_000, 64_000, false),
{
    Capabilities::delegated(200_000, 64_000, false)
}

/// Puts a provider together.
pub struct ClaudeCliProviderBuilder {
    pub id: String,
    pub executable: String,
    pub timeout_ms: u64,
    pub capabilities: Option<Capabilities>,
    pub tools: ClaudeCliTools,
    pub bare: bool,
    pub effort: Option<ClaudeCliEffort>,
    pub exclude_dynamic_sections: bool,
    pub extra_args: Vec<String>,
}

impl ClaudeCliProviderBuilder {
    /// A provider that only answers: the program of this name has no tools.
    pub fn new(id: &str, program: &str) -> (r: ClaudeCliProviderBuilder)
        ensures
            r.id@ == id@,
            r.executable@ == program@,
            r.timeout_ms == 300_000,
            r.capabilities is None,
            r.tools@ == ToolsView::Disabled,
            !r.bare,
            r.effort is None,
            r.exclude_dynamic_sections,
            r.extra_args@.len() == 0,
    {
        ClaudeCliProviderBuilder {
            id: id.to_owned(),
            executable: program.to_owned(),
            timeout_ms: 300_000,
            capabilities: None,
            tools: ClaudeCliTools::Disabled,
            bare: false,
            effort: None,
            exclude_dynamic_sections: true,
            extra_args: Vec::new(),
        }
    }

    /// Another name of the program.
    pub fn executable(self, executable: String) -> (r: ClaudeCliProviderBuilder)
        ensures
            r == (ClaudeCliProviderBuilder { executable, ..self }),
    {
        ClaudeCliProviderBuilder { executable, ..self }
    }

    /// How long a call may take.
    pub fn timeout(self, timeout_ms: u64) -> (r: ClaudeCliProviderBuilder)
        ensures
            r == (ClaudeCliProviderBuilder { timeout_ms, ..self }),
    {
        ClaudeCliProviderBuilder { timeout_ms, ..self }
    }

    /// The tools that the program may use.
    pub fn tools(self, tools: ClaudeCliTools) -> (r: ClaudeCliProviderBuilder)
        ensures
            r == (ClaudeCliProviderBuilder { tools, ..self }),
    {
        ClaudeCliProviderBuilder { tools, ..self }
    }

    /// Whether the program leaves out what it finds in its surroundings.
    pub fn bare(self, bare: bool) -> (r: ClaudeCliProviderBuilder)
        ensures
            r == (ClaudeCliProviderBuilder { bare, ..self }),
    {
        ClaudeCliProviderBuilder { bare, ..self }
    }

    /// How much effort the program is to spend.
    pub fn effort(self, effort: Option<ClaudeCliEffort>) -> (r: ClaudeCliProviderBuilder)
        ensures
            r == (ClaudeCliProviderBuilder { effort, ..self }),
    {
        ClaudeCliProviderBuilder { effort, ..self }
    }

    /// Whether the program leaves what differs between machines out of its prompt.
    pub fn exclude_dynamic_sections(self, exclude_dynamic_sections: bool) -> (r: ClaudeCliProviderBuilder)
        ensures
            r == (ClaudeCliProviderBuilder { exclude_dynamic_sections, ..self }),
    {
        ClaudeCliProviderBuilder { exclude_dynamic_sections, ..self }
    }

    /// Further arguments.
    pub fn extra_args(self, extra_args: Vec<String>) -> (r: ClaudeCliProviderBuilder)
        ensures
            r == (ClaudeCliProviderBuilder { extra_args, ..self }),
    {
        ClaudeCliProviderBuilder { extra_args, ..self }
    }

    /// Other capabilities.
    pub fn capabilities(self, caps: Capabilities) -> (r: ClaudeCliProviderBuilder)
        ensures
            r == (ClaudeCliProviderBuilder { capabilities: Some(caps), ..self }),
    {
        ClaudeCliProviderBuilder { capabilities: Some(caps), ..self }
    }

    /// The provider.
    pub fn build(self) -> (r: ClaudeCliProvider)
        ensures
            r.id == self.id,
            r.capabilities == (match self.capabilities {
                Some(c) => c,
                None => delegated(200_000, 64_000, false),
            }),
            r.dialect == (ClaudeCliDialect {
                executable: self.executable,
                timeout_ms: self.timeout_ms,
                tools: self.tools,
                bare: self.bare,
                effort: self.effort,
                exclude_dynamic_sections: self.exclude_dynamic_sections,
                extra_args: self.extra_args,
                streaming: false,
            }),
    {
        let caps: Capabilities = match self.capabilities {
            Some(c) => c,
            None => default_capabilities(),
        };
        AgentCliBackend::new(
            self.id,
            caps,
            ClaudeCliDialect::new(
                self.executable,
                self.timeout_ms,
                self.tools,
                self.bare,
                self.effort,
                self.exclude_dynamic_sections,
                self.extra_args,
            ),
        )
    }
}

/// A provider that calls the program as it is by default.
pub fn claude_cli(id: &str, program: &str) -> (r: ClaudeCliProvider)
    ensures
        r.id@ == id@,
        r.capabilities == delegated(200_000, 64_000, false),
        r.dialect.executable@ == program@,
        r.dialect.timeout_ms == 300_000,
        r.dialect.tools@ == ToolsView::Disabled,
        !r.dialect.bare,
        r.dialect.effort is None,
        r.dialect.exclude_dynamic_sections,
        r.dialect.extra_args@.len() == 0,
        !r.dialect.streaming,
{
    ClaudeCliProviderBuilder::new(id, program).build()
}

} // verus!
