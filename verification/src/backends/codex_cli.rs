//! The `codex` program as a provider: a subscription in place of an API key.

use crate::backends::cli::backend::AgentCliBackend;
use crate::backends::cli::dialects::codex::{CodexCliDialect, SandboxMode};
use crate::capabilities::{delegated, Capabilities};
use vstd::prelude::*;
use vstd::string::*;

verus! {

/// A provider that calls `codex`.
pub type CodexCliProvider = AgentCliBackend<CodexCliDialect>;

/// What the provider can do unless it is told otherwise.
pub fn default_capabilities() -> (r: Capabilities)
    ensures
        r == delegated(200_000, 64_000, true),
{
    Capabilities::delegated(200_000, 64_000, true)
}

/// Puts a provider together.
pub struct CodexCliProviderBuilder {
    pub id: String,
    pub executable: String,
    pub timeout_ms: u64,
    pub capabilities: Option<Capabilities>,
    pub sandbox: SandboxMode,
    pub skip_git_repo_check: bool,
}

impl CodexCliProviderBuilder {
    /// A provider that may write nothing.
    pub fn new(id: &str) -> (r: CodexCliProviderBuilder)
        ensures
            r.id@ == id@,
            r.executable@ == "codex"@,
            r.timeout_ms == 600_000,
            r.capabilities is None,
            r.sandbox == SandboxMode::ReadOnly,
            r.skip_git_repo_check,
    {
        CodexCliProviderBuilder {
            id: id.to_owned(),
            executable: "codex".to_owned(),
            timeout_ms: 600_000,
            capabilities: None,
            sandbox: SandboxMode::ReadOnly,
            skip_git_repo_check: true,
        }
    }

    /// Another name of the program.
    pub fn executable(self, executable: String) -> (r: CodexCliProviderBuilder)
        ensures
            r == (CodexCliProviderBuilder { executable, ..self }),
    {
        CodexCliProviderBuilder { executable, ..self }
    }

    /// How long a call may take.
    pub fn timeout(self, timeout_ms: u64) -> (r: CodexCliProviderBuilder)
        ensures
            r == (CodexCliProviderBuilder { timeout_ms, ..self }),
    {
        CodexCliProviderBuilder { timeout_ms, ..self }
    }

    /// How the program confines itself.
    pub fn sandbox(self, sandbox: SandboxMode) -> (r: CodexCliProviderBuilder)
        ensures
            r == (CodexCliProviderBuilder { sandbox, ..self }),
    {
        CodexCliProviderBuilder { sandbox, ..self }
    }

    /// Whether the program also runs outside of a repository.
    pub fn skip_git_repo_check(self, skip_git_repo_check: bool) -> (r: CodexCliProviderBuilder)
        ensures
            r == (CodexCliProviderBuilder { skip_git_repo_check, ..self }),
    {
        CodexCliProviderBuilder { skip_git_repo_check, ..self }
    }

    /// Other capabilities.
    pub fn capabilities(self, caps: Capabilities) -> (r: CodexCliProviderBuilder)
        ensures
            r == (CodexCliProviderBuilder { capabilities: Some(caps), ..self }),
    {
        CodexCliProviderBuilder { capabilities: Some(caps), ..self }
    }

    /// The provider.
    pub fn build(self) -> (r: CodexCliProvider)
        ensures
            r.id == self.id,
            r.capabilities == (match self.capabilities {
                Some(c) => c,
                None => delegated(200_000, 64_000, true),
            }),
            r.dialect == (CodexCliDialect {
                executable: self.executable,
                timeout_ms: self.timeout_ms,
                sandbox: self.sandbox,
                skip_git_repo_check: self.skip_git_repo_check,
            }),
    {
        let caps: Capabilities = match self.capabilities {
            Some(c) => c,
            None => default_capabilities(),
        };
        AgentCliBackend::new(
            self.id,
            caps,
            CodexCliDialect::new(
                self.executable,
                self.timeout_ms,
                self.sandbox,
                self.skip_git_repo_check,
            ),
        )
    }
}

/// A provider that calls `codex` as it is by default.
pub fn codex_cli(id: &str) -> (r: CodexCliProvider)
    ensures
        r.id@ == id@,
        r.capabilities == delegated(200_000, 64_000, true),
        r.dialect.executable@ == "codex"@,
        r.dialect.timeout_ms == 600_000,
{
    CodexCliProviderBuilder::new(id).build()
}

} // verus!
