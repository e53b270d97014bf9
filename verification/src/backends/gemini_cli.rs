//! The `gemini` program as a provider: a subscription in place of an API key.

use crate::backends::cli::backend::AgentCliBackend;
use crate::backends::cli::dialects::gemini::GeminiCliDialect;
use crate::capabilities::{delegated, Capabilities};
use vstd::prelude::*;
use vstd::string::*;

verus! {

/// A provider that calls `gemini`.
pub type GeminiCliProvider = AgentCliBackend<GeminiCliDialect>;

/// What the provider can do unless it is told otherwise.
pub fn default_capabilities() -> (r: Capabilities)
    ensures
        r == delegated(1_048_576, 8_192, false),
{
    Capabilities::delegated(1_048_576, 8_192, false)
}

/// Puts a provider together.
pub struct GeminiCliProviderBuilder {
    pub id: String,
    pub executable: String,
    pub timeout_ms: u64,
    pub capabilities: Option<Capabilities>,
}

impl GeminiCliProviderBuilder {
    /// A provider that calls `gemini`.
    pub fn new(id: &str) -> (r: GeminiCliProviderBuilder)
        ensures
            r.id@ == id@,
            r.executable@ == "gemini"@,
            r.timeout_ms == 300_000,
            r.capabilities is None,
    {
        GeminiCliProviderBuilder {
            id: id.to_owned(),
            executable: "gemini".to_owned(),
            timeout_ms: 300_000,
            capabilities: None,
        }
    }

    /// Another name of the program.
    pub fn executable(self, executable: String) -> (r: GeminiCliProviderBuilder)
        ensures
            r == (GeminiCliProviderBuilder { executable, ..self }),
    {
        GeminiCliProviderBuilder { executable, ..self }
    }

    /// How long a call may take.
    pub fn timeout(self, timeout_ms: u64) -> (r: GeminiCliProviderBuilder)
        ensures
            r == (GeminiCliProviderBuilder { timeout_ms, ..self }),
    {
        GeminiCliProviderBuilder { timeout_ms, ..self }
    }

    /// Other capabilities.
    pub fn capabilities(self, caps: Capabilities) -> (r: GeminiCliProviderBuilder)
        ensures
            r == (GeminiCliProviderBuilder { capabilities: Some(caps), ..self }),
    {
        GeminiCliProviderBuilder { capabilities: Some(caps), ..self }
    }

    /// The provider.
    pub fn build(self) -> (r: GeminiCliProvider)
        ensures
            r.id == self.id,
            r.capabilities == (match self.capabilities {
                Some(c) => c,
                None => delegated(1_048_576, 8_192, false),
            }),
            r.dialect == (GeminiCliDialect { executable: self.executable, timeout_ms: self.timeout_ms }),
    {
        let caps: Capabilities = match self.capabilities {
            Some(c) => c,
            None => default_capabilities(),
        };
        AgentCliBackend::new(
            self.id,
            caps,
            GeminiCliDialect::new(self.executable, self.timeout_ms),
        )
    }
}

/// A provider that calls `gemini` as it is by default.
pub fn gemini_cli(id: &str) -> (r: GeminiCliProvider)
    ensures
        r.id@ == id@,
        r.capabilities == delegated(1_048_576, 8_192, false),
        r.dialect.executable@ == "gemini"@,
        r.dialect.timeout_ms == 300_000,
{
    GeminiCliProviderBuilder::new(id).build()
}

} // verus!
