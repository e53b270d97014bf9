//! The provider for Gemini's API: how it is configured.

use crate::auth::Auth;
use crate::backends::gemini::adapter::GeminiAdapter;
use crate::capabilities::{hosted, Capabilities, PromptCacheKind, StructuredOutputMode};
use crate::http_base::HttpProviderExtras;
use vstd::prelude::*;
use vstd::string::*;

verus! {

/// The server of the vendor.
pub const DEFAULT_BASE_URL: &'static str = "https://generativelanguage.googleapis.com";

/// What the provider can do unless it is told otherwise.
pub open spec fn gemini_capabilities() -> Capabilities {
    hosted(1_048_576, StructuredOutputMode::StrictSchema, PromptCacheKind::ExplicitObject)
}

/// What the provider can do unless it is told otherwise.
pub fn default_capabilities() -> (r: Capabilities)
    ensures
        r == gemini_capabilities(),
{
    Capabilities::hosted(1_048_576, StructuredOutputMode::StrictSchema, PromptCacheKind::ExplicitObject)
}

/// Puts a provider together.
pub struct GeminiProviderBuilder {
    pub id: String,
    pub base_url: String,
    pub auth: Auth,
    pub capabilities: Option<Capabilities>,
    pub extras: HttpProviderExtras,
}

/// A provider, as far as it is configured.
pub struct GeminiProvider {
    pub id: String,
    pub auth: Auth,
    pub adapter: GeminiAdapter,
    pub capabilities: Capabilities,
}

impl GeminiProviderBuilder {
    /// A provider at the vendor's server.
    pub fn new(id: &str, auth: Auth) -> (r: GeminiProviderBuilder)
        ensures
            r.id@ == id@,
            r.base_url@ == DEFAULT_BASE_URL@,
            r.auth == auth,
            r.capabilities is None,
            r.extras.headers@.len() == 0,
    {
        GeminiProviderBuilder {
            id: id.to_owned(),
            base_url: DEFAULT_BASE_URL.to_owned(),
            auth,
            capabilities: None,
            extras: HttpProviderExtras::default(),
        }
    }

    /// Another server.
    pub fn base_url(self, url: String) -> (r: GeminiProviderBuilder)
        ensures
            r == (GeminiProviderBuilder { base_url: url, ..self }),
    {
        GeminiProviderBuilder { base_url: url, ..self }
    }

    /// Other capabilities.
    pub fn capabilities(self, caps: Capabilities) -> (r: GeminiProviderBuilder)
        ensures
            r == (GeminiProviderBuilder { capabilities: Some(caps), ..self }),
    {
        GeminiProviderBuilder { capabilities: Some(caps), ..self }
    }

    /// Headers to send with each request.
    pub fn extras(self, extras: HttpProviderExtras) -> (r: GeminiProviderBuilder)
        ensures
            r == (GeminiProviderBuilder { extras, ..self }),
    {
        GeminiProviderBuilder { extras, ..self }
    }

    /// The provider.
    pub fn build(self) -> (r: GeminiProvider)
        ensures
            r.id == self.id,
            r.auth == self.auth,
            r.adapter == (GeminiAdapter {
                base_url: self.base_url,
                extras: self.extras,
            }),
            r.capabilities == (match self.capabilities {
                Some(c) => c,
                None => gemini_capabilities(),
            }),
    {
        let caps: Capabilities = match self.capabilities {
            Some(c) => c,
            None => default_capabilities(),
        };
        GeminiProvider {
            id: self.id,
            auth: self.auth,
            adapter: GeminiAdapter {
                base_url: self.base_url,
                extras: self.extras,
            },
            capabilities: caps,
        }
    }
}

} // verus!
