//! The provider for Anthropic's API: how it is configured.

use crate::auth::Auth;
use crate::backends::anthropic::adapter::AnthropicAdapter;
use crate::capabilities::{hosted, Capabilities, PromptCacheKind, StructuredOutputMode};
use crate::http_base::HttpProviderExtras;
use vstd::prelude::*;
use vstd::string::*;

verus! {

/// The server of the vendor.
pub const DEFAULT_BASE_URL: &'static str = "https://api.anthropic.com";

/// The version of the API.
pub const DEFAULT_API_VERSION: &'static str = "2023-06-01";

/// What the provider can do unless it is told otherwise.
pub open spec fn anthropic_capabilities() -> Capabilities {
    hosted(200_000, StructuredOutputMode::ToolUseEmulation, PromptCacheKind::ExplicitMarker)
}

/// What the provider can do unless it is told otherwise.
pub fn default_capabilities() -> (r: Capabilities)
    ensures
        r == anthropic_capabilities(),
{
    Capabilities::hosted(200_000, StructuredOutputMode::ToolUseEmulation, PromptCacheKind::ExplicitMarker)
}

/// Puts a provider together.
pub struct AnthropicProviderBuilder {
    pub id: String,
    pub base_url: String,
    pub api_version: String,
    pub auth: Auth,
    pub capabilities: Option<Capabilities>,
    pub extras: HttpProviderExtras,
}

/// A provider, as far as it is configured.
pub struct AnthropicProvider {
    pub id: String,
    pub auth: Auth,
    pub adapter: AnthropicAdapter,
    pub capabilities: Capabilities,
}

impl AnthropicProviderBuilder {
    /// A provider at the vendor's server.
    pub fn new(id: &str, auth: Auth) -> (r: AnthropicProviderBuilder)
        ensures
            r.id@ == id@,
            r.base_url@ == DEFAULT_BASE_URL@,
            r.api_version@ == DEFAULT_API_VERSION@,
            r.auth == auth,
            r.capabilities is None,
            r.extras.headers@.len() == 0,
    {
        AnthropicProviderBuilder {
            id: id.to_owned(),
            base_url: DEFAULT_BASE_URL.to_owned(),
            api_version: DEFAULT_API_VERSION.to_owned(),
            auth,
            capabilities: None,
            extras: HttpProviderExtras::default(),
        }
    }

    /// Another server.
    pub fn base_url(self, url: String) -> (r: AnthropicProviderBuilder)
        ensures
            r == (AnthropicProviderBuilder { base_url: url, ..self }),
    {
        AnthropicProviderBuilder { base_url: url, ..self }
    }

    /// Another version of the API.
    pub fn api_version(self, version: String) -> (r: AnthropicProviderBuilder)
        ensures
            r == (AnthropicProviderBuilder { api_version: version, ..self }),
    {
        AnthropicProviderBuilder { api_version: version, ..self }
    }

    /// Other capabilities.
    pub fn capabilities(self, caps: Capabilities) -> (r: AnthropicProviderBuilder)
        ensures
            r == (AnthropicProviderBuilder { capabilities: Some(caps), ..self }),
    {
        AnthropicProviderBuilder { capabilities: Some(caps), ..self }
    }

    /// Headers to send with each request.
    pub fn extras(self, extras: HttpProviderExtras) -> (r: AnthropicProviderBuilder)
        ensures
            r == (AnthropicProviderBuilder { extras, ..self }),
    {
        AnthropicProviderBuilder { extras, ..self }
    }

    /// The provider.
    pub fn build(self) -> (r: AnthropicProvider)
        ensures
            r.id == self.id,
            r.auth == self.auth,
            r.adapter == (AnthropicAdapter {
                base_url: self.base_url,
                api_version: self.api_version,
                extras: self.extras,
            }),
            r.capabilities == (match self.capabilities {
                Some(c) => c,
                None => anthropic_capabilities(),
            }),
    {
        let caps: Capabilities = match self.capabilities {
            Some(c) => c,
            None => default_capabilities(),
        };
        AnthropicProvider {
            id: self.id,
            auth: self.auth,
            adapter: AnthropicAdapter {
                base_url: self.base_url,
                api_version: self.api_version,
                extras: self.extras,
            },
            capabilities: caps,
        }
    }
}

} // verus!
