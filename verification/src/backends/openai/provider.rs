//! The provider for OpenAI's API: how it is configured.

use crate::auth::Auth;
use crate::backends::openai::adapter::OpenAiAdapter;
use crate::capabilities::{
    text_only, Capabilities, Modalities, PromptCacheKind, StructuredOutputMode,
};
use crate::http_base::HttpProviderExtras;
use vstd::prelude::*;
use vstd::string::*;

verus! {

/// The server of the vendor.
pub const DEFAULT_BASE_URL: &'static str = "https://api.openai.com/v1";

/// What the provider can do unless it is told otherwise.
pub open spec fn openai_capabilities() -> Capabilities {
    Capabilities {
        max_context_tokens: 128_000,
        max_output_tokens: 16_384,
        supports_tool_use: true,
        supports_parallel_tool_calls: true,
        supports_structured_output: StructuredOutputMode::StrictSchema,
        supports_vision: false,
        supports_thinking: false,
        supports_cancel: true,
        prompt_cache: PromptCacheKind::ImplicitPrefix { min_tokens: 1024 },
        streaming: true,
        modalities_in: text_only(),
        modalities_out: text_only(),
    }
}

/// What the provider can do unless it is told otherwise.
pub fn default_openai_capabilities() -> (r: Capabilities)
    ensures
        r == openai_capabilities(),
{
    Capabilities {
        max_context_tokens: 128_000,
        max_output_tokens: 16_384,
        supports_tool_use: true,
        supports_parallel_tool_calls: true,
        supports_structured_output: StructuredOutputMode::StrictSchema,
        supports_vision: false,
        supports_thinking: false,
        supports_cancel: true,
        prompt_cache: PromptCacheKind::ImplicitPrefix { min_tokens: 1024 },
        streaming: true,
        modalities_in: Modalities::text_only(),
        modalities_out: Modalities::text_only(),
    }
}

/// Puts a provider together.
pub struct OpenAiProviderBuilder {
    pub id: String,
    pub base_url: String,
    pub auth: Auth,
    pub capabilities: Option<Capabilities>,
    pub extras: HttpProviderExtras,
}

/// A provider, as far as it is configured.
pub struct OpenAiProvider {
    pub id: String,
    pub auth: Auth,
    pub adapter: OpenAiAdapter,
    pub capabilities: Capabilities,
}

impl OpenAiProviderBuilder {
    /// A provider at the vendor's server.
    pub fn new(id: &str, auth: Auth) -> (r: OpenAiProviderBuilder)
        ensures
            r.id@ == id@,
            r.base_url@ == DEFAULT_BASE_URL@,
            r.auth == auth,
            r.capabilities is None,
            r.extras.headers@.len() == 0,
    {
        OpenAiProviderBuilder {
            id: id.to_owned(),
            base_url: DEFAULT_BASE_URL.to_owned(),
            auth,
            capabilities: None,
            extras: HttpProviderExtras::default(),
        }
    }

    /// Another server.
    pub fn base_url(self, url: String) -> (r: OpenAiProviderBuilder)
        ensures
            r == (OpenAiProviderBuilder { base_url: url, ..self }),
    {
        OpenAiProviderBuilder { base_url: url, ..self }
    }

    /// Other capabilities.
    pub fn capabilities(self, caps: Capabilities) -> (r: OpenAiProviderBuilder)
        ensures
            r == (OpenAiProviderBuilder { capabilities: Some(caps), ..self }),
    {
        OpenAiProviderBuilder { capabilities: Some(caps), ..self }
    }

    /// Headers to send with each request.
    pub fn extras(self, extras: HttpProviderExtras) -> (r: OpenAiProviderBuilder)
        ensures
            r == (OpenAiProviderBuilder { extras, ..self }),
    {
        OpenAiProviderBuilder { extras, ..self }
    }

    /// The provider.
    pub fn build(self) -> (r: OpenAiProvider)
        ensures
            r.id == self.id,
            r.auth == self.auth,
            r.adapter == (OpenAiAdapter {
                base_url: self.base_url,
                extras: self.extras,
            }),
            r.capabilities == (match self.capabilities {
                Some(c) => c,
                None => openai_capabilities(),
            }),
    {
        let caps: Capabilities = match self.capabilities {
            Some(c) => c,
            None => default_openai_capabilities(),
        };
        OpenAiProvider {
            id: self.id,
            auth: self.auth,
            adapter: OpenAiAdapter {
                base_url: self.base_url,
                extras: self.extras,
            },
            capabilities: caps,
        }
    }
}

} // verus!
