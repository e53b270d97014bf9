//! What a provider can do.

use vstd::prelude::*;

verus! {

/// How a provider keeps a reply to a schema.
#[derive(Debug, Clone, Copy, PartialEq, Eq, Structural)]
pub enum StructuredOutputMode {
    Unsupported,
    JsonObjectMode,
    StrictSchema,
    ToolUseEmulation,
}

/// How a provider caches prompts.
#[derive(Debug, Clone, Copy, PartialEq, Eq, Structural)]
pub enum PromptCacheKind {
    NoCache,
    ImplicitPrefix { min_tokens: u32 },
    ExplicitMarker,
    ExplicitObject,
    Delegated,
}

/// The kinds of content that go into a model or come out of it.
#[derive(Debug, Clone, Copy, PartialEq, Eq, Structural)]
pub struct Modalities {
    pub text: bool,
    pub image: bool,
}

/// What a provider can do. Prices are not part of it.
#[derive(Debug, Clone, Copy, PartialEq, Eq, Structural)]
pub struct Capabilities {
    pub max_context_tokens: u32,
    pub max_output_tokens: u32,
    pub supports_tool_use: bool,
    pub supports_parallel_tool_calls: bool,
    pub supports_structured_output: StructuredOutputMode,
    pub supports_vision: bool,
    pub supports_thinking: bool,
    pub supports_cancel: bool,
    pub prompt_cache: PromptCacheKind,
    pub streaming: bool,
    pub modalities_in: Modalities,
    pub modalities_out: Modalities,
}

/// Text alone.
pub open spec fn text_only() -> Modalities {
    Modalities { text: true, image: false }
}

/// A program that is started for each call and hands back text alone; the account
/// behind it does the caching.
pub open spec fn delegated(context: u32, output: u32, thinking: bool) -> Capabilities {
    Capabilities {
        max_context_tokens: context,
        max_output_tokens: output,
        supports_tool_use: false,
        supports_parallel_tool_calls: false,
        supports_structured_output: StructuredOutputMode::Unsupported,
        supports_vision: false,
        supports_thinking: thinking,
        supports_cancel: false,
        prompt_cache: PromptCacheKind::Delegated,
        streaming: false,
        modalities_in: text_only(),
        modalities_out: text_only(),
    }
}

/// A local server that speaks the protocol of OpenAI.
pub open spec fn local_server(context: u32, output: u32) -> Capabilities {
    Capabilities {
        max_context_tokens: context,
        max_output_tokens: output,
        supports_tool_use: true,
        supports_parallel_tool_calls: false,
        supports_structured_output: StructuredOutputMode::JsonObjectMode,
        supports_vision: false,
        supports_thinking: false,
        supports_cancel: true,
        prompt_cache: PromptCacheKind::NoCache,
        streaming: true,
        modalities_in: text_only(),
        modalities_out: text_only(),
    }
}

/// A hosted model that takes text and images, thinks and calls tools.
pub open spec fn hosted(
    context: u32,
    mode: StructuredOutputMode,
    cache: PromptCacheKind,
) -> Capabilities {
    Capabilities {
        max_context_tokens: context,
        max_output_tokens: 8_192,
        supports_tool_use: true,
        supports_parallel_tool_calls: true,
        supports_structured_output: mode,
        supports_vision: true,
        supports_thinking: true,
        supports_cancel: true,
        prompt_cache: cache,
        streaming: true,
        modalities_in: Modalities { text: true, image: true },
        modalities_out: text_only(),
    }
}

impl Modalities {
    /// Text alone.
    pub fn text_only() -> (r: Modalities)
        ensures
            r == text_only(),
    {
        Modalities { text: true, image: false }
    }
}

impl Capabilities {
    /// A program that is started for each call.
    pub fn delegated(context: u32, output: u32, thinking: bool) -> (r: Capabilities)
        ensures
            r == delegated(context, output, thinking),
    {
        Capabilities {
            max_context_tokens: context,
            max_output_tokens: output,
            supports_tool_use: false,
            supports_parallel_tool_calls: false,
            supports_structured_output: StructuredOutputMode::Unsupported,
            supports_vision: false,
            supports_thinking: thinking,
            supports_cancel: false,
            prompt_cache: PromptCacheKind::Delegated,
            streaming: false,
            modalities_in: Modalities::text_only(),
            modalities_out: Modalities::text_only(),
        }
    }

    /// A local server.
    pub fn local_server(context: u32, output: u32) -> (r: Capabilities)
        ensures
            r == local_server(context, output),
    {
        Capabilities {
            max_context_tokens: context,
            max_output_tokens: output,
            supports_tool_use: true,
            supports_parallel_tool_calls: false,
            supports_structured_output: StructuredOutputMode::JsonObjectMode,
            supports_vision: false,
            supports_thinking: false,
            supports_cancel: true,
            prompt_cache: PromptCacheKind::NoCache,
            streaming: true,
            modalities_in: Modalities::text_only(),
            modalities_out: Modalities::text_only(),
        }
    }

    /// A hosted model.
    pub fn hosted(context: u32, mode: StructuredOutputMode, cache: PromptCacheKind) -> (r:
        Capabilities)
        ensures
            r == hosted(context, mode, cache),
    {
        Capabilities {
            max_context_tokens: context,
            max_output_tokens: 8_192,
            supports_tool_use: true,
            supports_parallel_tool_calls: true,
            supports_structured_output: mode,
            supports_vision: true,
            supports_thinking: true,
            supports_cancel: true,
            prompt_cache: cache,
            streaming: true,
            modalities_in: Modalities { text: true, image: true },
            modalities_out: Modalities::text_only(),
        }
    }
}

} // verus!
