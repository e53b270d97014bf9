//! The backends, one module per provider.

pub mod anthropic;
pub mod bedrock;
pub mod cassette;
pub mod claude_cli;
pub mod claude_sdk;
pub mod cli;
pub mod codex_cli;
pub mod gemini;
pub mod gemini_cli;
pub mod llamacpp;
pub mod mlx;
pub mod mock;
pub mod mock_laws;
pub mod openai;
