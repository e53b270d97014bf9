//! The command-line programs that are known.

pub mod antigravity;
pub mod claude;
pub mod codex;
pub mod codex_laws;
pub mod gemini;
pub mod laws;
pub mod opencode;
