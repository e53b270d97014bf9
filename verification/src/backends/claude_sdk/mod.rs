//! Anthropic's agent in a child process that stays alive and serves many calls at once.

pub mod laws;
pub mod provider;
pub mod session;
pub mod wire;
