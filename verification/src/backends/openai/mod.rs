//! The OpenAI chat completions API, and the servers that are compatible with it.

pub mod adapter;
pub mod batch;
pub mod batch_laws;
pub mod jobs;
pub mod laws;
pub mod provider;
pub mod request_laws;
pub mod stream_laws;
