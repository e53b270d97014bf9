//! The Anthropic messages API.

pub mod adapter;
pub mod batch;
pub mod batch_laws;
pub mod jobs;
pub mod laws;
pub mod mapping;
pub mod provider;
pub mod request_laws;
pub mod stream_laws;
