//! The Gemini API.

pub mod adapter;
pub mod laws;
pub mod mapping;
pub mod provider;
