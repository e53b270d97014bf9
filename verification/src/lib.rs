//! Provider backends for large language models: request translation, event
//! parsing, credential resolution and command-line delegates.

pub mod auth;
pub mod auth_laws;
pub mod backends;
pub mod batch;
pub mod capabilities;
pub mod exchange;
pub mod http_base;
pub mod http_laws;
pub mod json;
pub mod members;
pub mod reasons;
pub mod reply_laws;
pub mod stream;
pub mod terms;
pub mod text;
pub mod text_laws;
pub mod tool_buffer;
pub mod types;
