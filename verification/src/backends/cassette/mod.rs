//! Recording the replies of a provider and playing them back by the fingerprint
//! of the request.

pub mod file;
pub mod fingerprint;
pub mod provider;
pub mod recording_laws;
pub mod request;
pub mod request_laws;
pub mod store;
