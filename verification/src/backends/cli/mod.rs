//! Providers that hand a prompt to a command-line program.

pub mod argv;
pub mod backend;
pub mod confinement_laws;
pub mod dialect;
pub mod dialects;
pub mod paths;
pub mod prompt;
pub mod prompt_laws;
pub mod run_laws;
pub mod sandbox;
pub mod spawn;
pub mod streaming;
pub mod subprocess;
