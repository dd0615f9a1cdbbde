//! The authoring director: spine and manifest models, phase gating,
//! response validation and the command-line planning logic.
pub mod model;
pub mod spine;
pub mod validation;
pub mod phases;
pub mod errors;
pub mod config;
pub mod validate;
pub mod chat_director;
pub mod cli;
pub mod manifests;
pub mod generate;
pub mod cli_describe;
