//! Command-line subcommands: planning, applying and describing, and the
//! parsed form of the command line.
use vstd::prelude::*;

pub mod plan;
pub mod describe;
pub mod apply;

verus! {

/// A subcommand with its arguments; paths are kept as text.
#[derive(Debug, Clone)]
pub enum Command {
    /// Initialize the constellation environment (detect spine, manifests).
    Init { root: String },
    /// Normalize a prompt into an authoring request.
    Plan { prompt: String, target_repo: Option<String> },
    /// Validate a response against the full constraint stack.
    ValidateResponse { request_file: String, response_file: String },
    /// Apply a validated file to disk.
    Apply { validated_file: String, dry_run: bool },
    /// Describe capabilities of an object kind or phase.
    Describe { object_kind: Option<String>, phase: Option<u8> },
}

/// The parsed command line.
#[derive(Debug, Clone)]
pub struct Cli {
    pub command: Command,
}

impl Cli {
    /// Whether errors are reported as JSON: always, for AI callers.
    pub fn json_output(&self) -> (r: bool)
        ensures
            r,
    {
        true
    }
}

} // verus!
