//! Shapes of the capability catalog that the `describe` subcommand emits,
//! and the filter that narrows it.
use vstd::prelude::*;

verus! {

/// Filter narrowing the capability catalog.
#[derive(Debug, Clone, Default)]
pub struct CatalogFilter {
    pub object_kind: Option<String>,
    pub phase: Option<u8>,
    pub tier: Option<String>,
    pub repo: Option<String>,
}

/// Arguments of `describe`.
#[derive(Debug, Clone)]
pub struct DescribeArgs {
    /// Object kind name, e.g. `moodContract`.
    pub object_kind: Option<String>,
    /// Phase id (0-4).
    pub phase: Option<u8>,
    /// Tier name.
    pub tier: Option<String>,
    /// Repository name, e.g. `Horror.Place`.
    pub repo: Option<String>,
}

/// A phase of the catalog.
#[derive(Debug, Clone)]
pub struct PhaseProfile {
    pub id: u8,
    pub name: String,
    pub description: String,
}

/// A tier of the catalog.
#[derive(Debug, Clone)]
pub struct TierProfile {
    pub name: String,
    pub description: String,
}

/// An authoring hint of a repository.
#[derive(Debug, Clone)]
pub struct AuthoringHintProfile {
    pub rule_id: String,
    pub description: String,
}

/// A repository of the catalog.
#[derive(Debug, Clone)]
pub struct RepoProfile {
    pub repo_name: String,
    pub tier: String,
    pub implicit_deny: bool,
    pub allowed_object_kinds: Vec<String>,
    pub schema_whitelist: Vec<String>,
    /// Default paths, by object kind.
    pub default_paths: Vec<(String, String)>,
    pub policies: Vec<String>,
    pub authoring_hints: Vec<AuthoringHintProfile>,
}

} // verus!
