//! Configuration of the constellation-wide SQLite index, and its entry
//! points. Building and migrating the index are not provided by this
//! version: both entry points report that, and touch nothing.
use vstd::prelude::*;

verus! {

/// One repository of the constellation.
#[derive(Debug, Clone)]
pub struct RepoConfig {
    pub name: String,
    pub git_url: Option<String>,
    pub local_path: String,
    pub tier: i32,
    /// `public` or `private`.
    pub visibility: String,
}

/// The repositories to index and where the index goes.
#[derive(Debug, Clone)]
pub struct ConstellationConfig {
    pub repos: Vec<RepoConfig>,
    /// Path of the SQLite file, e.g. `output/constellation.db`.
    pub output_db_path: String,
}

/// Why an index operation failed.
#[derive(Debug, Clone)]
pub struct IndexError {
    pub message: String,
}

/// Rebuild the constellation SQLite index from scratch. This version does
/// not provide the build: it always fails with `not implemented`.
pub fn build_constellation_index(config: &ConstellationConfig) -> (r: Result<(), IndexError>)
    ensures
        r matches Err(e) && e.message@ == "not implemented"@,
{
    Err(IndexError { message: String::from_str("not implemented") })
}

/// Verify or migrate the schema of an existing index file. This version
/// does not provide it: it always fails with `not implemented`.
pub fn verify_or_migrate_schema(db_path: &str) -> (r: Result<(), IndexError>)
    ensures
        r matches Err(e) && e.message@ == "not implemented"@,
{
    Err(IndexError { message: String::from_str("not implemented") })
}

} // verus!
