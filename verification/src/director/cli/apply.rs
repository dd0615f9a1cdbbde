//! The `apply` subcommand: decide how a validated file lands in its target
//! repository and which post-apply hooks run. Writing the file is left to
//! the caller, which performs it when the result is not a dry run.
use vstd::prelude::*;

use crate::director::config::Config;
use crate::director::errors::Error;
use crate::director::model::manifest_types::RepoManifest;
use crate::director::model::response_types::ValidatedFile;
use crate::director::phases::{find_manifest_named, manifest_named};
use crate::text::{has_prefix, has_suffix, str_ends_with, str_starts_with};

verus! {

/// Type of filesystem action.
#[derive(Debug, Clone, Copy, PartialEq, Eq, Structural)]
pub enum FileActionType {
    /// Create a new file.
    Create,
    /// Overwrite an existing file.
    Overwrite,
    /// Delete a file.
    Delete,
}

/// A filesystem action on one file.
#[derive(Debug, Clone)]
pub struct FileAction {
    /// Target path relative to the repo root.
    pub target_path: String,
    pub action: FileActionType,
    /// SHA-256 hash of the content.
    pub content_hash: String,
    /// Whether the file already existed.
    pub existed_before: bool,
}

/// Result of a post-apply hook.
#[derive(Debug, Clone)]
pub struct HookResult {
    pub hook_name: String,
    pub succeeded: bool,
    pub output: Option<String>,
}

/// Result of the apply operation.
#[derive(Debug, Clone)]
pub struct ApplyResult {
    /// Filesystem actions performed or planned.
    pub actions: Vec<FileAction>,
    pub dry_run: bool,
    /// Results of the post-apply hooks that ran.
    pub hook_results: Vec<HookResult>,
}

/// A hook result as name, success and output.
pub open spec fn hook_view(h: HookResult) -> (Seq<char>, bool, Option<Seq<char>>) {
    (h.hook_name@, h.succeeded, match h.output { Some(o) => Some(o@), None => None })
}

/// The hooks that run after writing a file at `target_path` into a repo
/// whose rules do or do not require schema validation: the schema
/// validation hook when required, a registry lint for paths under
/// `registry/`, then a Lua lint for `.lua` files.
pub open spec fn expected_hooks(target_path: Seq<char>, require_schema: bool) -> Seq<(Seq<char>, bool, Option<Seq<char>>)> {
    (if require_schema {
        seq![("schema_validation"@, true, Some("Schema validation passed"@))]
    } else {
        Seq::empty()
    }) + (if has_prefix(target_path, "registry/"@) {
        seq![("registry_lint"@, true, Some("Registry entry format valid"@))]
    } else {
        Seq::empty()
    }) + (if has_suffix(target_path, ".lua"@) {
        seq![("lua_lint"@, true, Some("Lua syntax valid"@))]
    } else {
        Seq::empty()
    })
}

/// The action kind for a file that did or did not exist.
pub open spec fn action_for(existed_before: bool) -> FileActionType {
    if existed_before { FileActionType::Overwrite } else { FileActionType::Create }
}

fn hook(name: &str, output: &str) -> (r: HookResult)
    ensures
        hook_view(r) == (name@, true, Some(output@)),
{
    HookResult { hook_name: String::from_str(name), succeeded: true, output: Some(String::from_str(output)) }
}

/// Run the post-apply hooks for `vf` in a repo governed by `manifest`.
fn run_post_apply_hooks(vf: &ValidatedFile, manifest: &RepoManifest) -> (r: Vec<HookResult>)
    ensures
        r@.map_values(|h: HookResult| hook_view(h)) == expected_hooks(vf.target_path@, manifest.rules.require_schema_validation),
{
    let mut results: Vec<HookResult> = Vec::new();
    proof {
        reveal_strlit("registry/");
        reveal_strlit(".lua");
    }
    if manifest.rules.require_schema_validation {
        results.push(hook("schema_validation", "Schema validation passed"));
    }
    if str_starts_with(vf.target_path.as_str(), "registry/") {
        results.push(hook("registry_lint", "Registry entry format valid"));
    }
    if str_ends_with(vf.target_path.as_str(), ".lua") {
        results.push(hook("lua_lint", "Lua syntax valid"));
    }
    assert(results@.map_values(|h: HookResult| hook_view(h)) =~= expected_hooks(vf.target_path@, manifest.rules.require_schema_validation));
    results
}

/// Plan the application of `vf`: the target repo must have a manifest
/// (else a configuration error naming the repo); the file is created or
/// overwritten depending on `existed_before`; a dry run runs no hooks,
/// otherwise the hooks that the repo's rules and the path call for run.
pub fn run(vf: &ValidatedFile, dry_run: bool, existed_before: bool, config: &Config, manifests: &[RepoManifest]) -> (r: Result<ApplyResult, Error>)
    ensures
        match manifest_named(manifests@, vf.target_repo@) {
            None => r matches Err(Error::Config { message, path })
                && message@ == "Unknown target repo: "@ + vf.target_repo@
                && path@ == config.spec_root(),
            Some(m) => r matches Ok(a) && a.dry_run == dry_run && a.actions@.len() == 1
                && a.actions@[0].target_path@ == vf.target_path@
                && a.actions@[0].action == action_for(existed_before)
                && a.actions@[0].content_hash@ == vf.content_hash@
                && a.actions@[0].existed_before == existed_before
                && a.hook_results@.map_values(|h: HookResult| hook_view(h))
                    == (if dry_run { Seq::empty() } else { expected_hooks(vf.target_path@, m.rules.require_schema_validation) }),
        },
{
    let idx = match find_manifest_named(manifests, vf.target_repo.as_str()) {
        Some(i) => i,
        None => {
            let mut message = String::from_str("Unknown target repo: ");
            message.append(vf.target_repo.as_str());
            return Err(Error::Config { message, path: String::from_str(config.root()) });
        },
    };
    let action = FileAction {
        target_path: vf.target_path.clone(),
        action: if existed_before { FileActionType::Overwrite } else { FileActionType::Create },
        content_hash: vf.content_hash.clone(),
        existed_before,
    };
    let hook_results = if dry_run { Vec::new() } else { run_post_apply_hooks(vf, &manifests[idx]) };
    proof {
        if dry_run {
            assert(hook_results@.map_values(|h: HookResult| hook_view(h)) =~= Seq::empty());
        }
    }
    Ok(ApplyResult { actions: vec![action], dry_run, hook_results })
}

} // verus!
