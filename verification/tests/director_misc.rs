use hpc_constellation::director::cli::apply::{run as apply_run, FileActionType};
use hpc_constellation::director::cli::{Cli, Command};
use hpc_constellation::director::config::{Config, ContextMode};
use hpc_constellation::director::errors::{error_code_for, error_layer_for, Error};
use hpc_constellation::director::generate::{bundle_id, family_object_kind, field_hints, mood_defaults, skeleton_family, FieldHint, SkeletonFamily};
use hpc_constellation::director::manifests::{expand_template, slugify, suggest_paths};
use hpc_constellation::director::model::manifest_types::{AuthoringHints, CrossRefPolicy, RepoManifest, RepoRules, Tier as RepoTier};
use hpc_constellation::director::model::response_types::{ValidatedFile, ValidatedProvenance};
use hpc_constellation::director::model::spine_types::{Phase, SchemaSpine};
use hpc_constellation::director::phases::phase_name;
use hpc_constellation::director::validate::envelopes::{is_valid_hex_commitment, is_valid_hex_signature};
use hpc_constellation::director::validate::schema::{quick_check, schema_compile_failure, schema_not_found, schema_violation};

fn strings(items: &[&str]) -> Vec<String> {
    items.iter().map(|s| s.to_string()).collect()
}

fn manifest(name: &str, tier: RepoTier, kinds: &[&str], paths: &[(&str, &str)], implicit_deny: bool) -> RepoManifest {
    RepoManifest {
        schema_version: "1.0.0".to_string(),
        repo_name: name.to_string(),
        tier,
        allowed_object_kinds: strings(kinds),
        allowed_schemas: vec![],
        default_target_paths: paths.iter().map(|(k, p)| (k.to_string(), p.to_string())).collect(),
        rules: RepoRules::default(),
        authoring_hints: AuthoringHints::default(),
        cross_ref_policy: CrossRefPolicy::default(),
        min_rwf_for_tier: None,
        target_rules: vec![],
        implicit_deny,
    }
}

fn config() -> Config {
    Config::new("/constellation".to_string(), vec![], ContextMode::Local, "v1".to_string(), vec!["v1".to_string()])
}

fn validated(repo: &str, path: &str) -> ValidatedFile {
    ValidatedFile {
        target_repo: repo.to_string(),
        target_path: path.to_string(),
        content: "{}".to_string(),
        content_hash: "44136fa355b3678a1146ad16f7e8649e94fb4fc21fe77e8310c060f61caaff8a".to_string(),
        soft_diagnostics: vec![],
        provenance: ValidatedProvenance {
            validated_at: "2026-01-01T00:00:00Z".to_string(),
            validator_version: "0.1.0".to_string(),
            request_id: None,
            validation_trace: vec![],
        },
    }
}

fn empty_spine() -> SchemaSpine {
    SchemaSpine {
        version: "v1".to_string(),
        id: String::new(),
        title: String::new(),
        description: String::new(),
        invariants: vec![],
        metrics: vec![],
        contract_families: vec![],
        interaction_rules: vec![],
        safe_defaults: vec![],
    }
}

#[test]
fn apply_dry_run_plans_one_create() {
    let manifests = vec![manifest("Horror.Place", RepoTier::T1Core, &["moodContract"], &[], false)];
    let r = apply_run(&validated("Horror.Place", "moods/test_v1.json"), true, false, &config(), &manifests).unwrap();
    assert!(r.dry_run);
    assert_eq!(r.actions.len(), 1);
    assert_eq!(r.actions[0].target_path, "moods/test_v1.json");
    assert_eq!(r.actions[0].action, FileActionType::Create);
    assert!(!r.actions[0].existed_before);
    assert!(r.hook_results.is_empty());
}

#[test]
fn apply_runs_registry_and_lua_hooks() {
    let manifests = vec![manifest("Horror.Place", RepoTier::T1Core, &[], &[], false)];
    let r = apply_run(&validated("Horror.Place", "registry/policy.lua"), false, true, &config(), &manifests).unwrap();
    assert_eq!(r.actions[0].action, FileActionType::Overwrite);
    let names: Vec<&str> = r.hook_results.iter().map(|h| h.hook_name.as_str()).collect();
    assert_eq!(names, vec!["registry_lint", "lua_lint"]);
    assert_eq!(r.hook_results[1].output.as_deref(), Some("Lua syntax valid"));
    let r2 = apply_run(&validated("Horror.Place", "moods/a.json"), false, false, &config(), &manifests).unwrap();
    assert!(r2.hook_results.is_empty());
}

#[test]
fn apply_to_unknown_repo_is_a_config_error() {
    match apply_run(&validated("Nowhere", "x.json"), true, false, &config(), &[]) {
        Err(Error::Config { message, path }) => {
            assert_eq!(message, "Unknown target repo: Nowhere");
            assert_eq!(path, "/constellation");
        }
        other => panic!("unexpected: {:?}", other),
    }
}

#[test]
fn slug_and_template_expansion() {
    assert_eq!(slugify("Liminal Backrooms-2!"), "liminal_backrooms_2_");
    assert_eq!(expand_template("moods/{tier}/{tile_class}/{id}.json", "Dark Hall"), "moods/TODO_TIER/TODO_TILE/dark_hall.json");
}

#[test]
fn suggested_paths_follow_manifest_order() {
    let manifests = vec![
        manifest("Horror.Place", RepoTier::T1Core, &["moodContract"], &[("moodContract", "moods/{id}.json")], true),
        manifest("HorrorPlace-Atrocity-Seeds", RepoTier::T2Vault, &["eventContract"], &[("eventContract", "events/{id}.json")], true),
        manifest("Open-Repo", RepoTier::T3Research, &["seedContractCard"], &[("moodContract", "open/{id}.json")], false),
    ];
    let targets = suggest_paths("Quiet Room", "moodContract", &manifests, &empty_spine());
    let got: Vec<(&str, &str)> = targets.iter().map(|t| (t.target_repo.as_str(), t.target_path.as_str())).collect();
    assert_eq!(got, vec![("Horror.Place", "moods/quiet_room.json"), ("Open-Repo", "open/quiet_room.json")]);
    assert_eq!(targets[1].tier, RepoTier::T3Research);
}

#[test]
fn skeleton_generators_by_kind() {
    assert_eq!(skeleton_family("moodContract").unwrap(), SkeletonFamily::Mood);
    assert_eq!(skeleton_family("seedContractCard").unwrap(), SkeletonFamily::Seed);
    match skeleton_family("bundle") {
        Err(Error::Internal { message }) => assert_eq!(message, "Unknown objectKind for skeleton generation: bundle"),
        other => panic!("unexpected: {:?}", other),
    }
    assert_eq!(family_object_kind(SkeletonFamily::Region), "regionContractCard");
    let hints = field_hints(SkeletonFamily::Mood);
    assert_eq!(hints.len(), 9);
    assert_eq!(hints[2], ("tileClass".to_string(), FieldHint::DoNotModify));
    assert_eq!(field_hints(SkeletonFamily::Event)[3], ("preconditions".to_string(), FieldHint::AiFill));
    assert_eq!(bundle_id("r1", "s1", "m1", "e1"), "bundle.r1.s1.m1.e1");
    assert_eq!(mood_defaults(None, None), ("spawn".to_string(), "sanctuary".to_string()));
    assert_eq!(mood_defaults(Some("combat"), Some("battlefront")), ("battlefront".to_string(), "combat".to_string()));
}

#[test]
fn error_codes_exit_codes_and_layers() {
    let e = Error::Config { message: "m".to_string(), path: "p".to_string() };
    assert_eq!(e.exit_code(), 2);
    assert_eq!(error_code_for(&e), "CONFIG_ERROR");
    assert_eq!(error_layer_for(&e), "config");
    let e = Error::Internal { message: "m".to_string() };
    assert_eq!(e.exit_code(), 10);
    assert_eq!(error_code_for(&e), "INTERNAL_ERROR");
    let e = Error::Cli { exit_code: 7, message: "m".to_string() };
    assert_eq!(e.exit_code(), 7);
    assert_eq!(error_code_for(&e), "CLI_ERROR");
    let e = Error::Json { message: "m".to_string() };
    assert_eq!(error_code_for(&e), "JSON_ERROR");
}

#[test]
fn cli_reports_json() {
    let cli = Cli { command: Command::Describe { object_kind: None, phase: Some(2) } };
    assert!(cli.json_output());
}

#[test]
fn phase_names_and_ids() {
    assert_eq!(Phase::LuaPolicy3.id(), 3);
    assert_eq!(Phase::Adapters4.name(), "Adapters4");
    assert_eq!(phase_name(Phase::Registry1), "Registry");
    assert_eq!(RepoTier::T2Vault.as_str(), "T2-vault");
    assert_eq!(RepoTier::T3Research.describe().name, "T3-research");
}

#[test]
fn hex_placeholders() {
    let h64 = "a".repeat(64);
    assert!(is_valid_hex_commitment(&h64));
    assert!(is_valid_hex_signature(&format!("{}{}", h64, "FF")));
    assert!(!is_valid_hex_commitment(&format!("{}{}", h64, "0")));
    assert!(!is_valid_hex_signature(&"g".repeat(64)));
}

#[test]
fn schema_layer_findings() {
    let f = schema_violation("/invariants/CIC", "0.9 is greater than the maximum of 0.7", "Maximum { limit: 0.7 }", "maximum");
    assert_eq!(f.code, "SCHEMA_VALIDATION_ERROR");
    assert_eq!(f.remediation.as_ref().unwrap().suggestion, "Ensure field matches schema constraint: maximum");
    assert_eq!(schema_not_found("schema://x").message, "Schema 'schema://x' not found in spine");
    assert_eq!(schema_compile_failure("bad").message, "Failed to compile schema: bad");
    let ws = quick_check(&strings(&["id", "tileClass", "archetype"]), &strings(&["id"])).unwrap_err();
    assert_eq!(ws.len(), 2);
    assert_eq!(ws[0].message, "Required field 'tileClass' missing");
    assert_eq!(ws[1].json_pointer, "/archetype");
    assert!(quick_check(&strings(&["id"]), &strings(&["id", "x"])).is_ok());
}

#[test]
fn apply_runs_schema_hook_when_the_repo_requires_it() {
    let mut m = manifest("Horror.Place", RepoTier::T1Core, &[], &[], false);
    m.rules.require_schema_validation = true;
    let manifests = vec![m];
    let r = apply_run(&validated("Horror.Place", "registry/entry.json"), false, false, &config(), &manifests).unwrap();
    let names: Vec<&str> = r.hook_results.iter().map(|h| h.hook_name.as_str()).collect();
    assert_eq!(names, vec!["schema_validation", "registry_lint"]);
    assert_eq!(r.hook_results[0].output.as_deref(), Some("Schema validation passed"));
    let dry = apply_run(&validated("Horror.Place", "registry/entry.json"), true, false, &config(), &manifests).unwrap();
    assert!(dry.hook_results.is_empty());
}
