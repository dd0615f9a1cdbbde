use hpc_constellation::director::cli::plan::{common_pitfalls_for, determine_default_phase, extract_object_kind_from_prompt, resolve_target, run};
use hpc_constellation::director::config::{Config, ContextMode};
use hpc_constellation::director::errors::Error;
use hpc_constellation::director::model::manifest_types::{AuthoringHints, CrossRefPolicy, RepoManifest, RepoRules, Tier as RepoTier};
use hpc_constellation::director::model::spine_types::{
    ContractFamily, DefaultBands, DriftMode, InvariantSpec, MetricSpec, NumericRange, Phase, SchemaSpine, Tier, TierDefaultBands,
};

fn band(min: f64, max: f64) -> NumericRange {
    NumericRange { min: min.to_bits(), max: max.to_bits() }
}

fn strings(items: &[&str]) -> Vec<String> {
    items.iter().map(|s| s.to_string()).collect()
}

fn inv_spec(name: &str, min: f64, max: f64, t1: Option<(f64, f64)>, description: &str) -> InvariantSpec {
    InvariantSpec {
        name: name.to_string(),
        canonical_range: band(min, max),
        tier_overrides: t1.map(|(a, b)| vec![(Tier::T1, band(a, b))]).unwrap_or_default(),
        drift_mode: DriftMode::Static,
        compatible_with: vec![],
        description: description.to_string(),
        required_by: strings(&["mood", "event", "region", "seed"]),
    }
}

fn family(name: &str, kind: &str, invariants: &[&str], phases: Vec<Phase>) -> ContractFamily {
    ContractFamily {
        name: name.to_string(),
        kinds: vec![kind.to_string()],
        required_invariants: strings(invariants),
        optional_invariants: vec![],
        required_metrics: strings(&["ARR"]),
        optional_metrics: vec![],
        allowed_phases: phases,
        tier_restrictions: vec![],
    }
}

fn test_spine() -> SchemaSpine {
    let p123 = vec![Phase::Registry1, Phase::Bundles2, Phase::LuaPolicy3];
    let p12 = vec![Phase::Registry1, Phase::Bundles2];
    SchemaSpine {
        version: "v1".to_string(),
        id: "schema://HorrorPlace-Constellation-Contracts/schema-spine-index-v1.json".to_string(),
        title: "Test Spine".to_string(),
        description: "Minimal spine for planning tests".to_string(),
        invariants: vec![
            ("CIC".to_string(), inv_spec("CIC", 0.0, 1.0, Some((0.3, 0.7)), "Contextual Integrity Coefficient")),
            ("DET".to_string(), inv_spec("DET", 0.0, 10.0, Some((0.0, 7.0)), "Dread Entropy Threshold")),
        ],
        metrics: vec![(
            "ARR".to_string(),
            MetricSpec {
                name: "ARR".to_string(),
                target_band: band(0.5, 1.0),
                tier_adjustments: vec![],
                telemetry_hook: None,
                description: "Audience Retention Rating".to_string(),
                required_by: strings(&["mood", "event", "region", "seed"]),
            },
        )],
        contract_families: vec![
            family("mood", "moodContract", &["CIC", "DET"], p123.clone()),
            family("event", "eventContract", &["CIC", "DET"], p123),
            family("region", "regionContractCard", &["CIC"], p12.clone()),
            family("seed", "seedContractCard", &["CIC"], p12),
        ],
        interaction_rules: vec![],
        safe_defaults: vec![(
            "moodContract".to_string(),
            TierDefaultBands {
                by_tier: vec![(
                    Tier::T1,
                    DefaultBands {
                        invariants: vec![("CIC".to_string(), band(0.3, 0.7)), ("DET".to_string(), band(0.0, 7.0))],
                        metrics: vec![("ARR".to_string(), band(0.5, 1.0))],
                    },
                )],
            },
        )],
    }
}

fn manifest(name: &str, tier: RepoTier, kinds: &[&str], paths: &[(&str, &str)]) -> RepoManifest {
    RepoManifest {
        schema_version: "1.0.0".to_string(),
        repo_name: name.to_string(),
        tier,
        allowed_object_kinds: strings(kinds),
        allowed_schemas: strings(&["schema://Horror.Place/*"]),
        default_target_paths: paths.iter().map(|(k, p)| (k.to_string(), p.to_string())).collect(),
        rules: RepoRules::default(),
        authoring_hints: AuthoringHints::default(),
        cross_ref_policy: CrossRefPolicy::default(),
        min_rwf_for_tier: None,
        target_rules: vec![],
        implicit_deny: false,
    }
}

fn test_manifests() -> Vec<RepoManifest> {
    vec![
        manifest(
            "Horror.Place",
            RepoTier::T1Core,
            &["moodContract", "eventContract", "regionContractCard", "seedContractCard"],
            &[
                ("moodContract", "moods/{id}.json"),
                ("eventContract", "events/{id}.json"),
                ("regionContractCard", "regions/{id}.json"),
                ("seedContractCard", "seeds/{id}.json"),
            ],
        ),
        manifest(
            "HorrorPlace-Atrocity-Seeds",
            RepoTier::T2Vault,
            &["eventContract", "regionContractCard", "seedContractCard"],
            &[
                ("eventContract", "events/{id}.json"),
                ("regionContractCard", "regions/{id}.json"),
                ("seedContractCard", "seeds/{id}.json"),
            ],
        ),
    ]
}

fn test_config(manifests: Vec<RepoManifest>) -> Config {
    Config::new("/constellation".to_string(), manifests, ContextMode::Local, "v1".to_string(), vec!["v1".to_string()])
}

#[test]
fn test_clear_prompt_single_object_kind() {
    let manifests = test_manifests();
    let config = test_config(manifests.clone());
    let result = run("Create a mood contract for a liminal backrooms region", None, &config, &test_spine(), &manifests);
    assert!(result.is_ok(), "Clear prompt should produce valid request: {:?}", result.as_ref().err());
    let req = result.unwrap().request;
    assert_eq!(req.object_kind, "moodContract");
    assert!(req.candidate_kinds.is_empty(), "Unambiguous prompt should have no candidates");
    assert_eq!(req.phase, Phase::Bundles2);
}

#[test]
fn test_target_repo_override() {
    let manifests = test_manifests();
    let config = test_config(manifests.clone());
    let result = run("Create an event contract", Some("HorrorPlace-Atrocity-Seeds"), &config, &test_spine(), &manifests);
    assert!(result.is_ok());
    let req = result.unwrap().request;
    assert_eq!(req.target_repo, "HorrorPlace-Atrocity-Seeds");
}

#[test]
fn test_unknown_object_kind_error() {
    let manifests = test_manifests();
    let config = test_config(manifests.clone());
    let result = run("Create a fictionalContract that doesn't exist", None, &config, &test_spine(), &manifests);
    assert!(result.is_err(), "Unknown objectKind should produce error");
    match result.err().unwrap() {
        Error::Internal { message } => {
            assert!(message.contains("objectKind") || message.contains("not found"), "Error should mention unknown objectKind");
            assert_eq!(message, "Could not determine objectKind from prompt: Create a fictionalContract that doesn't exist");
        }
        other => panic!("unexpected error: {:?}", other),
    }
}

#[test]
fn plan_fills_target_path_tier_and_guide() {
    let manifests = test_manifests();
    let config = test_config(manifests.clone());
    let plan = run("Create a mood contract", None, &config, &test_spine(), &manifests).unwrap();
    assert_eq!(plan.request.target_repo, "Horror.Place");
    assert_eq!(plan.request.target_path, "moods/TODO_ID.json");
    assert_eq!(plan.request.tier, Tier::T1);
    assert_eq!(plan.request.intent, "Create a mood contract");
    let guide = plan.generation_guide.expect("known kinds get a guide");
    assert_eq!(guide.invariant_ranges.len(), 2);
    assert_eq!(guide.invariant_ranges[1].0, "DET");
    assert_eq!(guide.invariant_ranges[1].1, band(0.0, 7.0));
    assert_eq!(guide.common_pitfalls.len(), 3);
}

#[test]
fn prompt_mentioning_two_kinds_lists_candidates() {
    let spine = test_spine();
    let (kind, candidates) = extract_object_kind_from_prompt("A mood and an event", &spine).unwrap();
    assert_eq!(kind, "moodContract");
    assert_eq!(candidates, vec!["moodContract".to_string(), "eventContract".to_string()]);
}

#[test]
fn override_that_refuses_the_kind_is_a_config_error() {
    let mut manifests = test_manifests();
    manifests[1].implicit_deny = true;
    let config = test_config(manifests.clone());
    match resolve_target("moodContract", Some("HorrorPlace-Atrocity-Seeds"), &manifests, &config) {
        Err(Error::Config { message, path }) => {
            assert_eq!(message, "Repo 'HorrorPlace-Atrocity-Seeds' does not accept objectKind 'moodContract'");
            assert_eq!(path, "/constellation");
        }
        other => panic!("unexpected: {:?}", other),
    }
    manifests[1].implicit_deny = false;
    let (repo, path, tier) = resolve_target("moodContract", Some("HorrorPlace-Atrocity-Seeds"), &manifests, &config).unwrap();
    assert_eq!((repo.as_str(), path.as_str(), tier), ("HorrorPlace-Atrocity-Seeds", "TODO_ID.json", Tier::T2));
    match resolve_target("moodContract", None, &[], &config) {
        Err(Error::Config { message, .. }) => assert_eq!(message, "No repo manifest accepts objectKind 'moodContract'"),
        other => panic!("unexpected: {:?}", other),
    }
}

#[test]
fn default_phase_and_pitfalls() {
    assert_eq!(determine_default_phase("regionContractCard", Tier::T2), Phase::Bundles2);
    assert_eq!(common_pitfalls_for("seedContractCard")[1], "pacingTemplate must be one of: slow_burn, sudden_rupture, escalating");
    assert!(common_pitfalls_for("unknownKind").is_empty());
}

#[test]
fn test_ambiguous_prompt_produces_candidates() {
    let manifests = test_manifests();
    let config = test_config(manifests.clone());
    let result = run("Create a horror atmosphere for a new region", None, &config, &test_spine(), &manifests);
    assert!(result.is_ok(), "Ambiguous prompt should still produce a request");
    let req = result.unwrap().request;
    assert!(
        req.candidate_kinds.contains(&"moodContract".to_string()) || req.candidate_kinds.contains(&"regionContractCard".to_string()),
        "Ambiguous prompt should suggest candidate objectKinds"
    );
}

#[test]
fn test_target_repo_resolution() {
    let manifests = test_manifests();
    let config = test_config(manifests.clone());
    let result = run("Create a seed contract for experimental PCG", None, &config, &test_spine(), &manifests);
    assert!(result.is_ok());
    let req = result.unwrap().request;
    assert!(
        req.target_repo == "Horror.Place" || req.target_repo.contains("Atrocity") || req.target_repo.contains("Seeds"),
        "Seed contract should route to appropriate repo, got: {}",
        req.target_repo
    );
}

#[test]
fn test_spine_defaults_injection() {
    let manifests = test_manifests();
    let config = test_config(manifests.clone());
    let result = run("Create a Tier 1 mood contract with safe defaults", None, &config, &test_spine(), &manifests);
    assert!(result.is_ok());
    let req = result.unwrap().request;
    assert!(!req.intended_invariants.is_empty() || !req.intended_metrics.is_empty(), "Spine defaults should be injected into request");
    assert_eq!(req.tier, Tier::T1);
}

#[test]
fn test_phase_inference() {
    let manifests = test_manifests();
    let config = test_config(manifests.clone());
    let result = run("Create a region contract for Tier 2 vault", None, &config, &test_spine(), &manifests);
    assert!(result.is_ok());
    let req = result.unwrap().request;
    assert_eq!(req.phase, Phase::Bundles2);
}

#[test]
fn test_referenced_ids_preservation() {
    let manifests = test_manifests();
    let config = test_config(manifests.clone());
    let result = run("Create a mood for region.backrooms_v1", None, &config, &test_spine(), &manifests);
    assert!(result.is_ok());
    let req = result.unwrap().request;
    assert!(
        req.referenced_ids.iter().any(|id| id.contains("backrooms")),
        "Referenced region ID should be extracted: {:?}",
        req.referenced_ids
    );
}

#[test]
fn family_name_fallback_and_injected_values() {
    let manifests = test_manifests();
    let config = test_config(manifests.clone());
    let plan = run("Something for a new region", None, &config, &test_spine(), &manifests).unwrap();
    assert_eq!(plan.request.object_kind, "regionContractCard");
    assert_eq!(plan.candidate_kinds, vec!["regionContractCard".to_string()]);
    let plan = run("A mood contract.", None, &config, &test_spine(), &manifests).unwrap();
    assert_eq!(
        plan.request.intended_invariants,
        vec![("CIC".to_string(), 0.3f64.to_bits()), ("DET".to_string(), 0.0f64.to_bits())]
    );
    assert_eq!(plan.request.intended_metrics, vec![("ARR".to_string(), 0.5f64.to_bits())]);
    assert!(plan.request.referenced_ids.is_empty());
    let plan = run("A mood for zone.a1, near .hidden and region.backrooms_v1.", None, &config, &test_spine(), &manifests).unwrap();
    assert_eq!(plan.request.referenced_ids, vec!["zone.a1".to_string(), "region.backrooms_v1".to_string()]);
    let plan = run("Create an event contract", None, &config, &test_spine(), &manifests).unwrap();
    assert!(plan.request.intended_invariants.is_empty());
}
