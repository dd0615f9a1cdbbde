use hpc_constellation::director::chat_director::ChatDirector;
use hpc_constellation::director::cli::describe::{apply_filters, run as describe_run, DescribeOutput};
use hpc_constellation::director::config::{Config, ContextMode, EnvironmentSummary};
use hpc_constellation::director::errors::{exit_code_for_diagnostics, Error, Severity, ValidationError, ValidationLayer};
use hpc_constellation::director::model::manifest_types::{AuthoringHints, CrossRefPolicy, RepoManifest, RepoRules, Tier as RepoTier};
use hpc_constellation::director::model::request_types::AiAuthoringRequest;
use hpc_constellation::director::model::spine_types::{ContractFamily, DriftMode, InvariantSpec, NumericRange, Phase, SchemaSpine, Tier};
use hpc_constellation::director::spine::SpineIndex;
use hpc_constellation::director::validate::envelopes::{validate_envelope, wrap_in_prism_envelope};
use hpc_constellation::director::validate::validate_request_early;

fn strings(items: &[&str]) -> Vec<String> {
    items.iter().map(|s| s.to_string()).collect()
}

fn spine() -> SchemaSpine {
    SchemaSpine {
        version: "v1".to_string(),
        id: String::new(),
        title: String::new(),
        description: String::new(),
        invariants: vec![(
            "CIC".to_string(),
            InvariantSpec {
                name: "CIC".to_string(),
                canonical_range: NumericRange { min: 0.0f64.to_bits(), max: 1.0f64.to_bits() },
                tier_overrides: vec![],
                drift_mode: DriftMode::Static,
                compatible_with: vec![],
                description: "Contextual Integrity Coefficient".to_string(),
                required_by: strings(&["mood"]),
            },
        )],
        metrics: vec![],
        contract_families: vec![ContractFamily {
            name: "mood".to_string(),
            kinds: strings(&["moodContract"]),
            required_invariants: strings(&["CIC", "DET"]),
            optional_invariants: vec![],
            required_metrics: vec![],
            optional_metrics: vec![],
            allowed_phases: vec![Phase::Registry1, Phase::Bundles2],
            tier_restrictions: vec![],
        }],
        interaction_rules: vec![],
        safe_defaults: vec![],
    }
}

fn manifest() -> RepoManifest {
    RepoManifest {
        schema_version: "1.0.0".to_string(),
        repo_name: "Horror.Place".to_string(),
        tier: RepoTier::T1Core,
        allowed_object_kinds: strings(&["moodContract"]),
        allowed_schemas: vec![],
        default_target_paths: vec![("moodContract".to_string(), "moods/{id}.json".to_string())],
        rules: RepoRules::default(),
        authoring_hints: AuthoringHints::default(),
        cross_ref_policy: CrossRefPolicy::default(),
        min_rwf_for_tier: None,
        target_rules: vec![],
        implicit_deny: true,
    }
}

fn config(versions: &[&str]) -> Config {
    Config::new("/c".to_string(), vec![manifest()], ContextMode::Local, "v1".to_string(), strings(versions))
}

fn director() -> ChatDirector {
    ChatDirector::from_spine_and_manifests(config(&["v1"]), SpineIndex::new("/c".to_string(), spine()), vec![manifest()])
}

#[test]
fn describe_single_kind() {
    let d = director();
    match describe_run(Some("moodContract"), None, None, &d).unwrap() {
        DescribeOutput::Single(p) => {
            assert_eq!(p.object_kind, "moodContract");
            assert_eq!(p.family, "mood");
            assert_eq!(p.required_invariants.len(), 1);
            assert_eq!(p.required_invariants[0].0, "CIC");
            assert_eq!(p.allowed_phases, vec![Phase::Registry1, Phase::Bundles2]);
        }
        other => panic!("unexpected: {:?}", other),
    }
}

#[test]
fn describe_errors() {
    let d = director();
    match describe_run(Some("fictional"), None, None, &d) {
        Err(Error::Internal { message }) => assert_eq!(message, "Unknown objectKind: fictional"),
        other => panic!("unexpected: {:?}", other),
    }
    match apply_filters(DescribeOutput::All(vec![]), Some(7), None) {
        Err(Error::Internal { message }) => assert_eq!(message, "Invalid phase: 7"),
        other => panic!("unexpected: {:?}", other),
    }
    match apply_filters(DescribeOutput::All(vec![]), None, Some("T9")) {
        Err(Error::Internal { message }) => assert_eq!(message, "Invalid tier: T9"),
        other => panic!("unexpected: {:?}", other),
    }
    assert!(apply_filters(DescribeOutput::All(vec![]), Some(2), Some("t2-vault")).is_ok());
}

fn diag(layer: ValidationLayer, severity: Severity) -> ValidationError {
    ValidationError {
        code: "X".to_string(),
        layer,
        severity,
        json_pointer: "/".to_string(),
        submitted_value: None,
        expected: String::new(),
        remediation: String::new(),
        fix_order: 1,
        interaction_effects: vec![],
    }
}

#[test]
fn exit_code_follows_most_fundamental_error_layer() {
    assert_eq!(exit_code_for_diagnostics(&[]), 0);
    assert_eq!(exit_code_for_diagnostics(&[diag(ValidationLayer::Schema, Severity::Warning)]), 0);
    assert_eq!(exit_code_for_diagnostics(&[diag(ValidationLayer::Envelope, Severity::Error)]), 5);
    assert_eq!(
        exit_code_for_diagnostics(&[diag(ValidationLayer::Envelope, Severity::Error), diag(ValidationLayer::Manifest, Severity::Error)]),
        4
    );
    assert_eq!(
        exit_code_for_diagnostics(&[diag(ValidationLayer::Manifest, Severity::Error), diag(ValidationLayer::Phase, Severity::Error)]),
        3
    );
    assert_eq!(exit_code_for_diagnostics(&[diag(ValidationLayer::Phase, Severity::Error), diag(ValidationLayer::Schema, Severity::Error)]), 1);
}

#[test]
fn wrapped_envelopes_validate() {
    let c = config(&["v2", "v1"]);
    let env = wrap_in_prism_envelope("{}", "agent", "schema://Horror.Place/moodcontract_v1.json", &c);
    assert_eq!(env.envelope_version, "v2");
    assert!(chrono::DateTime::parse_from_rfc3339(&env.timestamp).is_ok());
    assert!(validate_envelope(&env, &c, None).is_ok());
    let mut bad = env.clone();
    bad.envelope_version = "v9".to_string();
    bad.schema_ref = String::new();
    let errs = validate_envelope(&bad, &c, None).unwrap_err();
    let codes: Vec<&str> = errs.iter().map(|e| e.code.as_str()).collect();
    assert_eq!(codes, vec!["ENVELOPE_VERSION_UNSUPPORTED", "MISSING_SCHEMA_REF"]);
}

#[test]
fn early_warnings_for_unknown_kinds() {
    let d = director();
    let req = AiAuthoringRequest {
        schema_ref: String::new(),
        intent: String::new(),
        object_kind: "fictional".to_string(),
        candidate_kinds: vec![],
        target_repo: "Horror.Place".to_string(),
        target_path: String::new(),
        phase: Phase::Bundles2,
        tier: Tier::T1,
        referenced_ids: vec![],
        shci_bands: None,
        intended_invariants: vec![],
        intended_metrics: vec![],
        extra_guidance: None,
        agent_profile_id: None,
    };
    let ws = validate_request_early(&d, &req);
    assert!(ws.iter().any(|w| w.code == "UNKNOWN_OBJECT_KIND" && w.message == "Object kind 'fictional' not found in schema spine"));
}

#[test]
fn environment_summary_lists_repos_and_kinds() {
    let s = EnvironmentSummary::from_config_and_spine(&config(&["v1"]), &spine(), &[Some("/c/Horror.Place".to_string())]);
    assert_eq!(s.root, "/c");
    assert_eq!(s.object_kinds, strings(&["moodContract"]));
    assert_eq!(s.repos[0].path, "/c/Horror.Place");
    assert_eq!(s.repos[0].tier, "T1-core");
    let s2 = EnvironmentSummary::from_config_and_spine(&config(&["v1"]), &spine(), &[None]);
    assert_eq!(s2.repos[0].path, ".");
}

use hpc_constellation::director::errors::rank_layer;
use hpc_constellation::director::model::{ValidationDiagnostic, ValidationLayer as ModelLayer, ValidationResult, ValidationSeverity};

fn vd(code: &str, severity: ValidationSeverity) -> ValidationDiagnostic {
    ValidationDiagnostic {
        layer: ModelLayer::Schema,
        severity,
        code: code.to_string(),
        message: String::new(),
        json_pointer: None,
        remediation: None,
    }
}

#[test]
fn ranked_diagnostics_are_a_stable_severity_sort() {
    let r = ValidationResult {
        ok: false,
        diagnostics: vec![
            vd("i1", ValidationSeverity::Info),
            vd("w1", ValidationSeverity::Warning),
            vd("e1", ValidationSeverity::Error),
            vd("w2", ValidationSeverity::Warning),
            vd("e2", ValidationSeverity::Error),
        ],
    };
    let codes: Vec<String> = r.ranked_diagnostics().into_iter().map(|d| d.code).collect();
    assert_eq!(codes, vec!["e1", "e2", "w1", "w2", "i1"]);
    assert_eq!(r.first_error().unwrap().code, "e1");
    assert!(!r.is_ok());
}

#[test]
fn rank_layer_picks_the_more_fundamental_layer_in_any_order() {
    let layers = [ValidationLayer::Schema, ValidationLayer::Phase, ValidationLayer::Invariant, ValidationLayer::Manifest, ValidationLayer::Envelope];
    for a in layers {
        for b in layers {
            assert_eq!(rank_layer(a, b), rank_layer(b, a));
            for c in layers {
                assert_eq!(rank_layer(rank_layer(a, b), c), rank_layer(a, rank_layer(b, c)));
            }
        }
    }
    assert_eq!(rank_layer(ValidationLayer::Envelope, ValidationLayer::Phase), ValidationLayer::Phase);
}
