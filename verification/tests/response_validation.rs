use hpc_constellation::director::chat_director::ChatDirector;
use hpc_constellation::director::config::{Config, ContextMode};
use hpc_constellation::director::model::manifest_types::{AuthoringHints, CrossRefPolicy, RepoManifest, RepoRules, Tier as RepoTier};
use hpc_constellation::director::model::request_types::AiAuthoringRequest;
use hpc_constellation::director::model::response_types::{AiAuthoringResponse, GeneratedBy, PrismEnvelope};
use hpc_constellation::director::model::spine_types::{
    ContractFamily, DefaultBands, DriftMode, InvariantSpec, MetricSpec, NumericRange, Phase, SchemaSpine, Tier, TierDefaultBands,
};
use hpc_constellation::director::spine::SpineIndex;
use hpc_constellation::director::validate::schema::schema_findings;
use hpc_constellation::director::validate::{compute_content_hash, validate_response, InvariantFinding, Remediation};

fn band(min: f64, max: f64) -> NumericRange {
    NumericRange { min: min.to_bits(), max: max.to_bits() }
}

fn strings(items: &[&str]) -> Vec<String> {
    items.iter().map(|s| s.to_string()).collect()
}

fn inv_spec(name: &str, min: f64, max: f64, t1: Option<(f64, f64)>, description: &str) -> InvariantSpec {
    InvariantSpec {
        name: name.to_string(),
        canonical_range: band(min, max),
        tier_overrides: t1.map(|(a, b)| vec![(Tier::T1, band(a, b))]).unwrap_or_default(),
        drift_mode: DriftMode::Static,
        compatible_with: vec![],
        description: description.to_string(),
        required_by: strings(&["mood", "event", "region", "seed"]),
    }
}

fn family(name: &str, kind: &str, invariants: &[&str], phases: Vec<Phase>) -> ContractFamily {
    ContractFamily {
        name: name.to_string(),
        kinds: vec![kind.to_string()],
        required_invariants: strings(invariants),
        optional_invariants: vec![],
        required_metrics: strings(&["ARR"]),
        optional_metrics: vec![],
        allowed_phases: phases,
        tier_restrictions: vec![],
    }
}

fn test_spine() -> SchemaSpine {
    let p123 = vec![Phase::Registry1, Phase::Bundles2, Phase::LuaPolicy3];
    let p12 = vec![Phase::Registry1, Phase::Bundles2];
    SchemaSpine {
        version: "v1".to_string(),
        id: "schema://HorrorPlace-Constellation-Contracts/schema-spine-index-v1.json".to_string(),
        title: "Test Spine".to_string(),
        description: "Minimal spine for validation tests".to_string(),
        invariants: vec![
            ("CIC".to_string(), inv_spec("CIC", 0.0, 1.0, Some((0.3, 0.7)), "Contextual Integrity Coefficient")),
            ("DET".to_string(), inv_spec("DET", 0.0, 10.0, Some((0.0, 7.0)), "Dread Entropy Threshold")),
        ],
        metrics: vec![(
            "ARR".to_string(),
            MetricSpec {
                name: "ARR".to_string(),
                target_band: band(0.5, 1.0),
                tier_adjustments: vec![],
                telemetry_hook: None,
                description: "Audience Retention Rating".to_string(),
                required_by: strings(&["mood", "event", "region", "seed"]),
            },
        )],
        contract_families: vec![
            family("mood", "moodContract", &["CIC", "DET"], p123.clone()),
            family("event", "eventContract", &["CIC", "DET"], p123),
            family("region", "regionContractCard", &["CIC"], p12.clone()),
            family("seed", "seedContractCard", &["CIC"], p12),
        ],
        interaction_rules: vec![],
        safe_defaults: vec![(
            "moodContract".to_string(),
            TierDefaultBands {
                by_tier: vec![(
                    Tier::T1,
                    DefaultBands {
                        invariants: vec![("CIC".to_string(), band(0.3, 0.7)), ("DET".to_string(), band(0.0, 7.0))],
                        metrics: vec![("ARR".to_string(), band(0.5, 1.0))],
                    },
                )],
            },
        )],
    }
}

fn manifest(name: &str, tier: RepoTier, kinds: &[&str], paths: &[(&str, &str)]) -> RepoManifest {
    RepoManifest {
        schema_version: "1.0.0".to_string(),
        repo_name: name.to_string(),
        tier,
        allowed_object_kinds: strings(kinds),
        allowed_schemas: strings(&["schema://Horror.Place/*"]),
        default_target_paths: paths.iter().map(|(k, p)| (k.to_string(), p.to_string())).collect(),
        rules: RepoRules::default(),
        authoring_hints: AuthoringHints::default(),
        cross_ref_policy: CrossRefPolicy::default(),
        min_rwf_for_tier: None,
        target_rules: vec![],
        implicit_deny: false,
    }
}

fn test_manifests() -> Vec<RepoManifest> {
    vec![
        manifest(
            "Horror.Place",
            RepoTier::T1Core,
            &["moodContract", "eventContract", "regionContractCard", "seedContractCard"],
            &[
                ("moodContract", "moods/{id}.json"),
                ("eventContract", "events/{id}.json"),
                ("regionContractCard", "regions/{id}.json"),
                ("seedContractCard", "seeds/{id}.json"),
            ],
        ),
        manifest(
            "HorrorPlace-Atrocity-Seeds",
            RepoTier::T2Vault,
            &["eventContract", "regionContractCard", "seedContractCard"],
            &[
                ("eventContract", "events/{id}.json"),
                ("regionContractCard", "regions/{id}.json"),
                ("seedContractCard", "seeds/{id}.json"),
            ],
        ),
    ]
}

fn test_config(manifests: Vec<RepoManifest>) -> Config {
    Config::new("/constellation".to_string(), manifests, ContextMode::Local, "v1".to_string(), vec!["v1".to_string()])
}


fn director() -> ChatDirector {
    let manifests = vec![manifest("Horror.Place", RepoTier::T1Core, &["moodContract"], &[("moodContract", "moods/{id}.json")])];
    let config = test_config(manifests.clone());
    ChatDirector::from_spine_and_manifests(config, SpineIndex::new("/constellation".to_string(), test_spine()), manifests)
}

fn request(intent: &str, path: &str) -> AiAuthoringRequest {
    AiAuthoringRequest {
        schema_ref: "schema://Horror.Place/moodcontract_v1.json".to_string(),
        intent: intent.to_string(),
        object_kind: "moodContract".to_string(),
        candidate_kinds: vec![],
        target_repo: "Horror.Place".to_string(),
        target_path: path.to_string(),
        phase: Phase::Bundles2,
        tier: Tier::T1,
        referenced_ids: vec![],
        shci_bands: None,
        intended_invariants: vec![],
        intended_metrics: vec![],
        extra_guidance: None,
        agent_profile_id: None,
    }
}

fn response(req: &AiAuthoringRequest, artifact: &str, timestamp: String, model_version: Option<&str>) -> AiAuthoringResponse {
    AiAuthoringResponse {
        schema_ref: req.schema_ref.clone(),
        artifact: artifact.to_string(),
        envelope: PrismEnvelope {
            envelope_version: "v1".to_string(),
            timestamp,
            schema_ref: req.schema_ref.clone(),
            deadledger_ref: None,
            zkp_commitment: None,
            prisma_meta: None,
            signature: None,
        },
        target_repo: "Horror.Place".to_string(),
        target_path: req.target_path.clone(),
        registry_diffs: vec![],
        additional_artifacts: vec![],
        generated_by: GeneratedBy {
            agent_id: "test-agent".to_string(),
            model_version: model_version.map(|s| s.to_string()),
            session_id: None,
        },
    }
}

const VALID_MOOD: &str = r#"{"id":"mood.valid.v1","tileClass":"spawn","archetype":"sanctuary","invariants":{"CIC":0.5,"MDI":0.4,"AOS":0.3,"DET":4.0,"LSG":0.7,"HVF":0.3,"SHCI":0.4},"metricsIntent":{"UEC":0.6,"EMD":0.1,"CDL":0.3,"ARR":0.7},"requiredHooks":["on_entry","on_exit"],"dreadForgePattern":{"stages":["outer","threshold","locus","rupture","fallout"],"modulation":{}}}"#;

const MOOD_SCHEMA: &str = r#"{"type":"object","required":["id","tileClass","archetype","invariants","metricsIntent"],"properties":{"id":{"type":"string"}}}"#;
const ANY_OBJECT_SCHEMA: &str = r#"{"type":"object"}"#;

#[test]
fn test_valid_response_passes_all_layers() {
    let director = director();
    let req = request("Create a valid mood contract", "moods/valid_v1.json");
    let resp = response(&req, VALID_MOOD, chrono::Utc::now().to_rfc3339(), Some("test-v1"));
    let result = validate_response(&director, &req, &resp, Some(MOOD_SCHEMA), vec![], None, None);
    assert!(result.is_ok(), "Valid response should pass all layers: {:?}", result.as_ref().err());
    let file = result.unwrap();
    assert_eq!(file.target_repo, "Horror.Place");
    assert_eq!(file.target_path, "moods/valid_v1.json");
    assert_eq!(file.content, VALID_MOOD);
    assert_eq!(file.content_hash, compute_content_hash(VALID_MOOD));
    assert_eq!(file.provenance.validator_version, "0.1.0");
    let layers: Vec<&str> = file.provenance.validation_trace.iter().map(|s| s.layer.as_str()).collect();
    assert_eq!(layers, vec!["Schema", "Invariants", "Manifest", "Envelope"]);
}

#[test]
fn test_schema_validation_failure() {
    let director = director();
    let req = request("Create mood with invalid schema", "moods/invalid_schema_v1.json");
    let resp = response(&req, r#"{"id":"mood.invalid_schema.v1"}"#, chrono::Utc::now().to_rfc3339(), None);
    let result = validate_response(&director, &req, &resp, Some(MOOD_SCHEMA), vec![], None, None);
    assert!(result.is_err(), "Missing required fields should fail schema validation");
    let err = result.unwrap_err();
    assert_eq!(err.code, "SCHEMA_VALIDATION_FAILED");
    assert!(!err.json_pointer.is_empty(), "Error should include JSON Pointer");
}

#[test]
fn test_envelope_validation_missing_timestamp() {
    let director = director();
    let req = request("Create mood with invalid envelope", "moods/bad_envelope_v1.json");
    let resp = response(&req, r#"{"id":"mood.bad_envelope.v1"}"#, String::new(), None);
    let result = validate_response(&director, &req, &resp, Some(ANY_OBJECT_SCHEMA), vec![], None, None);
    assert!(result.is_err(), "Empty timestamp should fail envelope validation");
    let err = result.unwrap_err();
    assert!(err.code.contains("ENVELOPE") || err.code.contains("TIMESTAMP"), "Error should reference envelope or timestamp");
}

#[test]
fn test_validation_error_includes_remediation() {
    let director = director();
    let req = request("Create mood to test remediation", "moods/remediation_test_v1.json");
    let resp = response(&req, r#"{"id":"mood.remediation_test.v1","invariants":{"DET":12.0}}"#, chrono::Utc::now().to_rfc3339(), None);
    let finding = InvariantFinding {
        code: "INVARIANT_OUT_OF_RANGE_DET".to_string(),
        message: "DET=12 outside allowed range [0, 7] for tier T1".to_string(),
        json_pointer: "/invariants/DET".to_string(),
        submitted_value: Some("12.0".to_string()),
        expected: Some("[0, 7]".to_string()),
        remediation: Some(Remediation {
            json_pointer: "/invariants/DET".to_string(),
            expected: "[0, 7]".to_string(),
            suggestion: "Lower DET into the tier range".to_string(),
        }),
        interaction_effects: vec![],
    };
    let result = validate_response(&director, &req, &resp, Some(ANY_OBJECT_SCHEMA), vec![finding], None, None);
    assert!(result.is_err());
    let err = result.unwrap_err();
    assert!(err.remediation.is_some(), "ValidationError should include remediation hint");
    let remediation = err.remediation.as_ref().unwrap();
    assert!(!remediation.suggestion.is_empty(), "Remediation should include actionable suggestion");
    assert_eq!(err.code, "INVARIANT_OUT_OF_RANGE_DET");
    assert_eq!(err.message, "1 validation error(s) found: DET=12 outside allowed range [0, 7] for tier T1");
    assert_eq!(err.json_pointer, "/invariants/DET");
}

#[test]
fn malformed_timestamp_is_an_envelope_failure() {
    let director = director();
    let req = request("Create mood", "moods/m.json");
    let resp = response(&req, r#"{"id":"mood.m"}"#, "yesterday".to_string(), None);
    let err = validate_response(&director, &req, &resp, Some(ANY_OBJECT_SCHEMA), vec![], None, None).unwrap_err();
    assert_eq!(err.code, "ENVELOPE_VALIDATION_FAILED");
    assert_eq!(err.json_pointer, "/envelope");
}

#[test]
fn unknown_target_repo_is_a_manifest_violation() {
    let director = director();
    let mut req = request("Create mood", "moods/m.json");
    req.target_repo = "Nowhere".to_string();
    let mut resp = response(&req, r#"{"id":"mood.m"}"#, chrono::Utc::now().to_rfc3339(), None);
    resp.target_repo = "Nowhere".to_string();
    let err = validate_response(&director, &req, &resp, Some(ANY_OBJECT_SCHEMA), vec![], None, None).unwrap_err();
    assert_eq!(err.code, "MANIFEST_POLICY_VIOLATION");
}

#[test]
fn content_hash_is_sha256_hex() {
    assert_eq!(compute_content_hash("{}"), "44136fa355b3678a1146ad16f7e8649e94fb4fc21fe77e8310c060f61caaff8a");
    assert_eq!(compute_content_hash(""), "e3b0c44298fc1c149afbf4c8996fb92427ae41e4649b934ca495991b7852b855");
}

#[test]
fn invariant_verdict_keeps_every_failed_code() {
    let director = director();
    let req = request("Create mood", "moods/m.json");
    let resp = response(&req, r#"{"id":"mood.m"}"#, chrono::Utc::now().to_rfc3339(), None);
    let finding = |code: &str, pointer: &str, message: &str| InvariantFinding {
        code: code.to_string(),
        message: message.to_string(),
        json_pointer: pointer.to_string(),
        submitted_value: None,
        expected: None,
        remediation: None,
        interaction_effects: vec![],
    };
    let findings = vec![
        finding("ERRDET_RANGE", "/invariants/DET", "DET value 8.500 is outside the allowed range [0.000, 7.000]"),
        finding("ERRCDL_RANGE", "/metricsIntent/CDL", "CDL value 0.200 is outside the allowed range [0.400, 1.000]"),
    ];
    let err = validate_response(&director, &req, &resp, Some(ANY_OBJECT_SCHEMA), findings, None, None).unwrap_err();
    assert_eq!(err.code, "ERRDET_RANGE,ERRCDL_RANGE");
    assert_eq!(err.json_pointer, "/invariants/DET");
    assert_eq!(err.message, "2 validation error(s) found: DET value 8.500 is outside the allowed range [0.000, 7.000]");
    assert!(err.code.contains("CDL") && err.code.contains("DET"));
}

#[test]
fn schema_layer_reports_engine_errors_and_missing_schemas() {
    assert!(schema_findings("s", Some(MOOD_SCHEMA), VALID_MOOD).is_ok());
    let findings = schema_findings("s", Some(MOOD_SCHEMA), r#"{"id":"mood.x","tileClass":"spawn"}"#).unwrap_err();
    assert_eq!(findings.len(), 3);
    assert!(findings.iter().all(|f| f.code == "SCHEMA_VALIDATION_ERROR"));
    assert!(findings[0].message.contains("archetype"));
    let findings = schema_findings("s", Some(MOOD_SCHEMA), r#"{"id":7,"tileClass":"spawn","archetype":"a","invariants":{},"metricsIntent":{}}"#).unwrap_err();
    assert_eq!(findings.len(), 1);
    assert_eq!(findings[0].json_pointer, "/id");
    let missing = schema_findings("schema://nowhere.json", None, VALID_MOOD).unwrap_err();
    assert_eq!(missing[0].code, "SCHEMA_NOT_FOUND");
    assert_eq!(missing[0].message, "Schema 'schema://nowhere.json' not found in spine");
    let broken = schema_findings("s", Some(r#"{"type":"nonsense"}"#), VALID_MOOD).unwrap_err();
    assert_eq!(broken[0].code, "SCHEMA_COMPILE_ERROR");
    let not_json = schema_findings("s", Some("{"), VALID_MOOD).unwrap_err();
    assert_eq!(not_json[0].code, "SCHEMA_COMPILE_ERROR");
    let director = director();
    let req = request("Create mood", "moods/m.json");
    let resp = response(&req, VALID_MOOD, chrono::Utc::now().to_rfc3339(), None);
    let err = validate_response(&director, &req, &resp, None, vec![], None, None).unwrap_err();
    assert_eq!(err.code, "SCHEMA_VALIDATION_FAILED");
    assert_eq!(err.remediation.unwrap().json_pointer, "/$schema");
}
