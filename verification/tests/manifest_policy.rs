use hpc_constellation::director::chat_director::ChatDirector;
use hpc_constellation::director::config::{Config, ContextMode};
use hpc_constellation::director::errors::PhaseError;
use hpc_constellation::director::model::manifest_types::{AiRole, AuthoringHints, CrossRefPolicy, RepoManifest, RepoRules, Tier as RepoTier};
use hpc_constellation::director::model::request_types::AiAuthoringRequest;
use hpc_constellation::director::model::response_types::{AiAuthoringResponse, GeneratedBy, PrismEnvelope};
use hpc_constellation::director::model::spine_types::{ContractFamily as SpineFamily, Phase, SchemaSpine, Tier};
use hpc_constellation::director::phases::{check_phase_permission, plan_promotion, ContractFamily, PhasePermission};
use hpc_constellation::director::spine::SpineIndex;
use hpc_constellation::director::validate::manifests::{
    check_rwf_threshold, check_tier_policy, explain_route, validate_cross_refs, validate_manifests, validate_routing,
    ManifestContext, ManifestDiagnosticCode, RwfShortfall,
};

fn strings(items: &[&str]) -> Vec<String> {
    items.iter().map(|s| s.to_string()).collect()
}

fn manifest(name: &str, tier: RepoTier, kinds: &[&str]) -> RepoManifest {
    RepoManifest {
        schema_version: "1.0.0".to_string(),
        repo_name: name.to_string(),
        tier,
        allowed_object_kinds: strings(kinds),
        allowed_schemas: vec![],
        default_target_paths: vec![("moodContract".to_string(), "moods/{id}.json".to_string())],
        rules: RepoRules::default(),
        authoring_hints: AuthoringHints::default(),
        cross_ref_policy: CrossRefPolicy::default(),
        min_rwf_for_tier: None,
        target_rules: vec![],
        implicit_deny: true,
    }
}

fn request(kind: &str, repo: &str, phase: Phase, ids: &[&str]) -> AiAuthoringRequest {
    AiAuthoringRequest {
        schema_ref: "schema://Horror.Place/moodcontract_v1.json".to_string(),
        intent: "test".to_string(),
        object_kind: kind.to_string(),
        candidate_kinds: vec![],
        target_repo: repo.to_string(),
        target_path: "moods/x.json".to_string(),
        phase,
        tier: Tier::T1,
        referenced_ids: strings(ids),
        shci_bands: None,
        intended_invariants: vec![],
        intended_metrics: vec![],
        extra_guidance: None,
        agent_profile_id: None,
    }
}

fn response(repo: &str, extra: usize) -> AiAuthoringResponse {
    AiAuthoringResponse {
        schema_ref: "schema://Horror.Place/moodcontract_v1.json".to_string(),
        artifact: "{}".to_string(),
        envelope: PrismEnvelope {
            envelope_version: "v1".to_string(),
            timestamp: "2026-01-01T00:00:00Z".to_string(),
            schema_ref: "schema://Horror.Place/moodcontract_v1.json".to_string(),
            deadledger_ref: None,
            zkp_commitment: None,
            prisma_meta: None,
            signature: None,
        },
        target_repo: repo.to_string(),
        target_path: "moods/x.json".to_string(),
        registry_diffs: vec![],
        additional_artifacts: vec!["{}".to_string(); extra],
        generated_by: GeneratedBy { agent_id: "a".to_string(), model_version: None, session_id: None },
    }
}

fn spine() -> SchemaSpine {
    SchemaSpine {
        version: "v1".to_string(),
        id: String::new(),
        title: String::new(),
        description: String::new(),
        invariants: vec![],
        metrics: vec![],
        contract_families: vec![SpineFamily {
            name: "mood".to_string(),
            kinds: strings(&["moodContract"]),
            required_invariants: vec![],
            optional_invariants: vec![],
            required_metrics: vec![],
            optional_metrics: vec![],
            allowed_phases: vec![Phase::Bundles2],
            tier_restrictions: vec![],
        }],
        interaction_rules: vec![],
        safe_defaults: vec![],
    }
}

#[test]
fn unknown_target_repo_is_fatal() {
    let ms = vec![manifest("Horror.Place", RepoTier::T1Core, &["moodContract"])];
    let ctx = ManifestContext { manifests_by_repo: &ms };
    let r = validate_manifests(&ctx, &request("moodContract", "Nowhere", Phase::Bundles2, &[]), &response("Nowhere", 0), None);
    assert!(r.is_fatal);
    assert_eq!(r.diagnostics.len(), 1);
    assert_eq!(r.diagnostics[0].code, ManifestDiagnosticCode::InvalidTargetRepo);
    assert_eq!(r.diagnostics[0].message, "Target repo 'Nowhere' is not known in the current constellation.");
}

#[test]
fn policy_findings_in_order() {
    let mut m = manifest("Horror.Place", RepoTier::T1Core, &["moodContract"]);
    m.rules.one_file_per_request = true;
    m.rules.require_deadledger_ref = true;
    m.min_rwf_for_tier = Some(0.8f64.to_bits());
    m.authoring_hints.tier_rationale = Some("Tier 1 is public contract-only.".to_string());
    let ms = vec![m];
    let ctx = ManifestContext { manifests_by_repo: &ms };
    let shortfall = RwfShortfall { rwf: "0.500".to_string(), minimum: "0.800".to_string() };
    let r = validate_manifests(&ctx, &request("eventContract", "Horror.Place", Phase::Bundles2, &[]), &response("Horror.Place", 1), Some(shortfall));
    let codes: Vec<ManifestDiagnosticCode> = r.diagnostics.iter().map(|d| d.code).collect();
    assert_eq!(
        codes,
        vec![
            ManifestDiagnosticCode::ObjectKindNotAllowedInRepo,
            ManifestDiagnosticCode::OneFilePerRequestViolation,
            ManifestDiagnosticCode::MissingDeadledgerRef,
            ManifestDiagnosticCode::RwfBelowTierMinimum,
        ]
    );
    assert!(r.is_fatal);
    assert_eq!(r.diagnostics[3].message, "RWF score 0.500 is below the minimum 0.800 required for repo 'Horror.Place'.");
    assert_eq!(r.diagnostics[0].charter_rationale.as_deref(), Some("Tier 1 is public contract-only."));
}

#[test]
fn clean_response_has_no_findings() {
    let ms = vec![manifest("Horror.Place", RepoTier::T1Core, &["moodContract"])];
    let ctx = ManifestContext { manifests_by_repo: &ms };
    let r = validate_manifests(&ctx, &request("moodContract", "Horror.Place", Phase::Bundles2, &[]), &response("Horror.Place", 0), None);
    assert!(!r.is_fatal);
    assert!(r.diagnostics.is_empty());
}

#[test]
fn raw_content_in_t1_is_a_tier_violation() {
    let mut m = manifest("Horror.Place", RepoTier::T1Core, &["moodContract"]);
    m.rules.forbidden_fields = vec![(RepoTier::T1Core, strings(&["rawNarrative"]))];
    let d = check_tier_policy(&m, &request("rawNarrative", "Horror.Place", Phase::Bundles2, &[])).unwrap();
    assert_eq!(d.code, ManifestDiagnosticCode::TierPolicyViolation);
    assert_eq!(d.message, "Raw narrative content for 'rawNarrative' is not allowed in T1-core repo 'Horror.Place'.");
    assert!(check_tier_policy(&m, &request("moodContract", "Horror.Place", Phase::Bundles2, &[])).is_none());
    assert!(check_rwf_threshold(&m, None).is_none());
}

#[test]
fn cross_refs_need_permission() {
    let mut source = manifest("Horror.Place", RepoTier::T1Core, &["moodContract"]);
    let ms = vec![source.clone()];
    let ctx = ManifestContext { manifests_by_repo: &ms };
    assert_eq!(ctx.lookup_repo_for_id("region.backrooms").as_deref(), Some("HorrorPlace-Atrocity-Seeds"));
    assert_eq!(ctx.lookup_repo_for_id("bundle.x").as_deref(), Some("HorrorPlace-Black-Archivum"));
    assert_eq!(ctx.lookup_repo_for_id("mood.x"), None);
    assert!(ctx.find_manifest("Horror.Place").is_some());
    let req = request("moodContract", "Horror.Place", Phase::Bundles2, &["region.backrooms", "mood.local"]);
    let ds = validate_cross_refs(&source, &ctx, &req).unwrap();
    assert_eq!(ds.len(), 1);
    assert_eq!(ds[0].code, ManifestDiagnosticCode::CrossRepoRefNotAllowed);
    source.cross_ref_policy.allows_refs_to = strings(&["HorrorPlace-Atrocity-Seeds"]);
    assert!(validate_cross_refs(&source, &ctx, &req).is_none());
}

#[test]
fn routing_and_explanations() {
    let m = manifest("Horror.Place", RepoTier::T1Core, &["moodContract"]);
    let ok = validate_routing("moodContract", AiRole::Implementer, &m, None);
    assert!(ok.ok);
    let bad = validate_routing("seedContractCard", AiRole::Implementer, &m, None);
    assert!(!bad.ok);
    assert!(!bad.diagnostics.is_empty());
    let e = explain_route("moodContract", Some(RepoTier::T1Core), &m);
    assert_eq!(e.target_repo, "Horror.Place");
    assert_eq!(e.target_path_hint, "moods/{id}.json");
    assert_eq!(e.tier.as_deref(), Some("T1-core"));
    assert_eq!(explain_route("eventContract", None, &m).target_path_hint, "contracts/{objectKind}/{id}.json");
}

#[test]
fn phase_gates() {
    assert!(check_phase_permission(&request("moodContract", "r", Phase::Bundles2, &[]), ContractFamily::MoodContract).is_ok());
    assert!(check_phase_permission(&request("moodContract", "r", Phase::Registry1, &[]), ContractFamily::MoodContract).is_ok());
    match check_phase_permission(&request("moodContract", "r", Phase::LuaPolicy3, &[]), ContractFamily::MoodContract) {
        Err(PhaseError::PhaseForbidden { permission, diagnostic, .. }) => {
            assert_eq!(permission, PhasePermission::ReadOnlyRef);
            assert_eq!(diagnostic.code, "ERR_PHASE_READONLY");
        }
        other => panic!("unexpected: {:?}", other),
    }
    match check_phase_permission(&request("seedContractCard", "r", Phase::Adapters4, &[]), ContractFamily::SeedContractCard) {
        Err(PhaseError::PhaseForbidden { diagnostic, .. }) => assert_eq!(diagnostic.code, "ERR_PHASE_FORBIDDEN"),
        other => panic!("unexpected: {:?}", other),
    }
}

#[test]
fn promotions_follow_the_phase_sequence() {
    let ms = vec![manifest("Horror.Place", RepoTier::T1Core, &["moodContract"])];
    let req = request("moodContract", "Horror.Place", Phase::Schema0, &[]);
    let resp = response("Horror.Place", 0);
    let s = spine();
    assert!(plan_promotion(Phase::Schema0, Phase::Registry1, ContractFamily::MoodContract, &req, &resp, &s, &ms).is_ok());
    match plan_promotion(Phase::Schema0, Phase::Bundles2, ContractFamily::MoodContract, &req, &resp, &s, &ms) {
        Err(PhaseError::PhaseForbidden { diagnostic, .. }) => {
            assert_eq!(diagnostic.code, "ERR_INVALID_PROMOTION");
            assert_eq!(diagnostic.message, "Invalid promotion from Schema0 to Bundles2");
        }
        other => panic!("unexpected: {:?}", other),
    }
    let unknown = request("fictionalContract", "Horror.Place", Phase::Schema0, &[]);
    match plan_promotion(Phase::Schema0, Phase::Registry1, ContractFamily::MoodContract, &unknown, &resp, &s, &ms) {
        Err(PhaseError::PromotionBlocked { predicate_code, .. }) => assert_eq!(predicate_code, "PROM001"),
        other => panic!("unexpected: {:?}", other),
    }
    assert!(plan_promotion(Phase::Bundles2, Phase::LuaPolicy3, ContractFamily::MoodContract, &req, &resp, &s, &ms).is_ok());
}

#[test]
fn checklists_and_catalog() {
    let mut m = manifest("Horror.Place", RepoTier::T1Core, &["moodContract"]);
    m.rules.one_file_per_request = true;
    m.rules.max_file_size_bytes = Some(65536);
    let c = m.to_policy_checklist();
    assert_eq!(c.tier, "T1-core");
    let items: Vec<(&str, &str)> = c.items.iter().map(|i| (i.code.as_str(), i.description.as_str())).collect();
    assert_eq!(
        items,
        vec![
            ("ONE_FILE_PER_REQUEST", "Enforce exactly one file per authoring request."),
            ("MAX_FILE_SIZE", "Maximum file size is 65536 bytes."),
        ]
    );
    let config = Config::new("/c".to_string(), vec![m.clone()], ContextMode::CI, "v1".to_string(), strings(&["v1"]));
    let director = ChatDirector::from_spine_and_manifests(config, SpineIndex::new("/c".to_string(), spine()), vec![m]);
    assert_eq!(director.policy_checklist_for_repo("Horror.Place").unwrap().items.len(), 2);
    assert!(director.policy_checklist_for_repo("Elsewhere").is_none());
    let catalog = director.capability_catalog();
    assert_eq!(catalog.available_object_kinds, strings(&["moodContract"]));
    assert_eq!(catalog.phases.len(), 5);
    assert_eq!(catalog.available_repos[0].tier, "T1-core");
}
