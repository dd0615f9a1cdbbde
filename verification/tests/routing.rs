use hpc_constellation::routing::{
    validate_routing_system, MathConstraint, ObjectKindEntry, RepoManifest, RepoName, RepoPolicies,
    RouteEntry, RoutingErrorCode, RoutingSpine, Tier,
};

fn make_minimal_spine() -> RoutingSpine {
    RoutingSpine {
        routingSpineVersion: "1.0.0".to_string(),
        schemaRef: "schemas/hpc-routing-spine.schema.json".to_string(),
        updatedAt: "2026-04-30T00:00:00Z".to_string(),
        mathConstraints: vec![MathConstraint {
            id: "sprFromInvariants.v1".to_string(),
            description: "SPR derived from invariants".to_string(),
            appliesTo: vec!["moodContract".to_string()],
        }],
        objectKinds: vec![ObjectKindEntry {
            name: "moodContract".to_string(),
            description: "Mood contract".to_string(),
            allowedTiers: vec![Tier::T1Core],
            routes: vec![],
        }],
    }
}

fn make_minimal_manifest() -> RepoManifest {
    RepoManifest {
        schemaVersion: "1.0.0".to_string(),
        schemaRef: "https://horror.place/constellation/schemas/core/repo-manifest-v1.json".to_string(),
        repoName: RepoName::HorrorPlace,
        tier: Tier::T1Core,
        kind: "SCHEMA_SPINE_REPO".to_string(),
        description: "Test manifest".to_string(),
        visibility: "public".to_string(),
        implicitDeny: false,
        routingSpineRef: Some("spine/hpc-routing-spine-v1.json".to_string()),
        allowedObjectKinds: vec!["moodContract".to_string()],
        defaultPaths: Default::default(),
        schemaWhitelist: vec![],
        policies: RepoPolicies::default(),
    }
}

fn strings(items: &[&str]) -> Vec<String> {
    items.iter().map(|s| s.to_string()).collect()
}

#[allow(clippy::too_many_arguments)]
fn route(
    id: &str,
    repo: RepoName,
    target: &str,
    invariants: &[&str],
    metrics: &[&str],
    constraints: &[&str],
    phase: &str,
) -> RouteEntry {
    RouteEntry {
        id: id.to_string(),
        tier: Tier::T1Core,
        repo,
        schemaRef: "schemas/contracts/mood-contract-v1.json".to_string(),
        aiAuthoringKind: "moodContract".to_string(),
        defaultTargetPath: target.to_string(),
        registryRef: "registry/registry-moods.ndjson".to_string(),
        invariants: strings(invariants),
        metrics: strings(metrics),
        constraints: strings(constraints),
        phase: phase.to_string(),
        additionalPropertiesRequired: true,
    }
}

#[test]
fn test_valid_routing_system_returns_no_errors() {
    let mut spine = make_minimal_spine();
    let manifest = make_minimal_manifest();

    spine.objectKinds[0].routes.push(route(
        "moodContract_T1_core_Horror.Place",
        RepoName::HorrorPlace,
        "schemas/contracts/moods/",
        &["CIC", "AOS"],
        &["UEC", "EMD"],
        &["sprFromInvariants.v1"],
        "Phase0Schema",
    ));

    let errors = validate_routing_system(&[manifest], &spine);
    assert!(errors.is_empty(), "Expected no errors but got: {:?}", errors);
}

#[test]
fn test_duplicate_route_conflict_detected() {
    let mut spine = make_minimal_spine();

    spine.objectKinds[0].routes.push(route(
        "moodContract_T1_core_Horror.Place",
        RepoName::HorrorPlace,
        "schemas/contracts/moods/",
        &[],
        &[],
        &[],
        "Phase0Schema",
    ));
    spine.objectKinds[0].routes.push(route(
        "moodContract_T1_core_HorrorPlace_Spectral_Foundry",
        RepoName::HorrorPlaceSpectralFoundry,
        "moods/",
        &[],
        &[],
        &[],
        "Phase2Contracts",
    ));

    let manifest = make_minimal_manifest();
    let errors = validate_routing_system(&[manifest], &spine);

    assert!(!errors.is_empty());
    assert_eq!(errors[0].code, RoutingErrorCode::ERR_ROUTE_CONFLICT);
    assert!(errors[0].message.contains("moodContract"));
}

#[test]
fn test_implicit_deny_violation_detected() {
    let mut spine = make_minimal_spine();
    let mut manifest = make_minimal_manifest();

    manifest.implicitDeny = true;
    manifest.allowedObjectKinds = vec![];

    spine.objectKinds[0].routes.push(route(
        "moodContract_T1_core_Horror.Place",
        RepoName::HorrorPlace,
        "schemas/contracts/moods/",
        &[],
        &[],
        &[],
        "Phase0Schema",
    ));

    let errors = validate_routing_system(&[manifest], &spine);

    assert!(!errors.is_empty());
    assert_eq!(errors[0].code, RoutingErrorCode::ERR_MANIFEST_IMPLICIT_DENY);
    assert!(errors[0].message.contains("implicitDeny"));
}

#[test]
fn test_missing_constraint_detected() {
    let mut spine = make_minimal_spine();
    let manifest = make_minimal_manifest();

    spine.objectKinds[0].routes.push(route(
        "moodContract_T1_core_Horror.Place",
        RepoName::HorrorPlace,
        "schemas/contracts/moods/",
        &[],
        &[],
        &["nonExistentConstraint.v1"],
        "Phase0Schema",
    ));

    let errors = validate_routing_system(&[manifest], &spine);

    assert!(!errors.is_empty());
    assert_eq!(errors[0].code, RoutingErrorCode::ERR_CONSTRAINT_MISSING);
    assert!(errors[0].message.contains("nonExistentConstraint.v1"));
}

#[test]
fn conflict_message_lists_route_ids_in_debug_form() {
    let mut spine = make_minimal_spine();
    spine.objectKinds[0].routes.push(route("a", RepoName::HorrorPlace, "x/", &[], &[], &[], "P"));
    spine.objectKinds[0].routes.push(route("b", RepoName::HorrorPlace, "y/", &[], &[], &[], "P"));
    let errors = validate_routing_system(&[make_minimal_manifest()], &spine);
    assert_eq!(errors.len(), 1);
    assert_eq!(
        errors[0].message,
        "Route conflict for objectKind=moodContract tier=T1Core, routeIds=[\"a\", \"b\"]"
    );
    assert_eq!(errors[0].objectKind.as_deref(), Some("moodContract"));
    assert_eq!(errors[0].tier, Some(Tier::T1Core));
    assert!(errors[0].repo.is_none());
}

#[test]
fn missing_manifest_is_a_sovereignty_violation() {
    let mut spine = make_minimal_spine();
    spine.objectKinds[0].routes.push(route(
        "r1",
        RepoName::HorrorPlaceBlackArchivum,
        "x/",
        &[],
        &[],
        &[],
        "P",
    ));
    let errors = validate_routing_system(&[make_minimal_manifest()], &spine);
    assert_eq!(errors.len(), 1);
    assert_eq!(errors[0].code, RoutingErrorCode::ERR_SOVEREIGNTY_VIOLATION);
    assert_eq!(
        errors[0].message,
        "Route r1 targets repo HorrorPlaceBlackArchivum but no manifest was provided."
    );
    assert_eq!(errors[0].routeId.as_deref(), Some("r1"));
}

#[test]
fn object_kind_deny_and_tier_mismatch_are_both_reported() {
    let mut spine = make_minimal_spine();
    spine.objectKinds[0].routes.push(route("r1", RepoName::HorrorPlace, "x/", &[], &[], &[], "P"));
    let mut manifest = make_minimal_manifest();
    manifest.allowedObjectKinds = vec!["eventContract".to_string()];
    manifest.tier = Tier::T2Vault;
    let errors = validate_routing_system(&[manifest], &spine);
    assert_eq!(errors.len(), 2);
    assert_eq!(errors[0].code, RoutingErrorCode::ERR_MANIFEST_OBJECT_KIND_DENY);
    assert_eq!(
        errors[0].message,
        "Route r1 assigns objectKind=moodContract to repo HorrorPlace but manifest.allowedObjectKinds does not include it."
    );
    assert_eq!(errors[1].code, RoutingErrorCode::ERR_ROUTE_TIER_NOT_ALLOWED);
    assert_eq!(
        errors[1].message,
        "Route r1 uses tier=T1Core but manifest for repo HorrorPlace is tier=T2Vault."
    );
}

#[test]
fn resolve_route_returns_the_unique_route() {
    let mut spine = make_minimal_spine();
    spine.objectKinds[0].routes.push(route(
        "r1",
        RepoName::HorrorPlace,
        "schemas/contracts/moods/",
        &["CIC"],
        &["UEC"],
        &["sprFromInvariants.v1"],
        "Phase0Schema",
    ));
    let d = spine.resolve_route("moodContract", Tier::T1Core).unwrap();
    assert_eq!(d.objectKind, "moodContract");
    assert_eq!(d.tier, Tier::T1Core);
    assert_eq!(d.repo, RepoName::HorrorPlace);
    assert_eq!(d.defaultTargetPath, "schemas/contracts/moods/");
    assert_eq!(d.invariants, vec!["CIC".to_string()]);
    assert_eq!(d.metrics, vec!["UEC".to_string()]);
    assert_eq!(d.constraints, vec!["sprFromInvariants.v1".to_string()]);
    assert_eq!(d.phase, "Phase0Schema");
}

#[test]
fn resolve_route_not_found_and_conflict() {
    let mut spine = make_minimal_spine();
    let e = spine.resolve_route("moodContract", Tier::T1Core).unwrap_err();
    assert_eq!(e.code, RoutingErrorCode::ERR_ROUTE_NOT_FOUND);
    assert_eq!(e.message, "No route found for objectKind=moodContract tier=T1Core");

    spine.objectKinds[0].routes.push(route("a", RepoName::HorrorPlace, "x/", &[], &[], &[], "P"));
    spine.objectKinds[0].routes.push(route("b", RepoName::HorrorPlace, "y/", &[], &[], &[], "P"));
    let e = spine.resolve_route("moodContract", Tier::T1Core).unwrap_err();
    assert_eq!(e.code, RoutingErrorCode::ERR_ROUTE_CONFLICT);
    assert_eq!(e.message, "Multiple routes found for objectKind=moodContract tier=T1Core");

    // A tier not in allowedTiers is never matched.
    let e = spine.resolve_route("moodContract", Tier::T2Vault).unwrap_err();
    assert_eq!(e.code, RoutingErrorCode::ERR_ROUTE_NOT_FOUND);
}

#[test]
fn conflict_free_system_resolves_without_conflict() {
    let mut spine = make_minimal_spine();
    spine.objectKinds[0].routes.push(route("a", RepoName::HorrorPlace, "x/", &[], &[], &[], "P"));
    let errors = validate_routing_system(&[make_minimal_manifest()], &spine);
    assert!(errors.iter().all(|e| e.code != RoutingErrorCode::ERR_ROUTE_CONFLICT));
    assert!(spine.resolve_route("moodContract", Tier::T1Core).is_ok());
}

#[test]
fn errors_come_conflicts_first_and_missing_constraints_last() {
    let mut spine = make_minimal_spine();
    spine.objectKinds[0].routes.push(route("r1", RepoName::HorrorPlace, "moods/{id}.json", &[], &[], &["nope.v1", "sprFromInvariants.v1"], "2"));
    spine.objectKinds[0].routes.push(route("r2", RepoName::HorrorPlace, "moods/{id}.json", &[], &[], &["gone.v1"], "2"));
    spine.objectKinds[0].routes.push(route("r3", RepoName::HorrorPlaceAtrocitySeeds, "moods/{id}.json", &[], &[], &[], "2"));
    let errors = validate_routing_system(&[make_minimal_manifest()], &spine);
    let codes: Vec<RoutingErrorCode> = errors.iter().map(|e| e.code).collect();
    assert_eq!(
        codes,
        vec![
            RoutingErrorCode::ERR_ROUTE_CONFLICT,
            RoutingErrorCode::ERR_SOVEREIGNTY_VIOLATION,
            RoutingErrorCode::ERR_CONSTRAINT_MISSING,
            RoutingErrorCode::ERR_CONSTRAINT_MISSING,
        ]
    );
    assert!(errors[0].repo.is_none() && errors[0].routeId.is_none() && errors[0].objectKind.is_some());
    let sovereignty_for_r3 = errors.iter().filter(|e| e.routeId.as_deref() == Some("r3")).count();
    assert_eq!(sovereignty_for_r3, 1);
}
