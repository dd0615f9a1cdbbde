use hpc_constellation::audit::{audit, generate_fixes, wiring_repo_to_manifest_key, AuditIssueKind, FixKind, FixPatch, WiringObjectKind, WiringPlan, WiringRepo};
use hpc_constellation::routing::{ObjectKindEntry, RepoManifest, RepoName, RepoPolicies, RouteEntry, RoutingSpine, Tier};

fn kind(name: &str) -> WiringObjectKind {
    WiringObjectKind { name: name.to_string(), role: "author".to_string(), phases: vec![], languages: vec![], wiring: "{}".to_string() }
}

fn repo(name: &str, tier: &str, kinds: &[&str]) -> WiringRepo {
    WiringRepo {
        repoName: name.to_string(),
        tier: tier.to_string(),
        kind: "contracts".to_string(),
        primaryRole: "authoring".to_string(),
        objectKinds: kinds.iter().map(|k| kind(k)).collect(),
        preferredLanguages: "[]".to_string(),
    }
}

fn plan(repos: Vec<WiringRepo>) -> WiringPlan {
    WiringPlan { schemaVersion: "1.0.0".to_string(), schemaRef: "wiring.json".to_string(), description: String::new(), repos }
}

fn manifest(name: RepoName, tier: Tier, kinds: &[&str]) -> RepoManifest {
    RepoManifest {
        schemaVersion: "1.0.0".to_string(),
        schemaRef: "repo-manifest-v1.json".to_string(),
        repoName: name,
        tier,
        kind: "contracts".to_string(),
        description: String::new(),
        visibility: "public".to_string(),
        implicitDeny: true,
        routingSpineRef: None,
        allowedObjectKinds: kinds.iter().map(|k| k.to_string()).collect(),
        defaultPaths: vec![],
        schemaWhitelist: vec![],
        policies: RepoPolicies::default(),
    }
}

fn route_to(kind: &str, repo: RepoName) -> RouteEntry {
    RouteEntry {
        id: format!("{}_route", kind),
        tier: Tier::T1Core,
        repo,
        schemaRef: "schemas/contracts/mood-contract-v1.json".to_string(),
        aiAuthoringKind: kind.to_string(),
        defaultTargetPath: "moods/".to_string(),
        registryRef: "registry/moods.ndjson".to_string(),
        invariants: vec![],
        metrics: vec![],
        constraints: vec![],
        phase: "Phase0Schema".to_string(),
        additionalPropertiesRequired: true,
    }
}

fn spine(kinds: &[&str]) -> RoutingSpine {
    RoutingSpine {
        routingSpineVersion: "1.0.0".to_string(),
        schemaRef: "spine.json".to_string(),
        updatedAt: String::new(),
        mathConstraints: vec![],
        objectKinds: kinds
            .iter()
            .map(|k| ObjectKindEntry { name: k.to_string(), description: String::new(), allowedTiers: vec![Tier::T1Core], routes: vec![] })
            .collect(),
    }
}

#[test]
fn manifest_keys_follow_repo_names() {
    assert_eq!(wiring_repo_to_manifest_key("Horror.Place"), "HorrorPlace");
    assert_eq!(wiring_repo_to_manifest_key("HorrorPlace-Atrocity-Seeds"), "HorrorPlaceAtrocitySeeds");
    assert_eq!(wiring_repo_to_manifest_key("Unknown-Repo"), "Unknown-Repo");
}

#[test]
fn consistent_plan_has_no_issues() {
    let w = plan(vec![repo("Horror.Place", "T1Core", &["moodContract"])]);
    let ms = vec![manifest(RepoName::HorrorPlace, Tier::T1Core, &["moodContract"])];
    let mut sp = spine(&["moodContract"]);
    sp.objectKinds[0].routes.push(route_to("moodContract", RepoName::HorrorPlace));
    let issues = audit(&w, &ms, &sp);
    assert!(issues.is_empty(), "{:?}", issues);
    let issues = audit(&w, &ms, &spine(&["moodContract"]));
    assert_eq!(issues.len(), 1);
    assert_eq!(issues[0].kind, AuditIssueKind::WiringRepoMissingInSpine);
    assert!(generate_fixes(&issues, &w).is_empty());
}

#[test]
fn missing_manifest_and_fix() {
    let w = plan(vec![repo("HorrorPlace-Atrocity-Seeds", "T2Vault", &["seedContractCard"])]);
    let issues = audit(&w, &[], &spine(&["seedContractCard"]));
    assert_eq!(issues[0].kind, AuditIssueKind::WiringMissingManifest);
    assert_eq!(
        issues[0].message,
        "Wiring lists repo HorrorPlace-Atrocity-Seeds but no corresponding manifest was found (key=HorrorPlaceAtrocitySeeds)."
    );
    let fixes = generate_fixes(&issues, &w);
    assert_eq!(fixes[0].kind, FixKind::ManifestAddMissingRepoManifest);
    match &fixes[0].patchValue {
        FixPatch::NewManifest { repo_name, tier, allowed_object_kinds, implicit_deny, .. } => {
            assert_eq!(repo_name, "HorrorPlace-Atrocity-Seeds");
            assert_eq!(tier, "T2Vault");
            assert_eq!(allowed_object_kinds, &vec!["seedContractCard".to_string()]);
            assert!(*implicit_deny);
        }
        other => panic!("unexpected: {:?}", other),
    }
}

#[test]
fn kind_mismatches_are_reported_both_ways() {
    let w = plan(vec![repo("Horror.Place", "T1Core", &["moodContract"])]);
    let ms = vec![manifest(RepoName::HorrorPlace, Tier::T1Core, &["eventContract"])];
    let issues = audit(&w, &ms, &spine(&["moodContract", "eventContract"]));
    let kinds: Vec<AuditIssueKind> = issues.iter().map(|i| i.kind).collect();
    assert!(kinds.contains(&AuditIssueKind::WiringObjectKindMissingInManifest));
    assert!(kinds.contains(&AuditIssueKind::ManifestObjectKindMissingInWiring));
    let fixes = generate_fixes(&issues, &w);
    let fix_kinds: Vec<FixKind> = fixes.iter().map(|f| f.kind).collect();
    assert_eq!(fix_kinds, vec![FixKind::ManifestAddAllowedObjectKind, FixKind::ManifestRemoveAllowedObjectKind]);
}

#[test]
fn one_fix_per_comparison_finding_and_per_repo_findings() {
    let w = plan(vec![
        repo("Horror.Place", "T1Core", &["moodContract", "seedContractCard"]),
        repo("HorrorPlace-Atrocity-Seeds", "T2Vault", &["seedContractCard"]),
    ]);
    let ms = vec![manifest(RepoName::HorrorPlace, Tier::T1Core, &["eventContract", "moodContract"])];
    let issues = audit(&w, &ms, &spine(&["moodContract", "eventContract"]));
    let comparisons = issues
        .iter()
        .filter(|i| {
            matches!(
                i.kind,
                AuditIssueKind::WiringMissingManifest
                    | AuditIssueKind::WiringTierMismatch
                    | AuditIssueKind::WiringObjectKindMissingInManifest
                    | AuditIssueKind::ManifestObjectKindMissingInWiring
            )
        })
        .count();
    assert!(issues.len() > comparisons, "spine findings are present too");
    assert_eq!(generate_fixes(&issues, &w).len(), comparisons);
    let for_repo = |kind: AuditIssueKind, repo: &str| -> Vec<Option<String>> {
        issues.iter().filter(|i| i.kind == kind && i.repoName.as_deref() == Some(repo)).map(|i| i.objectKind.clone()).collect()
    };
    assert_eq!(for_repo(AuditIssueKind::WiringObjectKindMissingInManifest, "Horror.Place"), vec![Some("seedContractCard".to_string())]);
    assert_eq!(for_repo(AuditIssueKind::ManifestObjectKindMissingInWiring, "Horror.Place"), vec![Some("eventContract".to_string())]);
    assert_eq!(for_repo(AuditIssueKind::WiringMissingManifest, "HorrorPlace-Atrocity-Seeds"), vec![None]);
    assert!(for_repo(AuditIssueKind::WiringObjectKindMissingInManifest, "HorrorPlace-Atrocity-Seeds").is_empty());
}
