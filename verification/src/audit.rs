//! Consistency audit of the constellation wiring plan against the repo
//! manifests and the routing spine, and the fixes it suggests.
use vstd::prelude::*;

use crate::routing::{repo_debug, repo_debug_name, tier_debug, tier_debug_name, ObjectKindEntry, RepoManifest, RepoName, RoutingSpine};
use crate::text::{append_new, contains_string, has_sub, str_contains, str_eq, views};

verus! {

/// One object kind a repo is wired for.
#[derive(Debug, Clone)]
pub struct WiringObjectKind {
    pub name: String,
    pub role: String,
    pub phases: Vec<String>,
    pub languages: Vec<String>,
    /// The wiring block, as JSON text.
    pub wiring: String,
}

/// One repo of the wiring plan.
#[derive(Debug, Clone)]
pub struct WiringRepo {
    pub repoName: String,
    pub tier: String,
    pub kind: String,
    pub primaryRole: String,
    pub objectKinds: Vec<WiringObjectKind>,
    /// The preferred languages, as JSON text.
    pub preferredLanguages: String,
}

/// The constellation wiring plan.
#[derive(Debug, Clone)]
pub struct WiringPlan {
    pub schemaVersion: String,
    pub schemaRef: String,
    pub description: String,
    pub repos: Vec<WiringRepo>,
}

/// Kinds of audit findings.
#[derive(Debug, Clone, Copy, PartialEq, Eq, Structural)]
pub enum AuditIssueKind {
    WiringMissingManifest,
    WiringTierMismatch,
    WiringObjectKindMissingInManifest,
    ManifestObjectKindMissingInWiring,
    WiringRepoMissingInSpine,
    WiringObjectKindMissingInSpine,
    SpineRouteRepoMissingInWiring,
}

/// One audit finding.
#[derive(Debug, Clone)]
pub struct AuditIssue {
    pub kind: AuditIssueKind,
    pub message: String,
    pub repoName: Option<String>,
    pub objectKind: Option<String>,
    pub tier: Option<String>,
}

/// Abstract value of an audit finding.
pub type IssueView = (AuditIssueKind, Seq<char>, Option<Seq<char>>, Option<Seq<char>>, Option<Seq<char>>);

/// The character view of an optional string.
pub open spec fn ov(o: Option<String>) -> Option<Seq<char>> {
    match o {
        Some(s) => Some(s@),
        None => None,
    }
}

impl View for AuditIssue {
    type V = IssueView;

    open spec fn view(&self) -> IssueView {
        (self.kind, self.message@, ov(self.repoName), ov(self.objectKind), ov(self.tier))
    }
}

/// The views of a list of findings.
pub open spec fn issue_views(s: Seq<AuditIssue>) -> Seq<IssueView> {
    s.map_values(|i: AuditIssue| i@)
}

/// The manifest key (the repo name's variant name) for a wiring repo name.
pub open spec fn manifest_key_of(name: Seq<char>) -> Seq<char> {
    if name == "Horror.Place"@ {
        "HorrorPlace"@
    } else if name == "HorrorPlace-Constellation-Contracts"@ {
        "HorrorPlaceConstellationContracts"@
    } else if name == "HorrorPlace-Codebase-of-Death"@ {
        "HorrorPlaceCodebaseOfDeath"@
    } else if name == "HorrorPlace-Black-Archivum"@ {
        "HorrorPlaceBlackArchivum"@
    } else if name == "HorrorPlace-Spectral-Foundry"@ {
        "HorrorPlaceSpectralFoundry"@
    } else if name == "HorrorPlace-Atrocity-Seeds"@ {
        "HorrorPlaceAtrocitySeeds"@
    } else if name == "Horror.Place-Orchestrator"@ {
        "HorrorPlaceOrchestrator"@
    } else if name == "HorrorPlace-Dead-Ledger-Network"@ {
        "HorrorPlaceDeadLedgerNetwork"@
    } else if name == "HorrorPlace-RotCave"@ {
        "HorrorPlaceRotCave"@
    } else if name == "HorrorPlace-Obscura-Nexus"@ {
        "HorrorPlaceObscuraNexus"@
    } else if name == "HorrorPlace-Liminal-Continuum"@ {
        "HorrorPlaceLiminalContinuum"@
    } else if name == "HorrorPlace-Process-Gods-Research"@ {
        "HorrorPlaceProcessGodsResearch"@
    } else if name == "HorrorPlace-Redacted-Chronicles"@ {
        "HorrorPlaceRedactedChronicles"@
    } else if name == "HorrorPlace-Neural-Resonance-Lab"@ {
        "HorrorPlaceNeuralResonanceLab"@
    } else {
        name
    }
}

/// The manifest key for a wiring repo name.
pub fn wiring_repo_to_manifest_key(name: &str) -> (r: String)
    ensures
        r@ == manifest_key_of(name@),
{
    let key = if str_eq(name, "Horror.Place") {
        "HorrorPlace"
    } else if str_eq(name, "HorrorPlace-Constellation-Contracts") {
        "HorrorPlaceConstellationContracts"
    } else if str_eq(name, "HorrorPlace-Codebase-of-Death") {
        "HorrorPlaceCodebaseOfDeath"
    } else if str_eq(name, "HorrorPlace-Black-Archivum") {
        "HorrorPlaceBlackArchivum"
    } else if str_eq(name, "HorrorPlace-Spectral-Foundry") {
        "HorrorPlaceSpectralFoundry"
    } else if str_eq(name, "HorrorPlace-Atrocity-Seeds") {
        "HorrorPlaceAtrocitySeeds"
    } else if str_eq(name, "Horror.Place-Orchestrator") {
        "HorrorPlaceOrchestrator"
    } else if str_eq(name, "HorrorPlace-Dead-Ledger-Network") {
        "HorrorPlaceDeadLedgerNetwork"
    } else if str_eq(name, "HorrorPlace-RotCave") {
        "HorrorPlaceRotCave"
    } else if str_eq(name, "HorrorPlace-Obscura-Nexus") {
        "HorrorPlaceObscuraNexus"
    } else if str_eq(name, "HorrorPlace-Liminal-Continuum") {
        "HorrorPlaceLiminalContinuum"
    } else if str_eq(name, "HorrorPlace-Process-Gods-Research") {
        "HorrorPlaceProcessGodsResearch"
    } else if str_eq(name, "HorrorPlace-Redacted-Chronicles") {
        "HorrorPlaceRedactedChronicles"
    } else if str_eq(name, "HorrorPlace-Neural-Resonance-Lab") {
        "HorrorPlaceNeuralResonanceLab"
    } else {
        name
    };
    String::from_str(key)
}

/// The manifest registered under `key` (its repo name's variant name); a
/// later manifest with the same key replaces an earlier one.
pub open spec fn manifest_by_key(ms: Seq<RepoManifest>, key: Seq<char>) -> Option<RepoManifest>
    decreases ms.len(),
{
    if ms.len() == 0 {
        None
    } else if repo_debug(ms.last().repoName) == key {
        Some(ms.last())
    } else {
        manifest_by_key(ms.drop_last(), key)
    }
}

/// Index of the manifest registered under `key`.
fn find_manifest_by_key(ms: &[RepoManifest], key: &str) -> (r: Option<usize>)
    ensures
        match r {
            None => manifest_by_key(ms@, key@) is None,
            Some(i) => i < ms@.len() && manifest_by_key(ms@, key@) == Some(ms@[i as int]),
        },
{
    let mut i: usize = ms.len();
    assert(ms@.take(ms@.len() as int) =~= ms@);
    while i > 0
        invariant
            i <= ms@.len(),
            manifest_by_key(ms@, key@) == manifest_by_key(ms@.take(i as int), key@),
        decreases i,
    {
        assert(ms@.take(i as int).drop_last() =~= ms@.take(i - 1));
        if str_eq(repo_debug_name(ms[i - 1].repoName), key) {
            return Some(i - 1);
        }
        i = i - 1;
    }
    None
}

/// The distinct repos that routes of the spine target (their variant
/// names), in order of first appearance.
pub open spec fn spine_repo_keys(oks: Seq<ObjectKindEntry>) -> Seq<Seq<char>>
    decreases oks.len(),
{
    if oks.len() == 0 {
        seq![]
    } else {
        append_new(spine_repo_keys(oks.drop_last()), oks.last().routes@.map_values(|r: crate::routing::RouteEntry| repo_debug(r.repo)))
    }
}

/// The object-kind names of the spine.
pub open spec fn spine_kind_names(oks: Seq<ObjectKindEntry>) -> Seq<Seq<char>> {
    oks.map_values(|o: ObjectKindEntry| o.name@)
}

/// Findings for wired object kinds that the manifest does not allow.
pub open spec fn unlisted_kinds(m: RepoManifest, repo: WiringRepo, oks: Seq<WiringObjectKind>) -> Seq<IssueView>
    decreases oks.len(),
{
    if oks.len() == 0 {
        seq![]
    } else {
        let rest = unlisted_kinds(m, repo, oks.drop_last());
        let name = oks.last().name@;
        if !views(m.allowedObjectKinds@).contains(name) {
            rest.push((
                AuditIssueKind::WiringObjectKindMissingInManifest,
                "Repo "@ + repo.repoName@ + " wiring declares objectKind="@ + name
                    + " but manifest.allowedObjectKinds does not include it."@,
                Some(repo.repoName@),
                Some(name),
                Some(repo.tier@),
            ))
        } else {
            rest
        }
    }
}

/// The object-kind names of a wiring repo.
pub open spec fn wired_names(repo: WiringRepo) -> Seq<Seq<char>> {
    repo.objectKinds@.map_values(|o: WiringObjectKind| o.name@)
}

/// Findings for allowed object kinds that the wiring of the repo lacks.
pub open spec fn unwired_kinds(repo: WiringRepo, mks: Seq<String>) -> Seq<IssueView>
    decreases mks.len(),
{
    if mks.len() == 0 {
        seq![]
    } else {
        let rest = unwired_kinds(repo, mks.drop_last());
        let mk = mks.last()@;
        if !wired_names(repo).contains(mk) {
            rest.push((
                AuditIssueKind::ManifestObjectKindMissingInWiring,
                "Repo "@ + repo.repoName@ + " manifest.allowedObjectKinds includes "@ + mk
                    + " but wiring plan for this repo does not."@,
                Some(repo.repoName@),
                Some(mk),
                Some(repo.tier@),
            ))
        } else {
            rest
        }
    }
}

/// The manifest findings for one wiring repo.
pub open spec fn repo_manifest_issues(ms: Seq<RepoManifest>, repo: WiringRepo) -> Seq<IssueView> {
    let key = manifest_key_of(repo.repoName@);
    match manifest_by_key(ms, key) {
        None => seq![(
            AuditIssueKind::WiringMissingManifest,
            "Wiring lists repo "@ + repo.repoName@ + " but no corresponding manifest was found (key="@ + key + ")."@,
            Some(repo.repoName@),
            None,
            Some(repo.tier@),
        )],
        Some(m) => {
            let tier = if !has_sub(tier_debug(m.tier), repo.tier@) {
                seq![(
                    AuditIssueKind::WiringTierMismatch,
                    "Tier mismatch for repo "@ + repo.repoName@ + ": wiring tier="@ + repo.tier@ + " vs manifest tier="@
                        + tier_debug(m.tier) + "."@,
                    Some(repo.repoName@),
                    None,
                    Some(repo.tier@),
                )]
            } else {
                seq![]
            };
            tier + unlisted_kinds(m, repo, repo.objectKinds@) + unwired_kinds(repo, m.allowedObjectKinds@)
        },
    }
}

/// The manifest findings of all wiring repos, in order.
pub open spec fn manifest_issues(ms: Seq<RepoManifest>, repos: Seq<WiringRepo>) -> Seq<IssueView>
    decreases repos.len(),
{
    if repos.len() == 0 {
        seq![]
    } else {
        manifest_issues(ms, repos.drop_last()) + repo_manifest_issues(ms, repos.last())
    }
}

/// Findings for wired object kinds that the spine has no entry for.
pub open spec fn kinds_missing_in_spine(kinds: Seq<Seq<char>>, repo: WiringRepo, oks: Seq<WiringObjectKind>) -> Seq<IssueView>
    decreases oks.len(),
{
    if oks.len() == 0 {
        seq![]
    } else {
        let rest = kinds_missing_in_spine(kinds, repo, oks.drop_last());
        let name = oks.last().name@;
        if !kinds.contains(name) {
            rest.push((
                AuditIssueKind::WiringObjectKindMissingInSpine,
                "Wiring declares objectKind="@ + name + " for repo "@ + repo.repoName@
                    + " but the routing spine has no entry with this name."@,
                Some(repo.repoName@),
                Some(name),
                Some(repo.tier@),
            ))
        } else {
            rest
        }
    }
}

/// The spine findings for one wiring repo.
pub open spec fn repo_spine_issues(keys: Seq<Seq<char>>, kinds: Seq<Seq<char>>, repo: WiringRepo) -> Seq<IssueView> {
    let key = manifest_key_of(repo.repoName@);
    let missing = if !keys.contains(key) {
        seq![(
            AuditIssueKind::WiringRepoMissingInSpine,
            "Repo "@ + repo.repoName@ + " (key="@ + key
                + ") appears in wiring plan but never appears as a route target in the routing spine."@,
            Some(repo.repoName@),
            None,
            Some(repo.tier@),
        )]
    } else {
        seq![]
    };
    missing + kinds_missing_in_spine(kinds, repo, repo.objectKinds@)
}

/// The spine findings of all wiring repos, in order.
pub open spec fn spine_issues(keys: Seq<Seq<char>>, kinds: Seq<Seq<char>>, repos: Seq<WiringRepo>) -> Seq<IssueView>
    decreases repos.len(),
{
    if repos.len() == 0 {
        seq![]
    } else {
        spine_issues(keys, kinds, repos.drop_last()) + repo_spine_issues(keys, kinds, repos.last())
    }
}

/// The manifest keys of the wiring repos.
pub open spec fn wiring_keys(repos: Seq<WiringRepo>) -> Seq<Seq<char>> {
    repos.map_values(|r: WiringRepo| manifest_key_of(r.repoName@))
}

/// Findings for spine route targets that the wiring plan lacks.
pub open spec fn orphan_issues(spine_keys: Seq<Seq<char>>, wired: Seq<Seq<char>>) -> Seq<IssueView>
    decreases spine_keys.len(),
{
    if spine_keys.len() == 0 {
        seq![]
    } else {
        let rest = orphan_issues(spine_keys.drop_last(), wired);
        let k = spine_keys.last();
        if !wired.contains(k) {
            rest.push((
                AuditIssueKind::SpineRouteRepoMissingInWiring,
                "Routing spine references repo key "@ + k + " that does not appear in the wiring plan."@,
                None,
                None,
                None,
            ))
        } else {
            rest
        }
    }
}

/// All findings of an audit: per wiring repo its manifest findings, then per
/// wiring repo its spine findings, then the spine route targets missing from
/// the wiring plan.
pub open spec fn audit_issues(wiring: WiringPlan, ms: Seq<RepoManifest>, spine: RoutingSpine) -> Seq<IssueView> {
    let keys = spine_repo_keys(spine.objectKinds@);
    let kinds = spine_kind_names(spine.objectKinds@);
    manifest_issues(ms, wiring.repos@) + spine_issues(keys, kinds, wiring.repos@) + orphan_issues(keys, wiring_keys(wiring.repos@))
}

proof fn lemma_issue_push(s: Seq<AuditIssue>, i: AuditIssue)
    ensures
        issue_views(s.push(i)) == issue_views(s).push(i@),
{
    assert(issue_views(s.push(i)) =~= issue_views(s).push(i@));
}

proof fn lemma_issues_append(a: Seq<AuditIssue>, b: Seq<AuditIssue>)
    ensures
        issue_views(a + b) == issue_views(a) + issue_views(b),
{
    assert(issue_views(a + b) =~= issue_views(a) + issue_views(b));
}

fn issue(kind: AuditIssueKind, message: String, repo: Option<String>, object_kind: Option<String>, tier: Option<String>) -> (r: AuditIssue)
    ensures
        r@ == (kind, message@, ov(repo), ov(object_kind), ov(tier)),
{
    AuditIssue { kind, message, repoName: repo, objectKind: object_kind, tier }
}

/// Whether a wiring repo is wired for `name`.
fn wires_kind(repo: &WiringRepo, name: &str) -> (r: bool)
    ensures
        r == wired_names(*repo).contains(name@),
{
    let oks = &repo.objectKinds;
    let mut i: usize = 0;
    while i < oks.len()
        invariant
            i <= oks.len(),
            oks@ == repo.objectKinds@,
            forall|k: int| 0 <= k < i ==> oks@[k].name@ != name@,
        decreases oks.len() - i,
    {
        if str_eq(oks[i].name.as_str(), name) {
            proof {
                assert(wired_names(*repo)[i as int] == name@);
            }
            return true;
        }
        i = i + 1;
    }
    proof {
        if wired_names(*repo).contains(name@) {
            let k = choose|k: int| 0 <= k < wired_names(*repo).len() && wired_names(*repo)[k] == name@;
            assert(oks@[k].name@ == name@);
        }
    }
    false
}

fn check_repo_manifest(manifests: &[RepoManifest], repo: &WiringRepo) -> (r: Vec<AuditIssue>)
    ensures
        issue_views(r@) == repo_manifest_issues(manifests@, *repo),
{
    let mut out: Vec<AuditIssue> = Vec::new();
    let key = wiring_repo_to_manifest_key(repo.repoName.as_str());
    let mi = match find_manifest_by_key(manifests, key.as_str()) {
        Some(i) => i,
        None => {
            let mut msg = String::from_str("Wiring lists repo ");
            msg.append(repo.repoName.as_str());
            msg.append(" but no corresponding manifest was found (key=");
            msg.append(key.as_str());
            msg.append(").");
            let it = issue(AuditIssueKind::WiringMissingManifest, msg, Some(repo.repoName.clone()), None, Some(repo.tier.clone()));
            proof { lemma_issue_push(out@, it); }
            out.push(it);
            proof {
                assert(issue_views(out@) =~= repo_manifest_issues(manifests@, *repo));
            }
            return out;
        },
    };
    let m = &manifests[mi];
    let manifest_tier = tier_debug_name(m.tier);
    if !str_contains(manifest_tier, repo.tier.as_str()) {
        let mut msg = String::from_str("Tier mismatch for repo ");
        msg.append(repo.repoName.as_str());
        msg.append(": wiring tier=");
        msg.append(repo.tier.as_str());
        msg.append(" vs manifest tier=");
        msg.append(manifest_tier);
        msg.append(".");
        let it = issue(AuditIssueKind::WiringTierMismatch, msg, Some(repo.repoName.clone()), None, Some(repo.tier.clone()));
        proof { lemma_issue_push(out@, it); }
        out.push(it);
    }
    let ghost head = issue_views(out@);
    let oks = &repo.objectKinds;
    let mut i: usize = 0;
    while i < oks.len()
        invariant
            i <= oks.len(),
            oks@ == repo.objectKinds@,
            issue_views(out@) == head + unlisted_kinds(*m, *repo, oks@.take(i as int)),
        decreases oks.len() - i,
    {
        proof {
            assert(oks@.take(i + 1).drop_last() =~= oks@.take(i as int));
        }
        let name = &oks[i].name;
        if !contains_string(&m.allowedObjectKinds, name.as_str()) {
            let mut msg = String::from_str("Repo ");
            msg.append(repo.repoName.as_str());
            msg.append(" wiring declares objectKind=");
            msg.append(name.as_str());
            msg.append(" but manifest.allowedObjectKinds does not include it.");
            let it = issue(
                AuditIssueKind::WiringObjectKindMissingInManifest,
                msg,
                Some(repo.repoName.clone()),
                Some(name.clone()),
                Some(repo.tier.clone()),
            );
            proof { lemma_issue_push(out@, it); }
            out.push(it);
        }
        i = i + 1;
    }
    proof {
        assert(oks@.take(oks.len() as int) =~= oks@);
    }
    let ghost mid = issue_views(out@);
    let mks = &m.allowedObjectKinds;
    let mut j: usize = 0;
    while j < mks.len()
        invariant
            j <= mks.len(),
            mks@ == m.allowedObjectKinds@,
            issue_views(out@) == mid + unwired_kinds(*repo, mks@.take(j as int)),
        decreases mks.len() - j,
    {
        proof {
            assert(mks@.take(j + 1).drop_last() =~= mks@.take(j as int));
        }
        let mk = &mks[j];
        if !wires_kind(repo, mk.as_str()) {
            let mut msg = String::from_str("Repo ");
            msg.append(repo.repoName.as_str());
            msg.append(" manifest.allowedObjectKinds includes ");
            msg.append(mk.as_str());
            msg.append(" but wiring plan for this repo does not.");
            let it = issue(
                AuditIssueKind::ManifestObjectKindMissingInWiring,
                msg,
                Some(repo.repoName.clone()),
                Some(mk.clone()),
                Some(repo.tier.clone()),
            );
            proof { lemma_issue_push(out@, it); }
            out.push(it);
        }
        j = j + 1;
    }
    proof {
        assert(mks@.take(mks.len() as int) =~= mks@);
        assert(issue_views(out@) =~= repo_manifest_issues(manifests@, *repo));
    }
    out
}

fn check_repo_spine(keys: &Vec<String>, kinds: &Vec<String>, repo: &WiringRepo) -> (r: Vec<AuditIssue>)
    ensures
        issue_views(r@) == repo_spine_issues(views(keys@), views(kinds@), *repo),
{
    let mut out: Vec<AuditIssue> = Vec::new();
    let key = wiring_repo_to_manifest_key(repo.repoName.as_str());
    if !contains_string(keys, key.as_str()) {
        let mut msg = String::from_str("Repo ");
        msg.append(repo.repoName.as_str());
        msg.append(" (key=");
        msg.append(key.as_str());
        msg.append(") appears in wiring plan but never appears as a route target in the routing spine.");
        let it = issue(AuditIssueKind::WiringRepoMissingInSpine, msg, Some(repo.repoName.clone()), None, Some(repo.tier.clone()));
        proof { lemma_issue_push(out@, it); }
        out.push(it);
    }
    let ghost head = issue_views(out@);
    let oks = &repo.objectKinds;
    let mut i: usize = 0;
    while i < oks.len()
        invariant
            i <= oks.len(),
            oks@ == repo.objectKinds@,
            issue_views(out@) == head + kinds_missing_in_spine(views(kinds@), *repo, oks@.take(i as int)),
        decreases oks.len() - i,
    {
        proof {
            assert(oks@.take(i + 1).drop_last() =~= oks@.take(i as int));
        }
        let name = &oks[i].name;
        if !contains_string(kinds, name.as_str()) {
            let mut msg = String::from_str("Wiring declares objectKind=");
            msg.append(name.as_str());
            msg.append(" for repo ");
            msg.append(repo.repoName.as_str());
            msg.append(" but the routing spine has no entry with this name.");
            let it = issue(
                AuditIssueKind::WiringObjectKindMissingInSpine,
                msg,
                Some(repo.repoName.clone()),
                Some(name.clone()),
                Some(repo.tier.clone()),
            );
            proof { lemma_issue_push(out@, it); }
            out.push(it);
        }
        i = i + 1;
    }
    proof {
        assert(oks@.take(oks.len() as int) =~= oks@);
        assert(issue_views(out@) =~= repo_spine_issues(views(keys@), views(kinds@), *repo));
    }
    out
}

/// The distinct route targets of the spine, in order of first appearance.
fn collect_spine_repo_keys(oks: &Vec<ObjectKindEntry>) -> (r: Vec<String>)
    ensures
        views(r@) == spine_repo_keys(oks@),
{
    let mut keys: Vec<String> = Vec::new();
    let mut i: usize = 0;
    while i < oks.len()
        invariant
            i <= oks.len(),
            views(keys@) == spine_repo_keys(oks@.take(i as int)),
        decreases oks.len() - i,
    {
        proof {
            assert(oks@.take(i + 1).drop_last() =~= oks@.take(i as int));
        }
        let mut names: Vec<String> = Vec::new();
        let routes = &oks[i].routes;
        let mut j: usize = 0;
        while j < routes.len()
            invariant
                j <= routes.len(),
                views(names@) == routes@.take(j as int).map_values(|r: crate::routing::RouteEntry| repo_debug(r.repo)),
            decreases routes.len() - j,
        {
            let ghost before = names@;
            names.push(String::from_str(repo_debug_name(routes[j].repo)));
            proof {
                let f = |r: crate::routing::RouteEntry| repo_debug(r.repo);
                assert(routes@.take(j + 1) =~= routes@.take(j as int).push(routes@[j as int]));
                assert(routes@.take(j + 1).map_values(f) =~= routes@.take(j as int).map_values(f).push(f(routes@[j as int])));
                assert(views(names@) =~= views(before).push(repo_debug(routes@[j as int].repo)));
            }
            j = j + 1;
        }
        proof {
            assert(routes@.take(routes.len() as int) =~= routes@);
        }
        crate::text::extend_unique(&mut keys, &names);
        i = i + 1;
    }
    proof {
        assert(oks@.take(oks.len() as int) =~= oks@);
    }
    keys
}

/// Audit the wiring plan against the manifests and the routing spine.
///
/// Manifests are keyed by their repo name's variant name; a later manifest
/// with the same key replaces an earlier one. The route targets missing from
/// the wiring plan are reported in order of first appearance in the spine.
pub fn audit(wiring: &WiringPlan, manifests: &[RepoManifest], spine: &RoutingSpine) -> (r: Vec<AuditIssue>)
    ensures
        issue_views(r@) == audit_issues(*wiring, manifests@, *spine),
{
    let keys = collect_spine_repo_keys(&spine.objectKinds);
    let mut kinds: Vec<String> = Vec::new();
    let mut i: usize = 0;
    while i < spine.objectKinds.len()
        invariant
            i <= spine.objectKinds.len(),
            views(kinds@) == spine_kind_names(spine.objectKinds@.take(i as int)),
        decreases spine.objectKinds.len() - i,
    {
        let ghost before = kinds@;
        kinds.push(spine.objectKinds[i].name.clone());
        proof {
            let f = |o: ObjectKindEntry| o.name@;
            assert(spine.objectKinds@.take(i + 1) =~= spine.objectKinds@.take(i as int).push(spine.objectKinds@[i as int]));
            assert(views(kinds@) =~= views(before).push(spine.objectKinds@[i as int].name@));
        }
        i = i + 1;
    }
    proof {
        assert(spine.objectKinds@.take(spine.objectKinds.len() as int) =~= spine.objectKinds@);
    }
    let repos = &wiring.repos;
    let mut issues: Vec<AuditIssue> = Vec::new();
    proof {
        assert(issue_views(issues@) =~= manifest_issues(manifests@, repos@.take(0)));
    }
    let mut k: usize = 0;
    while k < repos.len()
        invariant
            k <= repos.len(),
            repos@ == wiring.repos@,
            issue_views(issues@) == manifest_issues(manifests@, repos@.take(k as int)),
        decreases repos.len() - k,
    {
        proof {
            assert(repos@.take(k + 1).drop_last() =~= repos@.take(k as int));
        }
        let mut more = check_repo_manifest(manifests, &repos[k]);
        let ghost a = issues@;
        let ghost b = more@;
        issues.append(&mut more);
        proof { lemma_issues_append(a, b); }
        k = k + 1;
    }
    proof {
        assert(repos@.take(repos.len() as int) =~= repos@);
    }
    let ghost part1 = issue_views(issues@);
    let mut k: usize = 0;
    while k < repos.len()
        invariant
            k <= repos.len(),
            repos@ == wiring.repos@,
            issue_views(issues@) == part1 + spine_issues(views(keys@), views(kinds@), repos@.take(k as int)),
        decreases repos.len() - k,
    {
        proof {
            assert(repos@.take(k + 1).drop_last() =~= repos@.take(k as int));
        }
        let mut more = check_repo_spine(&keys, &kinds, &repos[k]);
        let ghost a = issues@;
        let ghost b = more@;
        issues.append(&mut more);
        proof { lemma_issues_append(a, b); }
        k = k + 1;
    }
    proof {
        assert(repos@.take(repos.len() as int) =~= repos@);
    }
    let ghost part2 = issue_views(issues@);
    let mut wired: Vec<String> = Vec::new();
    let mut k: usize = 0;
    while k < repos.len()
        invariant
            k <= repos.len(),
            repos@ == wiring.repos@,
            views(wired@) == wiring_keys(repos@.take(k as int)),
        decreases repos.len() - k,
    {
        let ghost before = wired@;
        let key = wiring_repo_to_manifest_key(repos[k].repoName.as_str());
        wired.push(key);
        proof {
            assert(repos@.take(k + 1) =~= repos@.take(k as int).push(repos@[k as int]));
            assert(views(wired@) =~= views(before).push(key@));
        }
        k = k + 1;
    }
    proof {
        assert(repos@.take(repos.len() as int) =~= repos@);
    }
    let mut k: usize = 0;
    while k < keys.len()
        invariant
            k <= keys.len(),
            views(wired@) == wiring_keys(wiring.repos@),
            issue_views(issues@) == part2 + orphan_issues(views(keys@).take(k as int), views(wired@)),
        decreases keys.len() - k,
    {
        proof {
            assert(views(keys@).take(k + 1).drop_last() =~= views(keys@).take(k as int));
        }
        let key = &keys[k];
        if !contains_string(&wired, key.as_str()) {
            let mut msg = String::from_str("Routing spine references repo key ");
            msg.append(key.as_str());
            msg.append(" that does not appear in the wiring plan.");
            let it = issue(AuditIssueKind::SpineRouteRepoMissingInWiring, msg, None, None, None);
            proof { lemma_issue_push(issues@, it); }
            issues.push(it);
        }
        k = k + 1;
    }
    proof {
        assert(views(keys@).take(keys.len() as int) =~= views(keys@));
        assert(issue_views(issues@) =~= audit_issues(*wiring, manifests@, *spine));
    }
    issues
}


// ---------------------------------------------------------------------
// Fix suggestions
// ---------------------------------------------------------------------

/// Kinds of suggested fixes.
#[derive(Debug, Clone, Copy, PartialEq, Eq, Structural)]
pub enum FixKind {
    ManifestAddAllowedObjectKind,
    ManifestRemoveAllowedObjectKind,
    ManifestAddMissingRepoManifest,
    ManifestAdjustTier,
    WiringAddObjectKindForRepo,
    WiringRemoveObjectKindForRepo,
    WiringAdjustTier,
    WiringAddRepo,
    WiringRemoveRepo,
    SpineAddObjectKindEntry,
    SpineRemoveObjectKindEntry,
    SpineAddRepoReference,
    SpineRemoveRepoReference,
}

/// The JSON patch of a fix.
#[derive(Debug, Clone)]
pub enum FixPatch {
    /// `{"op": op, "value": value}`.
    Op { op: String, value: String },
    /// A skeleton manifest for a repo that has none.
    NewManifest {
        schema_version: String,
        schema_ref: String,
        repo_name: String,
        tier: String,
        kind: String,
        description: String,
        visibility: String,
        implicit_deny: bool,
        allowed_object_kinds: Vec<String>,
    },
}

/// A suggested fix for one audit finding.
#[derive(Debug, Clone)]
pub struct FixSuggestion {
    pub kind: FixKind,
    pub targetFile: String,
    pub description: String,
    pub jsonPointer: String,
    pub patchValue: FixPatch,
}

/// The audit report.
#[derive(Debug)]
pub struct AuditReport {
    pub wiring_file: String,
    pub spine_file: String,
    pub manifest_files: Vec<String>,
    pub issue_count: usize,
    pub issues: Vec<AuditIssue>,
    pub fixes: Vec<FixSuggestion>,
}

/// Abstract value of a patch.
pub enum PatchView {
    Op(Seq<char>, Seq<char>),
    NewManifest(Seq<char>, Seq<char>, Seq<Seq<char>>),
}

/// Abstract value of a fix: kind, target file, description, pointer, patch.
pub type FixView = (FixKind, Seq<char>, Seq<char>, Seq<char>, PatchView);

/// The abstract value of a patch; a new manifest is viewed by repo, tier and
/// allowed object kinds, and carries the fixed skeleton fields.
pub open spec fn patch_view(p: FixPatch) -> PatchView {
    match p {
        FixPatch::Op { op, value } => PatchView::Op(op@, value@),
        FixPatch::NewManifest { repo_name, tier, allowed_object_kinds, .. } => PatchView::NewManifest(
            repo_name@,
            tier@,
            views(allowed_object_kinds@),
        ),
    }
}

/// A new-manifest patch carries the skeleton's fixed fields.
pub open spec fn skeleton_fields_ok(p: FixPatch) -> bool {
    match p {
        FixPatch::NewManifest { schema_version, schema_ref, kind, description, visibility, implicit_deny, .. } => {
            &&& schema_version@ == "1.0.0"@
            &&& schema_ref@ == "schemas/core/repo-manifest-v1.json"@
            &&& kind@ == "TODO_KIND"@
            &&& description@ == "TODO: fill description"@
            &&& visibility@ == "private"@
            &&& implicit_deny
        },
        _ => true,
    }
}

impl View for FixSuggestion {
    type V = FixView;

    open spec fn view(&self) -> FixView {
        (self.kind, self.targetFile@, self.description@, self.jsonPointer@, patch_view(self.patchValue))
    }
}

/// The views of a list of fixes.
pub open spec fn fix_views(s: Seq<FixSuggestion>) -> Seq<FixView> {
    s.map_values(|f: FixSuggestion| f@)
}

/// The manifest file of a repo.
pub open spec fn manifest_file(repo: Seq<char>) -> Seq<char> {
    "manifests/repo-manifest.hpc."@ + repo + ".json"@
}

/// The distinct object kinds wired for the last wiring repo named `name`.
pub open spec fn wired_kinds_for(repos: Seq<WiringRepo>, name: Seq<char>) -> Seq<Seq<char>>
    decreases repos.len(),
{
    if repos.len() == 0 {
        seq![]
    } else if repos.last().repoName@ == name {
        append_new(Seq::<Seq<char>>::empty(), wired_names(repos.last()))
    } else {
        wired_kinds_for(repos.drop_last(), name)
    }
}

/// The fix suggested for one finding, if any.
pub open spec fn fix_for(i: IssueView, repos: Seq<WiringRepo>) -> Option<FixView> {
    let (kind, _msg, repo, object_kind, tier) = i;
    match kind {
        AuditIssueKind::WiringObjectKindMissingInManifest => match (repo, object_kind) {
            (Some(r), Some(k)) => Some((
                FixKind::ManifestAddAllowedObjectKind,
                manifest_file(r),
                "Add objectKind="@ + k + " to allowedObjectKinds for repo "@ + r + " so it matches the wiring plan."@,
                "/allowedObjectKinds"@,
                PatchView::Op("add"@, k),
            )),
            _ => None,
        },
        AuditIssueKind::ManifestObjectKindMissingInWiring => match (repo, object_kind) {
            (Some(r), Some(k)) => Some((
                FixKind::ManifestRemoveAllowedObjectKind,
                manifest_file(r),
                "Remove objectKind="@ + k + " from allowedObjectKinds for repo "@ + r + " or add it to the wiring plan."@,
                "/allowedObjectKinds"@,
                PatchView::Op("remove"@, k),
            )),
            _ => None,
        },
        AuditIssueKind::WiringMissingManifest => match repo {
            Some(r) => Some((
                FixKind::ManifestAddMissingRepoManifest,
                manifest_file(r),
                "Create a new manifest for repo "@ + r + " based on wiring plan (allowedObjectKinds from wiring)."@,
                Seq::<char>::empty(),
                PatchView::NewManifest(r, match tier {
                    Some(t) => t,
                    None => "T1-core"@,
                }, wired_kinds_for(repos, r)),
            )),
            None => None,
        },
        AuditIssueKind::WiringTierMismatch => match (repo, tier) {
            (Some(r), Some(t)) => Some((
                FixKind::ManifestAdjustTier,
                manifest_file(r),
                "Align manifest tier with wiring plan for repo "@ + r + ". Consider changing manifest.tier to "@ + t
                    + " or updating wiring."@,
                "/tier"@,
                PatchView::Op("replace"@, t),
            )),
            _ => None,
        },
        _ => None,
    }
}

/// The fixes suggested for a list of findings, in order.
pub open spec fn fixes_for(issues: Seq<IssueView>, repos: Seq<WiringRepo>) -> Seq<FixView>
    decreases issues.len(),
{
    if issues.len() == 0 {
        seq![]
    } else {
        let rest = fixes_for(issues.drop_last(), repos);
        match fix_for(issues.last(), repos) {
            Some(f) => rest.push(f),
            None => rest,
        }
    }
}

fn manifest_file_for(repo: &str) -> (r: String)
    ensures
        r@ == manifest_file(repo@),
{
    let mut f = String::from_str("manifests/repo-manifest.hpc.");
    f.append(repo);
    f.append(".json");
    f
}

/// The distinct object kinds wired for the last wiring repo named `name`.
fn kinds_wired_for(repos: &Vec<WiringRepo>, name: &str) -> (r: Vec<String>)
    ensures
        views(r@) == wired_kinds_for(repos@, name@),
{
    let mut i: usize = repos.len();
    assert(repos@.take(repos.len() as int) =~= repos@);
    while i > 0
        invariant
            i <= repos.len(),
            wired_kinds_for(repos@, name@) == wired_kinds_for(repos@.take(i as int), name@),
        decreases i,
    {
        assert(repos@.take(i as int).drop_last() =~= repos@.take(i - 1));
        if str_eq(repos[i - 1].repoName.as_str(), name) {
            let repo = &repos[i - 1];
            let mut names: Vec<String> = Vec::new();
            let mut k: usize = 0;
            while k < repo.objectKinds.len()
                invariant
                    k <= repo.objectKinds.len(),
                    views(names@) == wired_names(*repo).take(k as int),
                decreases repo.objectKinds.len() - k,
            {
                let ghost before = names@;
                names.push(repo.objectKinds[k].name.clone());
                proof {
                    let f = |o: WiringObjectKind| o.name@;
                    assert(views(names@) =~= views(before).push(repo.objectKinds@[k as int].name@));
                    assert(repo.objectKinds@.take(k + 1) =~= repo.objectKinds@.take(k as int).push(repo.objectKinds@[k as int]));
                    assert(wired_names(*repo).take(k + 1) =~= wired_names(*repo).take(k as int).push(repo.objectKinds@[k as int].name@));
                }
                k = k + 1;
            }
            proof {
                assert(wired_names(*repo).take(repo.objectKinds.len() as int) =~= wired_names(*repo));
            }
            let mut out: Vec<String> = Vec::new();
            proof {
                assert(views(out@) =~= Seq::<Seq<char>>::empty());
            }
            crate::text::extend_unique(&mut out, &names);
            return out;
        }
        i = i - 1;
    }
    let out: Vec<String> = Vec::new();
    proof {
        assert(views(out@) =~= Seq::<Seq<char>>::empty());
    }
    out
}

fn op_fix(kind: FixKind, repo: &str, description: String, pointer: &str, op: &str, value: &str) -> (r: FixSuggestion)
    ensures
        r@ == (kind, manifest_file(repo@), description@, pointer@, PatchView::Op(op@, value@)),
        skeleton_fields_ok(r.patchValue),
{
    FixSuggestion {
        kind,
        targetFile: manifest_file_for(repo),
        description,
        jsonPointer: String::from_str(pointer),
        patchValue: FixPatch::Op { op: String::from_str(op), value: String::from_str(value) },
    }
}

/// The fix for one finding, if any.
fn fix_for_issue(issue: &AuditIssue, repos: &Vec<WiringRepo>) -> (r: Option<FixSuggestion>)
    ensures
        match fix_for(issue@, repos@) {
            None => r is None,
            Some(f) => r matches Some(x) && x@ == f && skeleton_fields_ok(x.patchValue),
        },
{
    match issue.kind {
        AuditIssueKind::WiringObjectKindMissingInManifest => match (&issue.repoName, &issue.objectKind) {
            (Some(r), Some(k)) => {
                let mut d = String::from_str("Add objectKind=");
                d.append(k.as_str());
                d.append(" to allowedObjectKinds for repo ");
                d.append(r.as_str());
                d.append(" so it matches the wiring plan.");
                Some(op_fix(FixKind::ManifestAddAllowedObjectKind, r.as_str(), d, "/allowedObjectKinds", "add", k.as_str()))
            },
            _ => None,
        },
        AuditIssueKind::ManifestObjectKindMissingInWiring => match (&issue.repoName, &issue.objectKind) {
            (Some(r), Some(k)) => {
                let mut d = String::from_str("Remove objectKind=");
                d.append(k.as_str());
                d.append(" from allowedObjectKinds for repo ");
                d.append(r.as_str());
                d.append(" or add it to the wiring plan.");
                Some(op_fix(FixKind::ManifestRemoveAllowedObjectKind, r.as_str(), d, "/allowedObjectKinds", "remove", k.as_str()))
            },
            _ => None,
        },
        AuditIssueKind::WiringMissingManifest => match &issue.repoName {
            Some(r) => {
                let mut d = String::from_str("Create a new manifest for repo ");
                d.append(r.as_str());
                d.append(" based on wiring plan (allowedObjectKinds from wiring).");
                let tier = match &issue.tier {
                    Some(t) => t.clone(),
                    None => String::from_str("T1-core"),
                };
                Some(FixSuggestion {
                    kind: FixKind::ManifestAddMissingRepoManifest,
                    targetFile: manifest_file_for(r.as_str()),
                    description: d,
                    jsonPointer: String::new(),
                    patchValue: FixPatch::NewManifest {
                        schema_version: String::from_str("1.0.0"),
                        schema_ref: String::from_str("schemas/core/repo-manifest-v1.json"),
                        repo_name: r.clone(),
                        tier,
                        kind: String::from_str("TODO_KIND"),
                        description: String::from_str("TODO: fill description"),
                        visibility: String::from_str("private"),
                        implicit_deny: true,
                        allowed_object_kinds: kinds_wired_for(repos, r.as_str()),
                    },
                })
            },
            None => None,
        },
        AuditIssueKind::WiringTierMismatch => match (&issue.repoName, &issue.tier) {
            (Some(r), Some(t)) => {
                let mut d = String::from_str("Align manifest tier with wiring plan for repo ");
                d.append(r.as_str());
                d.append(". Consider changing manifest.tier to ");
                d.append(t.as_str());
                d.append(" or updating wiring.");
                Some(op_fix(FixKind::ManifestAdjustTier, r.as_str(), d, "/tier", "replace", t.as_str()))
            },
            _ => None,
        },
        _ => None,
    }
}

/// Suggest fixes for the findings: allowed object kinds to add or remove,
/// a skeleton manifest for a repo without one (allowing the object kinds the
/// wiring plan gives the repo), and a manifest tier to align with the wiring.
pub fn generate_fixes(issues: &[AuditIssue], wiring: &WiringPlan) -> (r: Vec<FixSuggestion>)
    ensures
        fix_views(r@) == fixes_for(issue_views(issues@), wiring.repos@),
        forall|i: int| 0 <= i < r@.len() ==> skeleton_fields_ok(#[trigger] r@[i].patchValue),
{
    let mut fixes: Vec<FixSuggestion> = Vec::new();
    let mut i: usize = 0;
    proof {
        assert(fix_views(fixes@) =~= fixes_for(issue_views(issues@).take(0), wiring.repos@));
    }
    while i < issues.len()
        invariant
            i <= issues@.len(),
            fix_views(fixes@) == fixes_for(issue_views(issues@).take(i as int), wiring.repos@),
            forall|k: int| 0 <= k < fixes@.len() ==> skeleton_fields_ok(#[trigger] fixes@[k].patchValue),
        decreases issues@.len() - i,
    {
        proof {
            assert(issue_views(issues@).take(i + 1).drop_last() =~= issue_views(issues@).take(i as int));
        }
        if let Some(f) = fix_for_issue(&issues[i], &wiring.repos) {
            let ghost before = fixes@;
            fixes.push(f);
            proof {
                assert(fix_views(fixes@) =~= fix_views(before).push(f@));
            }
        }
        i = i + 1;
    }
    proof {
        assert(issue_views(issues@).take(issues@.len() as int) =~= issue_views(issues@));
    }
    fixes
}

/// `issues` holds a finding of kind `kind` for wiring repo `repo` and object
/// kind `ok` (`None` for a repo-level finding).
pub open spec fn flags(issues: Seq<IssueView>, kind: AuditIssueKind, repo: Seq<char>, ok: Option<Seq<char>>) -> bool {
    exists|i: int| 0 <= i < issues.len() && (#[trigger] issues[i]).0 == kind && issues[i].2 == Some(repo) && issues[i].3 == ok
}

/// The wiring repos have pairwise distinct names.
pub open spec fn distinct_repo_names(repos: Seq<WiringRepo>) -> bool {
    forall|i: int, j: int| 0 <= i < j < repos.len() ==> (#[trigger] repos[i]).repoName@ != (#[trigger] repos[j]).repoName@
}

/// The kinds of finding that compare a wiring repo with its manifest.
pub open spec fn manifest_comparison(kind: AuditIssueKind) -> bool {
    ||| kind == AuditIssueKind::WiringMissingManifest
    ||| kind == AuditIssueKind::WiringTierMismatch
    ||| kind == AuditIssueKind::WiringObjectKindMissingInManifest
    ||| kind == AuditIssueKind::ManifestObjectKindMissingInWiring
}

proof fn lemma_flags_concat(a: Seq<IssueView>, b: Seq<IssueView>, kind: AuditIssueKind, repo: Seq<char>, ok: Option<Seq<char>>)
    ensures
        flags(a + b, kind, repo, ok) <==> flags(a, kind, repo, ok) || flags(b, kind, repo, ok),
{
    if flags(a + b, kind, repo, ok) {
        let i = choose|i: int| 0 <= i < (a + b).len() && (#[trigger] (a + b)[i]).0 == kind && (a + b)[i].2 == Some(repo) && (a + b)[i].3 == ok;
        if i < a.len() {
            assert((a + b)[i] == a[i]);
        } else {
            assert((a + b)[i] == b[i - a.len()]);
        }
    }
    if flags(a, kind, repo, ok) {
        let i = choose|i: int| 0 <= i < a.len() && (#[trigger] a[i]).0 == kind && a[i].2 == Some(repo) && a[i].3 == ok;
        assert((a + b)[i] == a[i]);
    }
    if flags(b, kind, repo, ok) {
        let i = choose|i: int| 0 <= i < b.len() && (#[trigger] b[i]).0 == kind && b[i].2 == Some(repo) && b[i].3 == ok;
        assert((a + b)[a.len() + i] == b[i]);
    }
}

proof fn lemma_flags_push(a: Seq<IssueView>, x: IssueView, kind: AuditIssueKind, repo: Seq<char>, ok: Option<Seq<char>>)
    ensures
        flags(a.push(x), kind, repo, ok) <==> flags(a, kind, repo, ok) || (x.0 == kind && x.2 == Some(repo) && x.3 == ok),
{
    assert(a.push(x) == a + seq![x]);
    lemma_flags_concat(a, seq![x], kind, repo, ok);
    if x.0 == kind && x.2 == Some(repo) && x.3 == ok {
        assert(seq![x][0] == x);
    }
}

/// The unlisted-kind findings name exactly the wired kinds the manifest does
/// not allow.
proof fn lemma_unlisted_flags(m: RepoManifest, repo: WiringRepo, oks: Seq<WiringObjectKind>, kind: AuditIssueKind, ok: Option<Seq<char>>)
    ensures
        flags(unlisted_kinds(m, repo, oks), kind, repo.repoName@, ok) <==> kind == AuditIssueKind::WiringObjectKindMissingInManifest
            && ok is Some && (exists|j: int| 0 <= j < oks.len() && (#[trigger] oks[j]).name@ == ok->0)
            && !views(m.allowedObjectKinds@).contains(ok->0),
    decreases oks.len(),
{
    if oks.len() > 0 {
        let init = oks.drop_last();
        lemma_unlisted_flags(m, repo, init, kind, ok);
        let name = oks.last().name@;
        let rest = unlisted_kinds(m, repo, init);
        if !views(m.allowedObjectKinds@).contains(name) {
            let x = (
                AuditIssueKind::WiringObjectKindMissingInManifest,
                "Repo "@ + repo.repoName@ + " wiring declares objectKind="@ + name
                    + " but manifest.allowedObjectKinds does not include it."@,
                Some(repo.repoName@),
                Some(name),
                Some(repo.tier@),
            );
            lemma_flags_push(rest, x, kind, repo.repoName@, ok);
        }
        if let Some(n) = ok {
            if exists|j: int| 0 <= j < oks.len() && (#[trigger] oks[j]).name@ == n {
                let j = choose|j: int| 0 <= j < oks.len() && (#[trigger] oks[j]).name@ == n;
                if j < init.len() {
                    assert(init[j] == oks[j]);
                } else {
                    assert(oks[j] == oks.last());
                }
            }
            if exists|j: int| 0 <= j < init.len() && (#[trigger] init[j]).name@ == n {
                let j = choose|j: int| 0 <= j < init.len() && (#[trigger] init[j]).name@ == n;
                assert(init[j] == oks[j]);
            }
            assert(oks[oks.len() - 1] == oks.last());
        }
    }
}

/// The unwired-kind findings name exactly the allowed kinds the wiring lacks.
proof fn lemma_unwired_flags(repo: WiringRepo, mks: Seq<String>, kind: AuditIssueKind, ok: Option<Seq<char>>)
    ensures
        flags(unwired_kinds(repo, mks), kind, repo.repoName@, ok) <==> kind == AuditIssueKind::ManifestObjectKindMissingInWiring
            && ok is Some && views(mks).contains(ok->0) && !wired_names(repo).contains(ok->0),
    decreases mks.len(),
{
    if mks.len() > 0 {
        let init = mks.drop_last();
        lemma_unwired_flags(repo, init, kind, ok);
        let mk = mks.last()@;
        let rest = unwired_kinds(repo, init);
        let x = (
            AuditIssueKind::ManifestObjectKindMissingInWiring,
            "Repo "@ + repo.repoName@ + " manifest.allowedObjectKinds includes "@ + mk
                + " but wiring plan for this repo does not."@,
            Some(repo.repoName@),
            Some(mk),
            Some(repo.tier@),
        );
        if !wired_names(repo).contains(mk) {
            assert(unwired_kinds(repo, mks) == rest.push(x));
            lemma_flags_push(rest, x, kind, repo.repoName@, ok);
        } else {
            assert(unwired_kinds(repo, mks) == rest);
        }
        assert(views(mks) =~= views(init).push(mk));
        assert(views(mks)[init.len() as int] == mk);
        if ok is Some {
            let n = ok->0;
            if views(mks).contains(n) {
                let j = choose|j: int| 0 <= j < views(mks).len() && views(mks)[j] == n;
                if j < init.len() {
                    assert(views(init)[j] == views(mks)[j]);
                    assert(views(init).contains(n));
                } else {
                    assert(n == mk);
                }
            }
            if views(init).contains(n) {
                let j = choose|j: int| 0 <= j < views(init).len() && views(init)[j] == n;
                assert(views(mks)[j] == views(init)[j]);
            }
        }
    } else {
        assert(unwired_kinds(repo, mks).len() == 0);
    }
}

/// What one repo's manifest findings flag.
proof fn lemma_repo_manifest_flags(ms: Seq<RepoManifest>, repo: WiringRepo, kind: AuditIssueKind, ok: Option<Seq<char>>)
    ensures
        forall|i: int| 0 <= i < repo_manifest_issues(ms, repo).len() ==> (#[trigger] repo_manifest_issues(ms, repo)[i]).2 == Some(repo.repoName@),
        manifest_by_key(ms, manifest_key_of(repo.repoName@)) is None ==> (flags(repo_manifest_issues(ms, repo), kind, repo.repoName@, ok)
            <==> kind == AuditIssueKind::WiringMissingManifest && ok is None),
        manifest_by_key(ms, manifest_key_of(repo.repoName@)) matches Some(m) ==> (
            (kind == AuditIssueKind::WiringObjectKindMissingInManifest || kind == AuditIssueKind::ManifestObjectKindMissingInWiring
                || kind == AuditIssueKind::WiringMissingManifest) ==> (flags(repo_manifest_issues(ms, repo), kind, repo.repoName@, ok) <==> {
                ||| (kind == AuditIssueKind::WiringObjectKindMissingInManifest && ok is Some && wired_names(repo).contains(ok->0)
                    && !views(m.allowedObjectKinds@).contains(ok->0))
                ||| (kind == AuditIssueKind::ManifestObjectKindMissingInWiring && ok is Some && views(m.allowedObjectKinds@).contains(ok->0)
                    && !wired_names(repo).contains(ok->0))
            })),
{
    let key = manifest_key_of(repo.repoName@);
    let issues = repo_manifest_issues(ms, repo);
    match manifest_by_key(ms, key) {
        None => {
            if kind == AuditIssueKind::WiringMissingManifest && ok is None {
                assert(issues[0].0 == kind);
            }
        },
        Some(m) => {
            let tier = if !has_sub(tier_debug(m.tier), repo.tier@) {
                seq![(
                    AuditIssueKind::WiringTierMismatch,
                    "Tier mismatch for repo "@ + repo.repoName@ + ": wiring tier="@ + repo.tier@ + " vs manifest tier="@
                        + tier_debug(m.tier) + "."@,
                    Some(repo.repoName@),
                    None,
                    Some(repo.tier@),
                )]
            } else {
                seq![]
            };
            let a = unlisted_kinds(m, repo, repo.objectKinds@);
            let b = unwired_kinds(repo, m.allowedObjectKinds@);
            assert(issues == tier + a + b);
            lemma_flags_concat(tier + a, b, kind, repo.repoName@, ok);
            lemma_flags_concat(tier, a, kind, repo.repoName@, ok);
            lemma_unlisted_flags(m, repo, repo.objectKinds@, kind, ok);
            lemma_unwired_flags(repo, m.allowedObjectKinds@, kind, ok);
            if flags(tier, kind, repo.repoName@, ok) {
                let i = choose|i: int| 0 <= i < tier.len() && (#[trigger] tier[i]).0 == kind && tier[i].2 == Some(repo.repoName@) && tier[i].3 == ok;
            }
            lemma_unlisted_names_in_repo(m, repo, repo.objectKinds@);
            lemma_unwired_names_in_repo(repo, m.allowedObjectKinds@);
            assert forall|i: int| 0 <= i < issues.len() implies (#[trigger] issues[i]).2 == Some(repo.repoName@) by {
                if i < tier.len() {
                    assert(issues[i] == tier[i]);
                } else if i < tier.len() + a.len() {
                    assert(issues[i] == a[i - tier.len()]);
                } else {
                    assert(issues[i] == b[i - tier.len() - a.len()]);
                }
            }
            if let Some(n) = ok {
                if wired_names(repo).contains(n) {
                    let j = choose|j: int| 0 <= j < wired_names(repo).len() && wired_names(repo)[j] == n;
                    assert(repo.objectKinds@[j].name@ == n);
                }
                if exists|j: int| 0 <= j < repo.objectKinds@.len() && (#[trigger] repo.objectKinds@[j]).name@ == n {
                    let j = choose|j: int| 0 <= j < repo.objectKinds@.len() && (#[trigger] repo.objectKinds@[j]).name@ == n;
                    assert(wired_names(repo)[j] == n);
                }
            }
        },
    }
}

proof fn lemma_unlisted_names_in_repo(m: RepoManifest, repo: WiringRepo, oks: Seq<WiringObjectKind>)
    ensures
        forall|i: int| 0 <= i < unlisted_kinds(m, repo, oks).len() ==> (#[trigger] unlisted_kinds(m, repo, oks)[i]).2 == Some(repo.repoName@),
    decreases oks.len(),
{
    if oks.len() > 0 {
        lemma_unlisted_names_in_repo(m, repo, oks.drop_last());
    }
}

proof fn lemma_unwired_names_in_repo(repo: WiringRepo, mks: Seq<String>)
    ensures
        forall|i: int| 0 <= i < unwired_kinds(repo, mks).len() ==> (#[trigger] unwired_kinds(repo, mks)[i]).2 == Some(repo.repoName@),
    decreases mks.len(),
{
    if mks.len() > 0 {
        lemma_unwired_names_in_repo(repo, mks.drop_last());
    }
}

/// The manifest findings of the wiring flag `kind` for `name` exactly when
/// some repo's own manifest findings do.
proof fn lemma_manifest_issues_flags(ms: Seq<RepoManifest>, repos: Seq<WiringRepo>, kind: AuditIssueKind, name: Seq<char>, ok: Option<Seq<char>>)
    ensures
        flags(manifest_issues(ms, repos), kind, name, ok) <==> exists|k: int| 0 <= k < repos.len() && flags(repo_manifest_issues(ms, #[trigger] repos[k]), kind, name, ok),
    decreases repos.len(),
{
    if repos.len() > 0 {
        let init = repos.drop_last();
        lemma_manifest_issues_flags(ms, init, kind, name, ok);
        lemma_flags_concat(manifest_issues(ms, init), repo_manifest_issues(ms, repos.last()), kind, name, ok);
        if exists|k: int| 0 <= k < repos.len() && flags(repo_manifest_issues(ms, #[trigger] repos[k]), kind, name, ok) {
            let k = choose|k: int| 0 <= k < repos.len() && flags(repo_manifest_issues(ms, #[trigger] repos[k]), kind, name, ok);
            if k < init.len() {
                assert(init[k] == repos[k]);
            } else {
                assert(repos[k] == repos.last());
            }
        }
        if exists|k: int| 0 <= k < init.len() && flags(repo_manifest_issues(ms, #[trigger] init[k]), kind, name, ok) {
            let k = choose|k: int| 0 <= k < init.len() && flags(repo_manifest_issues(ms, #[trigger] init[k]), kind, name, ok);
            assert(init[k] == repos[k]);
        }
        if flags(repo_manifest_issues(ms, repos.last()), kind, name, ok) {
            assert(repos[repos.len() - 1] == repos.last());
        }
    } else {
        assert(manifest_issues(ms, repos).len() == 0);
    }
}

proof fn lemma_spine_issues_kinds(keys: Seq<Seq<char>>, kinds: Seq<Seq<char>>, repos: Seq<WiringRepo>)
    ensures
        forall|i: int| 0 <= i < spine_issues(keys, kinds, repos).len() ==> !manifest_comparison((#[trigger] spine_issues(keys, kinds, repos)[i]).0),
    decreases repos.len(),
{
    if repos.len() > 0 {
        let init = repos.drop_last();
        lemma_spine_issues_kinds(keys, kinds, init);
        let a = spine_issues(keys, kinds, init);
        let b = repo_spine_issues(keys, kinds, repos.last());
        lemma_missing_in_spine_kinds(kinds, repos.last(), repos.last().objectKinds@);
        assert forall|i: int| 0 <= i < (a + b).len() implies !manifest_comparison((#[trigger] (a + b)[i]).0) by {
            if i >= a.len() {
                assert((a + b)[i] == b[i - a.len()]);
                let r = repos.last();
                let key = manifest_key_of(r.repoName@);
                let missing = if !keys.contains(key) {
                    seq![(
                        AuditIssueKind::WiringRepoMissingInSpine,
                        "Repo "@ + r.repoName@ + " (key="@ + key
                            + ") appears in wiring plan but never appears as a route target in the routing spine."@,
                        Some(r.repoName@),
                        None,
                        Some(r.tier@),
                    )]
                } else {
                    seq![]
                };
                let rest = kinds_missing_in_spine(kinds, r, r.objectKinds@);
                assert(b == missing + rest);
                let j = i - a.len();
                if j >= missing.len() {
                    assert(b[j] == rest[j - missing.len()]);
                }
            } else {
                assert((a + b)[i] == a[i]);
            }
        }
    }
}

proof fn lemma_missing_in_spine_kinds(kinds: Seq<Seq<char>>, repo: WiringRepo, oks: Seq<WiringObjectKind>)
    ensures
        forall|i: int| 0 <= i < kinds_missing_in_spine(kinds, repo, oks).len()
            ==> (#[trigger] kinds_missing_in_spine(kinds, repo, oks)[i]).0 == AuditIssueKind::WiringObjectKindMissingInSpine,
    decreases oks.len(),
{
    if oks.len() > 0 {
        lemma_missing_in_spine_kinds(kinds, repo, oks.drop_last());
    }
}

proof fn lemma_orphan_issues_anonymous(spine_keys: Seq<Seq<char>>, wired: Seq<Seq<char>>)
    ensures
        forall|i: int| 0 <= i < orphan_issues(spine_keys, wired).len() ==> (#[trigger] orphan_issues(spine_keys, wired)[i]).2 is None,
    decreases spine_keys.len(),
{
    if spine_keys.len() > 0 {
        lemma_orphan_issues_anonymous(spine_keys.drop_last(), wired);
    }
}

/// The audit's per-repo law. For a wiring repo whose name no other wiring
/// repo shares: when no manifest is registered under its key, the audit
/// reports that the manifest is missing and no object-kind comparison for
/// it; otherwise it reports no missing manifest, reports the wired object
/// kinds that the manifest does not allow (exactly those), and reports the
/// allowed object kinds that the wiring lacks (exactly those).
pub proof fn lemma_audit_per_repo(wiring: WiringPlan, ms: Seq<RepoManifest>, spine: RoutingSpine, k: int, ok: Seq<char>)
    requires
        0 <= k < wiring.repos@.len(),
        distinct_repo_names(wiring.repos@),
    ensures
        ({
            let all = audit_issues(wiring, ms, spine);
            let repo = wiring.repos@[k];
            let name = repo.repoName@;
            match manifest_by_key(ms, manifest_key_of(name)) {
                None => flags(all, AuditIssueKind::WiringMissingManifest, name, None)
                    && !flags(all, AuditIssueKind::WiringObjectKindMissingInManifest, name, Some(ok))
                    && !flags(all, AuditIssueKind::ManifestObjectKindMissingInWiring, name, Some(ok)),
                Some(m) => {
                    let allowed = views(m.allowedObjectKinds@);
                    &&& !flags(all, AuditIssueKind::WiringMissingManifest, name, None)
                    &&& (flags(all, AuditIssueKind::WiringObjectKindMissingInManifest, name, Some(ok))
                        <==> wired_names(repo).contains(ok) && !allowed.contains(ok))
                    &&& (flags(all, AuditIssueKind::ManifestObjectKindMissingInWiring, name, Some(ok))
                        <==> allowed.contains(ok) && !wired_names(repo).contains(ok))
                },
            }
        }),
{
    let repos = wiring.repos@;
    let repo = repos[k];
    let name = repo.repoName@;
    let keys = spine_repo_keys(spine.objectKinds@);
    let kinds = spine_kind_names(spine.objectKinds@);
    let mi = manifest_issues(ms, repos);
    let si = spine_issues(keys, kinds, repos);
    let oi = orphan_issues(keys, wiring_keys(repos));
    assert(audit_issues(wiring, ms, spine) == (mi + si) + oi);
    lemma_spine_issues_kinds(keys, kinds, repos);
    lemma_orphan_issues_anonymous(keys, wiring_keys(repos));
    let kinds_of: Seq<(AuditIssueKind, Option<Seq<char>>)> = seq![
        (AuditIssueKind::WiringMissingManifest, None::<Seq<char>>),
        (AuditIssueKind::WiringObjectKindMissingInManifest, Some(ok)),
        (AuditIssueKind::ManifestObjectKindMissingInWiring, Some(ok)),
    ];
    assert forall|t: int| 0 <= t < 3 implies (flags(audit_issues(wiring, ms, spine), (#[trigger] kinds_of[t]).0, name, kinds_of[t].1)
        <==> flags(repo_manifest_issues(ms, repo), kinds_of[t].0, name, kinds_of[t].1)) by {
        let kind = kinds_of[t].0;
        let o = kinds_of[t].1;
        assert(manifest_comparison(kind));
        lemma_flags_concat(mi + si, oi, kind, name, o);
        lemma_flags_concat(mi, si, kind, name, o);
        if flags(si, kind, name, o) {
            let i = choose|i: int| 0 <= i < si.len() && (#[trigger] si[i]).0 == kind && si[i].2 == Some(name) && si[i].3 == o;
        }
        if flags(oi, kind, name, o) {
            let i = choose|i: int| 0 <= i < oi.len() && (#[trigger] oi[i]).0 == kind && oi[i].2 == Some(name) && oi[i].3 == o;
        }
        lemma_manifest_issues_flags(ms, repos, kind, name, o);
        if flags(mi, kind, name, o) {
            let kk = choose|kk: int| 0 <= kk < repos.len() && flags(repo_manifest_issues(ms, #[trigger] repos[kk]), kind, name, o);
            lemma_repo_manifest_flags(ms, repos[kk], kind, o);
            let own = repo_manifest_issues(ms, repos[kk]);
            let i = choose|i: int| 0 <= i < own.len() && (#[trigger] own[i]).0 == kind && own[i].2 == Some(name) && own[i].3 == o;
            assert(own[i].2 == Some(repos[kk].repoName@));
            if kk < k {
                assert(repos[kk].repoName@ != repos[k].repoName@);
            } else if kk > k {
                assert(repos[k].repoName@ != repos[kk].repoName@);
            }
        }
        if flags(repo_manifest_issues(ms, repo), kind, name, o) {
            assert(flags(repo_manifest_issues(ms, repos[k]), kind, name, o));
        }
    }
    assert(kinds_of[0] == (AuditIssueKind::WiringMissingManifest, None::<Seq<char>>));
    assert(kinds_of[1] == (AuditIssueKind::WiringObjectKindMissingInManifest, Some(ok)));
    assert(kinds_of[2] == (AuditIssueKind::ManifestObjectKindMissingInWiring, Some(ok)));
    lemma_repo_manifest_flags(ms, repo, AuditIssueKind::WiringMissingManifest, None);
    lemma_repo_manifest_flags(ms, repo, AuditIssueKind::WiringObjectKindMissingInManifest, Some(ok));
    lemma_repo_manifest_flags(ms, repo, AuditIssueKind::ManifestObjectKindMissingInWiring, Some(ok));
}


/// A finding that compares a wiring repo with its manifest and carries the
/// repo, the tier and, for object-kind findings, the object kind.
pub open spec fn complete_comparison(i: IssueView) -> bool {
    &&& manifest_comparison(i.0)
    &&& i.2 is Some
    &&& i.4 is Some
    &&& (i.0 == AuditIssueKind::WiringObjectKindMissingInManifest || i.0 == AuditIssueKind::ManifestObjectKindMissingInWiring) ==> i.3 is Some
}

/// The manifest-comparison findings of the audit are complete.
proof fn lemma_manifest_issues_complete(ms: Seq<RepoManifest>, repos: Seq<WiringRepo>)
    ensures
        forall|i: int| 0 <= i < manifest_issues(ms, repos).len() ==> complete_comparison(#[trigger] manifest_issues(ms, repos)[i]),
    decreases repos.len(),
{
    if repos.len() > 0 {
        let init = repos.drop_last();
        lemma_manifest_issues_complete(ms, init);
        let r = repos.last();
        let a = manifest_issues(ms, init);
        let b = repo_manifest_issues(ms, r);
        lemma_repo_issues_complete(ms, r);
        assert(manifest_issues(ms, repos) == a + b);
        assert forall|i: int| 0 <= i < (a + b).len() implies complete_comparison(#[trigger] (a + b)[i]) by {
            if i < a.len() {
                assert((a + b)[i] == a[i]);
            } else {
                assert((a + b)[i] == b[i - a.len()]);
            }
        }
    }
}

proof fn lemma_unlisted_complete(m: RepoManifest, repo: WiringRepo, oks: Seq<WiringObjectKind>)
    ensures
        forall|i: int| 0 <= i < unlisted_kinds(m, repo, oks).len() ==> complete_comparison(#[trigger] unlisted_kinds(m, repo, oks)[i]),
    decreases oks.len(),
{
    if oks.len() > 0 {
        let init = oks.drop_last();
        lemma_unlisted_complete(m, repo, init);
        let rest = unlisted_kinds(m, repo, init);
        let all = unlisted_kinds(m, repo, oks);
        assert forall|i: int| 0 <= i < all.len() implies complete_comparison(#[trigger] all[i]) by {
            if i < rest.len() {
                assert(all[i] == rest[i]);
            }
        }
    }
}

proof fn lemma_unwired_complete(repo: WiringRepo, mks: Seq<String>)
    ensures
        forall|i: int| 0 <= i < unwired_kinds(repo, mks).len() ==> complete_comparison(#[trigger] unwired_kinds(repo, mks)[i]),
    decreases mks.len(),
{
    if mks.len() > 0 {
        let init = mks.drop_last();
        lemma_unwired_complete(repo, init);
        let rest = unwired_kinds(repo, init);
        let all = unwired_kinds(repo, mks);
        assert forall|i: int| 0 <= i < all.len() implies complete_comparison(#[trigger] all[i]) by {
            if i < rest.len() {
                assert(all[i] == rest[i]);
            }
        }
    }
}

proof fn lemma_repo_issues_complete(ms: Seq<RepoManifest>, repo: WiringRepo)
    ensures
        forall|i: int| 0 <= i < repo_manifest_issues(ms, repo).len() ==> complete_comparison(#[trigger] repo_manifest_issues(ms, repo)[i]),
{
    let issues = repo_manifest_issues(ms, repo);
    match manifest_by_key(ms, manifest_key_of(repo.repoName@)) {
        None => {},
        Some(m) => {
            let tier = if !has_sub(tier_debug(m.tier), repo.tier@) {
                seq![(
                    AuditIssueKind::WiringTierMismatch,
                    "Tier mismatch for repo "@ + repo.repoName@ + ": wiring tier="@ + repo.tier@ + " vs manifest tier="@
                        + tier_debug(m.tier) + "."@,
                    Some(repo.repoName@),
                    None,
                    Some(repo.tier@),
                )]
            } else {
                seq![]
            };
            let a = unlisted_kinds(m, repo, repo.objectKinds@);
            let b = unwired_kinds(repo, m.allowedObjectKinds@);
            assert(issues == tier + a + b);
            lemma_unlisted_complete(m, repo, repo.objectKinds@);
            lemma_unwired_complete(repo, m.allowedObjectKinds@);
            assert forall|i: int| 0 <= i < issues.len() implies complete_comparison(#[trigger] issues[i]) by {
                if i < tier.len() {
                    assert(issues[i] == tier[i]);
                } else if i < tier.len() + a.len() {
                    assert(issues[i] == a[i - tier.len()]);
                } else {
                    assert(issues[i] == b[i - tier.len() - a.len()]);
                }
            }
        },
    }
}

proof fn lemma_orphan_issues_kind(spine_keys: Seq<Seq<char>>, wired: Seq<Seq<char>>)
    ensures
        forall|i: int| 0 <= i < orphan_issues(spine_keys, wired).len()
            ==> (#[trigger] orphan_issues(spine_keys, wired)[i]).0 == AuditIssueKind::SpineRouteRepoMissingInWiring,
    decreases spine_keys.len(),
{
    if spine_keys.len() > 0 {
        lemma_orphan_issues_kind(spine_keys.drop_last(), wired);
    }
}

/// The number of fixes for `issues` is the number of findings that get one.
proof fn lemma_fixes_count(issues: Seq<IssueView>, repos: Seq<WiringRepo>)
    ensures
        fixes_for(issues, repos).len() == issues.filter(|i: IssueView| fix_for(i, repos) is Some).len(),
    decreases issues.len(),
{
    reveal(Seq::filter);
    if issues.len() > 0 {
        lemma_fixes_count(issues.drop_last(), repos);
    }
}

/// Two predicates that agree on every element of `s` filter it alike.
proof fn lemma_filter_agree(s: Seq<IssueView>, p: spec_fn(IssueView) -> bool, q: spec_fn(IssueView) -> bool)
    requires
        forall|i: int| 0 <= i < s.len() ==> p(#[trigger] s[i]) == q(s[i]),
    ensures
        s.filter(p) == s.filter(q),
    decreases s.len(),
{
    reveal(Seq::filter);
    if s.len() > 0 {
        let init = s.drop_last();
        assert forall|i: int| 0 <= i < init.len() implies p(#[trigger] init[i]) == q(init[i]) by {
            assert(init[i] == s[i]);
        }
        lemma_filter_agree(init, p, q);
        assert(p(s[s.len() - 1]) == q(s[s.len() - 1]));
    }
}

/// One fix per comparison finding: the fixes suggested for an audit's
/// findings are exactly as many as its findings that compare a wiring repo
/// with its manifest (a missing manifest, a tier mismatch, an object kind
/// missing on either side); the findings against the routing spine get none.
pub proof fn lemma_one_fix_per_comparison_finding(wiring: WiringPlan, ms: Seq<RepoManifest>, spine: RoutingSpine)
    ensures
        fixes_for(audit_issues(wiring, ms, spine), wiring.repos@).len()
            == audit_issues(wiring, ms, spine).filter(|i: IssueView| manifest_comparison(i.0)).len(),
{
    let repos = wiring.repos@;
    let keys = spine_repo_keys(spine.objectKinds@);
    let kinds = spine_kind_names(spine.objectKinds@);
    let mi = manifest_issues(ms, repos);
    let si = spine_issues(keys, kinds, repos);
    let oi = orphan_issues(keys, wiring_keys(repos));
    let all = audit_issues(wiring, ms, spine);
    assert(all == mi + si + oi);
    lemma_manifest_issues_complete(ms, repos);
    lemma_spine_issues_kinds(keys, kinds, repos);
    lemma_orphan_issues_kind(keys, wiring_keys(repos));
    let p = |i: IssueView| fix_for(i, repos) is Some;
    let q = |i: IssueView| manifest_comparison(i.0);
    assert forall|i: int| 0 <= i < all.len() implies p(#[trigger] all[i]) == q(all[i]) by {
        if i < mi.len() {
            assert(all[i] == mi[i]);
        } else if i < mi.len() + si.len() {
            assert(all[i] == si[i - mi.len()]);
        } else {
            assert(all[i] == oi[i - mi.len() - si.len()]);
        }
    }
    lemma_filter_agree(all, p, q);
    lemma_fixes_count(all, repos);
}


/// The kind of fix for each kind of finding that gets one.
pub open spec fn fix_kind_for(k: AuditIssueKind) -> Option<FixKind> {
    match k {
        AuditIssueKind::WiringObjectKindMissingInManifest => Some(FixKind::ManifestAddAllowedObjectKind),
        AuditIssueKind::ManifestObjectKindMissingInWiring => Some(FixKind::ManifestRemoveAllowedObjectKind),
        AuditIssueKind::WiringMissingManifest => Some(FixKind::ManifestAddMissingRepoManifest),
        AuditIssueKind::WiringTierMismatch => Some(FixKind::ManifestAdjustTier),
        _ => None,
    }
}

/// A finding that gets a fix: its kind has one, and it carries the repo
/// name, plus the object kind for object-kind findings and the tier for a
/// tier mismatch.
pub open spec fn fix_ready(i: IssueView) -> bool {
    &&& fix_kind_for(i.0) is Some
    &&& i.2 is Some
    &&& (i.0 == AuditIssueKind::WiringObjectKindMissingInManifest || i.0 == AuditIssueKind::ManifestObjectKindMissingInWiring) ==> i.3 is Some
    &&& i.0 == AuditIssueKind::WiringTierMismatch ==> i.4 is Some
}

/// The form of the fix of one finding: there is one exactly when the
/// finding is fix-ready, of the kind that its finding kind maps to, aimed at
/// the manifest file of the finding's repo.
pub proof fn lemma_fix_form(i: IssueView, repos: Seq<WiringRepo>)
    ensures
        fix_for(i, repos) is Some <==> fix_ready(i),
        fix_for(i, repos) matches Some(f) ==> f.0 == fix_kind_for(i.0)->0 && f.1 == manifest_file(i.2->0),
{
}

/// The fixes of `generate_fixes`: one per fix-ready finding, in the order of
/// the findings, each the fix of its finding; no other fixes.
pub proof fn lemma_fixes_form(issues: Seq<IssueView>, repos: Seq<WiringRepo>)
    ensures
        fixes_for(issues, repos) == issues.filter(|i: IssueView| fix_ready(i)).map_values(|i: IssueView| fix_for(i, repos)->0),
    decreases issues.len(),
{
    reveal(Seq::filter);
    if issues.len() > 0 {
        let init = issues.drop_last();
        lemma_fixes_form(init, repos);
        lemma_fix_form(issues.last(), repos);
        let f = |i: IssueView| fix_for(i, repos)->0;
        let p = |i: IssueView| fix_ready(i);
        if p(issues.last()) {
            assert(issues.filter(p) == init.filter(p).push(issues.last()));
            assert(issues.filter(p).map_values(f) =~= init.filter(p).map_values(f).push(f(issues.last())));
        } else {
            assert(issues.filter(p) == init.filter(p));
        }
    } else {
        assert(issues.filter(|i: IssueView| fix_ready(i)) =~= Seq::<IssueView>::empty());
    }
}


/// How many findings of `issues` have kind `kind`, repo `repo` and object
/// kind `ok`.
pub open spec fn count_flags(issues: Seq<IssueView>, kind: AuditIssueKind, repo: Seq<char>, ok: Option<Seq<char>>) -> nat
    decreases issues.len(),
{
    if issues.len() == 0 {
        0
    } else {
        let l = issues.last();
        count_flags(issues.drop_last(), kind, repo, ok) + if l.0 == kind && l.2 == Some(repo) && l.3 == ok { 1nat } else { 0nat }
    }
}

proof fn lemma_count_concat(a: Seq<IssueView>, b: Seq<IssueView>, kind: AuditIssueKind, repo: Seq<char>, ok: Option<Seq<char>>)
    ensures
        count_flags(a + b, kind, repo, ok) == count_flags(a, kind, repo, ok) + count_flags(b, kind, repo, ok),
    decreases b.len(),
{
    if b.len() == 0 {
        assert(a + b =~= a);
    } else {
        lemma_count_concat(a, b.drop_last(), kind, repo, ok);
        assert((a + b).drop_last() =~= a + b.drop_last());
        assert((a + b).last() == b.last());
    }
}

proof fn lemma_count_zero(issues: Seq<IssueView>, kind: AuditIssueKind, repo: Seq<char>, ok: Option<Seq<char>>)
    ensures
        count_flags(issues, kind, repo, ok) == 0 <==> !flags(issues, kind, repo, ok),
    decreases issues.len(),
{
    if issues.len() > 0 {
        let init = issues.drop_last();
        lemma_count_zero(init, kind, repo, ok);
        lemma_flags_push(init, issues.last(), kind, repo, ok);
        assert(init.push(issues.last()) =~= issues);
    }
}

proof fn lemma_count_manifest_issues(ms: Seq<RepoManifest>, repos: Seq<WiringRepo>, k: int, kind: AuditIssueKind, ok: Option<Seq<char>>)
    requires
        0 <= k < repos.len(),
        distinct_repo_names(repos),
    ensures
        count_flags(manifest_issues(ms, repos), kind, repos[k].repoName@, ok) == count_flags(repo_manifest_issues(ms, repos[k]), kind, repos[k].repoName@, ok),
    decreases repos.len(),
{
    let name = repos[k].repoName@;
    let init = repos.drop_last();
    let last = repos.last();
    lemma_count_concat(manifest_issues(ms, init), repo_manifest_issues(ms, last), kind, name, ok);
    assert(repos[repos.len() - 1] == last);
    if k < repos.len() - 1 {
        assert(init[k] == repos[k]);
        assert(distinct_repo_names(init)) by {
            assert forall|i: int, j: int| 0 <= i < j < init.len() implies (#[trigger] init[i]).repoName@ != (#[trigger] init[j]).repoName@ by {
                assert(init[i] == repos[i] && init[j] == repos[j]);
            }
        }
        lemma_count_manifest_issues(ms, init, k, kind, ok);
        assert(last.repoName@ != name);
        lemma_repo_manifest_flags(ms, last, kind, ok);
        if flags(repo_manifest_issues(ms, last), kind, name, ok) {
            let own = repo_manifest_issues(ms, last);
            let i = choose|i: int| 0 <= i < own.len() && (#[trigger] own[i]).0 == kind && own[i].2 == Some(name) && own[i].3 == ok;
        }
        lemma_count_zero(repo_manifest_issues(ms, last), kind, name, ok);
    } else {
        lemma_count_none_before(ms, init, name, kind, ok);
    }
}

proof fn lemma_count_none_before(ms: Seq<RepoManifest>, repos: Seq<WiringRepo>, name: Seq<char>, kind: AuditIssueKind, ok: Option<Seq<char>>)
    requires
        forall|i: int| 0 <= i < repos.len() ==> (#[trigger] repos[i]).repoName@ != name,
    ensures
        count_flags(manifest_issues(ms, repos), kind, name, ok) == 0,
    decreases repos.len(),
{
    if repos.len() > 0 {
        let init = repos.drop_last();
        let last = repos.last();
        assert(repos[repos.len() - 1] == last);
        assert forall|i: int| 0 <= i < init.len() implies (#[trigger] init[i]).repoName@ != name by {
            assert(init[i] == repos[i]);
        }
        lemma_count_none_before(ms, init, name, kind, ok);
        lemma_count_concat(manifest_issues(ms, init), repo_manifest_issues(ms, last), kind, name, ok);
        lemma_repo_manifest_flags(ms, last, kind, ok);
        if flags(repo_manifest_issues(ms, last), kind, name, ok) {
            let own = repo_manifest_issues(ms, last);
            let i = choose|i: int| 0 <= i < own.len() && (#[trigger] own[i]).0 == kind && own[i].2 == Some(name) && own[i].3 == ok;
        }
        lemma_count_zero(repo_manifest_issues(ms, last), kind, name, ok);
    } else {
        assert(manifest_issues(ms, repos).len() == 0);
    }
}

/// The audit's missing-manifest finding stands alone: for a wiring repo
/// whose name no other wiring repo shares and for which no manifest is
/// registered, the audit reports exactly one missing-manifest finding, no
/// tier finding and no object-kind comparison for it.
pub proof fn lemma_missing_manifest_is_alone(wiring: WiringPlan, ms: Seq<RepoManifest>, spine: RoutingSpine, k: int, ok: Seq<char>)
    requires
        0 <= k < wiring.repos@.len(),
        distinct_repo_names(wiring.repos@),
        manifest_by_key(ms, manifest_key_of(wiring.repos@[k].repoName@)) is None,
    ensures
        count_flags(audit_issues(wiring, ms, spine), AuditIssueKind::WiringMissingManifest, wiring.repos@[k].repoName@, None) == 1,
        !flags(audit_issues(wiring, ms, spine), AuditIssueKind::WiringTierMismatch, wiring.repos@[k].repoName@, None),
        !flags(audit_issues(wiring, ms, spine), AuditIssueKind::WiringObjectKindMissingInManifest, wiring.repos@[k].repoName@, Some(ok)),
        !flags(audit_issues(wiring, ms, spine), AuditIssueKind::ManifestObjectKindMissingInWiring, wiring.repos@[k].repoName@, Some(ok)),
{
    let repos = wiring.repos@;
    let repo = repos[k];
    let name = repo.repoName@;
    let keys = spine_repo_keys(spine.objectKinds@);
    let kinds = spine_kind_names(spine.objectKinds@);
    let mi = manifest_issues(ms, repos);
    let si = spine_issues(keys, kinds, repos);
    let oi = orphan_issues(keys, wiring_keys(repos));
    let all = audit_issues(wiring, ms, spine);
    assert(all == (mi + si) + oi);
    lemma_spine_issues_kinds(keys, kinds, repos);
    lemma_orphan_issues_anonymous(keys, wiring_keys(repos));
    let own = repo_manifest_issues(ms, repo);
    let mm = AuditIssueKind::WiringMissingManifest;
    let tm = AuditIssueKind::WiringTierMismatch;
    // count of the missing-manifest finding
    lemma_count_concat(mi + si, oi, mm, name, None);
    lemma_count_concat(mi, si, mm, name, None);
    lemma_count_manifest_issues(ms, repos, k, mm, None);
    if flags(si, mm, name, None) {
        let i = choose|i: int| 0 <= i < si.len() && (#[trigger] si[i]).0 == mm && si[i].2 == Some(name) && si[i].3 == None::<Seq<char>>;
        assert(manifest_comparison(si[i].0));
    }
    if flags(oi, mm, name, None) {
        let i = choose|i: int| 0 <= i < oi.len() && (#[trigger] oi[i]).0 == mm && oi[i].2 == Some(name) && oi[i].3 == None::<Seq<char>>;
    }
    lemma_count_zero(si, mm, name, None);
    lemma_count_zero(oi, mm, name, None);
    assert(own.len() == 1);
    assert(own.drop_last() =~= Seq::<IssueView>::empty());
    assert(count_flags(own.drop_last(), mm, name, None) == 0);
    // no tier finding
    lemma_flags_concat(mi + si, oi, tm, name, None);
    lemma_flags_concat(mi, si, tm, name, None);
    lemma_manifest_issues_flags(ms, repos, tm, name, None);
    if flags(mi, tm, name, None) {
        let kk = choose|kk: int| 0 <= kk < repos.len() && flags(repo_manifest_issues(ms, #[trigger] repos[kk]), tm, name, None);
        lemma_repo_manifest_flags(ms, repos[kk], tm, None);
        let o2 = repo_manifest_issues(ms, repos[kk]);
        let i = choose|i: int| 0 <= i < o2.len() && (#[trigger] o2[i]).0 == tm && o2[i].2 == Some(name) && o2[i].3 == None::<Seq<char>>;
        assert(o2[i].2 == Some(repos[kk].repoName@));
        if kk < k {
            assert(repos[kk].repoName@ != repos[k].repoName@);
        } else if kk > k {
            assert(repos[k].repoName@ != repos[kk].repoName@);
        }
        assert(o2 == own);
    }
    if flags(si, tm, name, None) {
        let i = choose|i: int| 0 <= i < si.len() && (#[trigger] si[i]).0 == tm && si[i].2 == Some(name) && si[i].3 == None::<Seq<char>>;
        assert(manifest_comparison(si[i].0));
    }
    if flags(oi, tm, name, None) {
        let i = choose|i: int| 0 <= i < oi.len() && (#[trigger] oi[i]).0 == tm && oi[i].2 == Some(name) && oi[i].3 == None::<Seq<char>>;
    }
    lemma_audit_per_repo(wiring, ms, spine, k, ok);
}


/// The name under which the wiring plan lists each canonical repository.
pub open spec fn wiring_name(r: RepoName) -> Seq<char> {
    match r {
        RepoName::HorrorPlace => "Horror.Place"@,
        RepoName::HorrorPlaceOrchestrator => "Horror.Place-Orchestrator"@,
        RepoName::HorrorPlaceConstellationContracts => "HorrorPlace-Constellation-Contracts"@,
        RepoName::HorrorPlaceCodebaseOfDeath => "HorrorPlace-Codebase-of-Death"@,
        RepoName::HorrorPlaceBlackArchivum => "HorrorPlace-Black-Archivum"@,
        RepoName::HorrorPlaceSpectralFoundry => "HorrorPlace-Spectral-Foundry"@,
        RepoName::HorrorPlaceAtrocitySeeds => "HorrorPlace-Atrocity-Seeds"@,
        RepoName::HorrorPlaceObscuraNexus => "HorrorPlace-Obscura-Nexus"@,
        RepoName::HorrorPlaceLiminalContinuum => "HorrorPlace-Liminal-Continuum"@,
        RepoName::HorrorPlaceProcessGodsResearch => "HorrorPlace-Process-Gods-Research"@,
        RepoName::HorrorPlaceRedactedChronicles => "HorrorPlace-Redacted-Chronicles"@,
        RepoName::HorrorPlaceNeuralResonanceLab => "HorrorPlace-Neural-Resonance-Lab"@,
        RepoName::HorrorPlaceDeadLedgerNetwork => "HorrorPlace-Dead-Ledger-Network"@,
    }
}

/// Every canonical repository's wiring name keys the manifest of that
/// repository: the key is the repository's `Debug` (variant) name.
pub proof fn lemma_wiring_name_keys_manifest(r: RepoName)
    ensures
        manifest_key_of(wiring_name(r)) == repo_debug(r),
{
    reveal_strlit("Horror.Place");
    reveal_strlit("HorrorPlace-Constellation-Contracts");
    reveal_strlit("HorrorPlace-Codebase-of-Death");
    reveal_strlit("HorrorPlace-Black-Archivum");
    reveal_strlit("HorrorPlace-Spectral-Foundry");
    reveal_strlit("HorrorPlace-Atrocity-Seeds");
    reveal_strlit("Horror.Place-Orchestrator");
    reveal_strlit("HorrorPlace-Dead-Ledger-Network");
    reveal_strlit("HorrorPlace-RotCave");
    reveal_strlit("HorrorPlace-Obscura-Nexus");
    reveal_strlit("HorrorPlace-Liminal-Continuum");
    reveal_strlit("HorrorPlace-Process-Gods-Research");
    reveal_strlit("HorrorPlace-Redacted-Chronicles");
    reveal_strlit("HorrorPlace-Neural-Resonance-Lab");
    reveal_strlit("HorrorPlace");
    reveal_strlit("HorrorPlaceOrchestrator");
    reveal_strlit("HorrorPlaceConstellationContracts");
    reveal_strlit("HorrorPlaceCodebaseOfDeath");
    reveal_strlit("HorrorPlaceBlackArchivum");
    reveal_strlit("HorrorPlaceSpectralFoundry");
    reveal_strlit("HorrorPlaceAtrocitySeeds");
    reveal_strlit("HorrorPlaceObscuraNexus");
    reveal_strlit("HorrorPlaceLiminalContinuum");
    reveal_strlit("HorrorPlaceProcessGodsResearch");
    reveal_strlit("HorrorPlaceRedactedChronicles");
    reveal_strlit("HorrorPlaceNeuralResonanceLab");
    reveal_strlit("HorrorPlaceDeadLedgerNetwork");
    reveal_strlit("HorrorPlaceRotCave");
    match r {
        RepoName::HorrorPlace => {

        },
        RepoName::HorrorPlaceOrchestrator => {
            assert("Horror.Place-Orchestrator"@.len() != "Horror.Place"@.len());
            assert("Horror.Place-Orchestrator"@.len() != "HorrorPlace-Constellation-Contracts"@.len());
            assert("Horror.Place-Orchestrator"@.len() != "HorrorPlace-Codebase-of-Death"@.len());
            assert("Horror.Place-Orchestrator"@.len() != "HorrorPlace-Black-Archivum"@.len());
            assert("Horror.Place-Orchestrator"@.len() != "HorrorPlace-Spectral-Foundry"@.len());
            assert("Horror.Place-Orchestrator"@.len() != "HorrorPlace-Atrocity-Seeds"@.len());
        },
        RepoName::HorrorPlaceConstellationContracts => {
            assert("HorrorPlace-Constellation-Contracts"@.len() != "Horror.Place"@.len());
        },
        RepoName::HorrorPlaceCodebaseOfDeath => {
            assert("HorrorPlace-Codebase-of-Death"@.len() != "Horror.Place"@.len());
            assert("HorrorPlace-Codebase-of-Death"@.len() != "HorrorPlace-Constellation-Contracts"@.len());
        },
        RepoName::HorrorPlaceBlackArchivum => {
            assert("HorrorPlace-Black-Archivum"@.len() != "Horror.Place"@.len());
            assert("HorrorPlace-Black-Archivum"@.len() != "HorrorPlace-Constellation-Contracts"@.len());
            assert("HorrorPlace-Black-Archivum"@.len() != "HorrorPlace-Codebase-of-Death"@.len());
        },
        RepoName::HorrorPlaceSpectralFoundry => {
            assert("HorrorPlace-Spectral-Foundry"@.len() != "Horror.Place"@.len());
            assert("HorrorPlace-Spectral-Foundry"@.len() != "HorrorPlace-Constellation-Contracts"@.len());
            assert("HorrorPlace-Spectral-Foundry"@.len() != "HorrorPlace-Codebase-of-Death"@.len());
            assert("HorrorPlace-Spectral-Foundry"@.len() != "HorrorPlace-Black-Archivum"@.len());
        },
        RepoName::HorrorPlaceAtrocitySeeds => {
            assert("HorrorPlace-Atrocity-Seeds"@.len() != "Horror.Place"@.len());
            assert("HorrorPlace-Atrocity-Seeds"@.len() != "HorrorPlace-Constellation-Contracts"@.len());
            assert("HorrorPlace-Atrocity-Seeds"@.len() != "HorrorPlace-Codebase-of-Death"@.len());
            assert("HorrorPlace-Atrocity-Seeds"@[12] != "HorrorPlace-Black-Archivum"@[12]);
            assert("HorrorPlace-Atrocity-Seeds"@.len() != "HorrorPlace-Spectral-Foundry"@.len());
        },
        RepoName::HorrorPlaceObscuraNexus => {
            assert("HorrorPlace-Obscura-Nexus"@.len() != "Horror.Place"@.len());
            assert("HorrorPlace-Obscura-Nexus"@.len() != "HorrorPlace-Constellation-Contracts"@.len());
            assert("HorrorPlace-Obscura-Nexus"@.len() != "HorrorPlace-Codebase-of-Death"@.len());
            assert("HorrorPlace-Obscura-Nexus"@.len() != "HorrorPlace-Black-Archivum"@.len());
            assert("HorrorPlace-Obscura-Nexus"@.len() != "HorrorPlace-Spectral-Foundry"@.len());
            assert("HorrorPlace-Obscura-Nexus"@.len() != "HorrorPlace-Atrocity-Seeds"@.len());
            assert("HorrorPlace-Obscura-Nexus"@[6] != "Horror.Place-Orchestrator"@[6]);
            assert("HorrorPlace-Obscura-Nexus"@.len() != "HorrorPlace-Dead-Ledger-Network"@.len());
            assert("HorrorPlace-Obscura-Nexus"@.len() != "HorrorPlace-RotCave"@.len());
        },
        RepoName::HorrorPlaceLiminalContinuum => {
            assert("HorrorPlace-Liminal-Continuum"@.len() != "Horror.Place"@.len());
            assert("HorrorPlace-Liminal-Continuum"@.len() != "HorrorPlace-Constellation-Contracts"@.len());
            assert("HorrorPlace-Liminal-Continuum"@[12] != "HorrorPlace-Codebase-of-Death"@[12]);
            assert("HorrorPlace-Liminal-Continuum"@.len() != "HorrorPlace-Black-Archivum"@.len());
            assert("HorrorPlace-Liminal-Continuum"@.len() != "HorrorPlace-Spectral-Foundry"@.len());
            assert("HorrorPlace-Liminal-Continuum"@.len() != "HorrorPlace-Atrocity-Seeds"@.len());
            assert("HorrorPlace-Liminal-Continuum"@.len() != "Horror.Place-Orchestrator"@.len());
            assert("HorrorPlace-Liminal-Continuum"@.len() != "HorrorPlace-Dead-Ledger-Network"@.len());
            assert("HorrorPlace-Liminal-Continuum"@.len() != "HorrorPlace-RotCave"@.len());
            assert("HorrorPlace-Liminal-Continuum"@.len() != "HorrorPlace-Obscura-Nexus"@.len());
        },
        RepoName::HorrorPlaceProcessGodsResearch => {
            assert("HorrorPlace-Process-Gods-Research"@.len() != "Horror.Place"@.len());
            assert("HorrorPlace-Process-Gods-Research"@.len() != "HorrorPlace-Constellation-Contracts"@.len());
            assert("HorrorPlace-Process-Gods-Research"@.len() != "HorrorPlace-Codebase-of-Death"@.len());
            assert("HorrorPlace-Process-Gods-Research"@.len() != "HorrorPlace-Black-Archivum"@.len());
            assert("HorrorPlace-Process-Gods-Research"@.len() != "HorrorPlace-Spectral-Foundry"@.len());
            assert("HorrorPlace-Process-Gods-Research"@.len() != "HorrorPlace-Atrocity-Seeds"@.len());
            assert("HorrorPlace-Process-Gods-Research"@.len() != "Horror.Place-Orchestrator"@.len());
            assert("HorrorPlace-Process-Gods-Research"@.len() != "HorrorPlace-Dead-Ledger-Network"@.len());
            assert("HorrorPlace-Process-Gods-Research"@.len() != "HorrorPlace-RotCave"@.len());
            assert("HorrorPlace-Process-Gods-Research"@.len() != "HorrorPlace-Obscura-Nexus"@.len());
            assert("HorrorPlace-Process-Gods-Research"@.len() != "HorrorPlace-Liminal-Continuum"@.len());
        },
        RepoName::HorrorPlaceRedactedChronicles => {
            assert("HorrorPlace-Redacted-Chronicles"@.len() != "Horror.Place"@.len());
            assert("HorrorPlace-Redacted-Chronicles"@.len() != "HorrorPlace-Constellation-Contracts"@.len());
            assert("HorrorPlace-Redacted-Chronicles"@.len() != "HorrorPlace-Codebase-of-Death"@.len());
            assert("HorrorPlace-Redacted-Chronicles"@.len() != "HorrorPlace-Black-Archivum"@.len());
            assert("HorrorPlace-Redacted-Chronicles"@.len() != "HorrorPlace-Spectral-Foundry"@.len());
            assert("HorrorPlace-Redacted-Chronicles"@.len() != "HorrorPlace-Atrocity-Seeds"@.len());
            assert("HorrorPlace-Redacted-Chronicles"@.len() != "Horror.Place-Orchestrator"@.len());
            assert("HorrorPlace-Redacted-Chronicles"@[12] != "HorrorPlace-Dead-Ledger-Network"@[12]);
            assert("HorrorPlace-Redacted-Chronicles"@.len() != "HorrorPlace-RotCave"@.len());
            assert("HorrorPlace-Redacted-Chronicles"@.len() != "HorrorPlace-Obscura-Nexus"@.len());
            assert("HorrorPlace-Redacted-Chronicles"@.len() != "HorrorPlace-Liminal-Continuum"@.len());
            assert("HorrorPlace-Redacted-Chronicles"@.len() != "HorrorPlace-Process-Gods-Research"@.len());
        },
        RepoName::HorrorPlaceNeuralResonanceLab => {
            assert("HorrorPlace-Neural-Resonance-Lab"@.len() != "Horror.Place"@.len());
            assert("HorrorPlace-Neural-Resonance-Lab"@.len() != "HorrorPlace-Constellation-Contracts"@.len());
            assert("HorrorPlace-Neural-Resonance-Lab"@.len() != "HorrorPlace-Codebase-of-Death"@.len());
            assert("HorrorPlace-Neural-Resonance-Lab"@.len() != "HorrorPlace-Black-Archivum"@.len());
            assert("HorrorPlace-Neural-Resonance-Lab"@.len() != "HorrorPlace-Spectral-Foundry"@.len());
            assert("HorrorPlace-Neural-Resonance-Lab"@.len() != "HorrorPlace-Atrocity-Seeds"@.len());
            assert("HorrorPlace-Neural-Resonance-Lab"@.len() != "Horror.Place-Orchestrator"@.len());
            assert("HorrorPlace-Neural-Resonance-Lab"@.len() != "HorrorPlace-Dead-Ledger-Network"@.len());
            assert("HorrorPlace-Neural-Resonance-Lab"@.len() != "HorrorPlace-RotCave"@.len());
            assert("HorrorPlace-Neural-Resonance-Lab"@.len() != "HorrorPlace-Obscura-Nexus"@.len());
            assert("HorrorPlace-Neural-Resonance-Lab"@.len() != "HorrorPlace-Liminal-Continuum"@.len());
            assert("HorrorPlace-Neural-Resonance-Lab"@.len() != "HorrorPlace-Process-Gods-Research"@.len());
            assert("HorrorPlace-Neural-Resonance-Lab"@.len() != "HorrorPlace-Redacted-Chronicles"@.len());
        },
        RepoName::HorrorPlaceDeadLedgerNetwork => {
            assert("HorrorPlace-Dead-Ledger-Network"@.len() != "Horror.Place"@.len());
            assert("HorrorPlace-Dead-Ledger-Network"@.len() != "HorrorPlace-Constellation-Contracts"@.len());
            assert("HorrorPlace-Dead-Ledger-Network"@.len() != "HorrorPlace-Codebase-of-Death"@.len());
            assert("HorrorPlace-Dead-Ledger-Network"@.len() != "HorrorPlace-Black-Archivum"@.len());
            assert("HorrorPlace-Dead-Ledger-Network"@.len() != "HorrorPlace-Spectral-Foundry"@.len());
            assert("HorrorPlace-Dead-Ledger-Network"@.len() != "HorrorPlace-Atrocity-Seeds"@.len());
            assert("HorrorPlace-Dead-Ledger-Network"@.len() != "Horror.Place-Orchestrator"@.len());
        },
    }
}

/// A wiring repo listed under a canonical repository's wiring name is never
/// reported as missing its manifest when the manifests hold one for that
/// repository.
pub proof fn lemma_present_manifest_not_missing(wiring: WiringPlan, ms: Seq<RepoManifest>, spine: RoutingSpine, r: RepoName)
    requires
        exists|i: int| 0 <= i < ms.len() && (#[trigger] ms[i]).repoName == r,
    ensures
        !flags(audit_issues(wiring, ms, spine), AuditIssueKind::WiringMissingManifest, wiring_name(r), None),
{
    lemma_wiring_name_keys_manifest(r);
    lemma_manifest_by_key_present(ms, r);
    let repos = wiring.repos@;
    let name = wiring_name(r);
    let mm = AuditIssueKind::WiringMissingManifest;
    let keys = spine_repo_keys(spine.objectKinds@);
    let kinds = spine_kind_names(spine.objectKinds@);
    let mi = manifest_issues(ms, repos);
    let si = spine_issues(keys, kinds, repos);
    let oi = orphan_issues(keys, wiring_keys(repos));
    assert(audit_issues(wiring, ms, spine) == (mi + si) + oi);
    lemma_flags_concat(mi + si, oi, mm, name, None);
    lemma_flags_concat(mi, si, mm, name, None);
    lemma_spine_issues_kinds(keys, kinds, repos);
    lemma_orphan_issues_anonymous(keys, wiring_keys(repos));
    if flags(si, mm, name, None) {
        let i = choose|i: int| 0 <= i < si.len() && (#[trigger] si[i]).0 == mm && si[i].2 == Some(name) && si[i].3 == None::<Seq<char>>;
        assert(manifest_comparison(si[i].0));
    }
    if flags(oi, mm, name, None) {
        let i = choose|i: int| 0 <= i < oi.len() && (#[trigger] oi[i]).0 == mm && oi[i].2 == Some(name) && oi[i].3 == None::<Seq<char>>;
    }
    lemma_manifest_issues_flags(ms, repos, mm, name, None);
    if flags(mi, mm, name, None) {
        let kk = choose|kk: int| 0 <= kk < repos.len() && flags(repo_manifest_issues(ms, #[trigger] repos[kk]), mm, name, None);
        lemma_repo_manifest_flags(ms, repos[kk], mm, None);
        let own = repo_manifest_issues(ms, repos[kk]);
        let i = choose|i: int| 0 <= i < own.len() && (#[trigger] own[i]).0 == mm && own[i].2 == Some(name) && own[i].3 == None::<Seq<char>>;
        assert(own[i].2 == Some(repos[kk].repoName@));
        assert(repos[kk].repoName@ == name);
    }
}

proof fn lemma_manifest_by_key_present(ms: Seq<RepoManifest>, r: RepoName)
    requires
        exists|i: int| 0 <= i < ms.len() && (#[trigger] ms[i]).repoName == r,
    ensures
        manifest_by_key(ms, repo_debug(r)) is Some,
    decreases ms.len(),
{
    if ms.last().repoName != r {
        let i = choose|i: int| 0 <= i < ms.len() && (#[trigger] ms[i]).repoName == r;
        let init = ms.drop_last();
        assert(i < init.len());
        assert(init[i] == ms[i]);
        if repo_debug(ms.last().repoName) != repo_debug(r) {
            lemma_manifest_by_key_present(init, r);
        }
    }
}

} // verus!
