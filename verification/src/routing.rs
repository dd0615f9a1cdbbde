//! Routing spine and repo manifest model, route resolution, and the
//! whole-system routing validation (uniqueness, sovereignty, implicit
//! deny, tier agreement and constraint references).
use vstd::prelude::*;

use crate::text::{clone_strings, contains_string, debug_list, debug_string_list, has_prefix, has_suffix, str_ends_with, str_eq, str_starts_with, views};

verus! {

/// Tier as used in manifests and the routing spine.
#[derive(Debug, Clone, Copy, PartialEq, Eq, Hash, Structural)]
pub enum Tier {
    T1Core,
    T2Vault,
    T3Lab,
}

/// Canonical repository names.
#[derive(Debug, Clone, Copy, PartialEq, Eq, Hash, Structural)]
pub enum RepoName {
    HorrorPlace,
    HorrorPlaceOrchestrator,
    HorrorPlaceConstellationContracts,
    HorrorPlaceCodebaseOfDeath,
    HorrorPlaceBlackArchivum,
    HorrorPlaceSpectralFoundry,
    HorrorPlaceAtrocitySeeds,
    HorrorPlaceObscuraNexus,
    HorrorPlaceLiminalContinuum,
    HorrorPlaceProcessGodsResearch,
    HorrorPlaceRedactedChronicles,
    HorrorPlaceNeuralResonanceLab,
    HorrorPlaceDeadLedgerNetwork,
}

/// The `Debug` rendering of a tier (its variant name).
pub open spec fn tier_debug(t: Tier) -> Seq<char> {
    match t {
        Tier::T1Core => "T1Core"@,
        Tier::T2Vault => "T2Vault"@,
        Tier::T3Lab => "T3Lab"@,
    }
}

/// The `Debug` rendering of a repository name (its variant name).
pub open spec fn repo_debug(r: RepoName) -> Seq<char> {
    match r {
        RepoName::HorrorPlace => "HorrorPlace"@,
        RepoName::HorrorPlaceOrchestrator => "HorrorPlaceOrchestrator"@,
        RepoName::HorrorPlaceConstellationContracts => "HorrorPlaceConstellationContracts"@,
        RepoName::HorrorPlaceCodebaseOfDeath => "HorrorPlaceCodebaseOfDeath"@,
        RepoName::HorrorPlaceBlackArchivum => "HorrorPlaceBlackArchivum"@,
        RepoName::HorrorPlaceSpectralFoundry => "HorrorPlaceSpectralFoundry"@,
        RepoName::HorrorPlaceAtrocitySeeds => "HorrorPlaceAtrocitySeeds"@,
        RepoName::HorrorPlaceObscuraNexus => "HorrorPlaceObscuraNexus"@,
        RepoName::HorrorPlaceLiminalContinuum => "HorrorPlaceLiminalContinuum"@,
        RepoName::HorrorPlaceProcessGodsResearch => "HorrorPlaceProcessGodsResearch"@,
        RepoName::HorrorPlaceRedactedChronicles => "HorrorPlaceRedactedChronicles"@,
        RepoName::HorrorPlaceNeuralResonanceLab => "HorrorPlaceNeuralResonanceLab"@,
        RepoName::HorrorPlaceDeadLedgerNetwork => "HorrorPlaceDeadLedgerNetwork"@,
    }
}

/// The variant name of a tier, as `Debug` prints it.
pub fn tier_debug_name(t: Tier) -> (r: &'static str)
    ensures
        r@ == tier_debug(t),
{
    match t {
        Tier::T1Core => "T1Core",
        Tier::T2Vault => "T2Vault",
        Tier::T3Lab => "T3Lab",
    }
}

/// The variant name of a repository name, as `Debug` prints it.
pub fn repo_debug_name(r: RepoName) -> (s: &'static str)
    ensures
        s@ == repo_debug(r),
{
    match r {
        RepoName::HorrorPlace => "HorrorPlace",
        RepoName::HorrorPlaceOrchestrator => "HorrorPlaceOrchestrator",
        RepoName::HorrorPlaceConstellationContracts => "HorrorPlaceConstellationContracts",
        RepoName::HorrorPlaceCodebaseOfDeath => "HorrorPlaceCodebaseOfDeath",
        RepoName::HorrorPlaceBlackArchivum => "HorrorPlaceBlackArchivum",
        RepoName::HorrorPlaceSpectralFoundry => "HorrorPlaceSpectralFoundry",
        RepoName::HorrorPlaceAtrocitySeeds => "HorrorPlaceAtrocitySeeds",
        RepoName::HorrorPlaceObscuraNexus => "HorrorPlaceObscuraNexus",
        RepoName::HorrorPlaceLiminalContinuum => "HorrorPlaceLiminalContinuum",
        RepoName::HorrorPlaceProcessGodsResearch => "HorrorPlaceProcessGodsResearch",
        RepoName::HorrorPlaceRedactedChronicles => "HorrorPlaceRedactedChronicles",
        RepoName::HorrorPlaceNeuralResonanceLab => "HorrorPlaceNeuralResonanceLab",
        RepoName::HorrorPlaceDeadLedgerNetwork => "HorrorPlaceDeadLedgerNetwork",
    }
}

/// Policy POL001: one file per request.
#[derive(Debug, Clone)]
pub struct RepoPolicyOneFilePerRequest {
    pub enabled: bool,
    pub maxFilesPerRequest: Option<u64>,
}

/// Policy POL002: no raw narrative in this tier.
#[derive(Debug, Clone)]
pub struct RepoPolicyNoRawNarrativeInTier {
    pub enabled: bool,
    pub description: Option<String>,
}

/// Policy POL003: a schema reference is required.
#[derive(Debug, Clone)]
pub struct RepoPolicyRequireSchemaRef {
    pub enabled: bool,
    pub description: Option<String>,
}

/// Policy POL004: target metadata is required.
#[derive(Debug, Clone)]
pub struct RepoPolicyRequireTargetMetadata {
    pub enabled: bool,
    pub description: Option<String>,
}

/// Policy POL005: maximum file size.
#[derive(Debug, Clone)]
pub struct RepoPolicyMaxFileSizeBytes {
    pub enabled: bool,
    pub maxFileSizeBytes: u64,
}

/// Policy POL006: a routing spine reference is required.
#[derive(Debug, Clone)]
pub struct RepoPolicyRequireRoutingSpineRef {
    pub enabled: bool,
    pub description: Option<String>,
}

/// The policy block of a repo manifest; every policy is optional.
#[derive(Debug, Clone)]
pub struct RepoPolicies {
    pub POL001_OneFilePerRequest: Option<RepoPolicyOneFilePerRequest>,
    pub POL002_NoRawNarrativeInTier: Option<RepoPolicyNoRawNarrativeInTier>,
    pub POL003_RequireSchemaRef: Option<RepoPolicyRequireSchemaRef>,
    pub POL004_RequireTargetMetadata: Option<RepoPolicyRequireTargetMetadata>,
    pub POL005_MaxFileSizeBytes: Option<RepoPolicyMaxFileSizeBytes>,
    pub POL006_RequireRoutingSpineRef: Option<RepoPolicyRequireRoutingSpineRef>,
}

impl Default for RepoPolicies {
    fn default() -> (r: Self)
        ensures
            r.POL001_OneFilePerRequest is None,
            r.POL002_NoRawNarrativeInTier is None,
            r.POL003_RequireSchemaRef is None,
            r.POL004_RequireTargetMetadata is None,
            r.POL005_MaxFileSizeBytes is None,
            r.POL006_RequireRoutingSpineRef is None,
    {
        RepoPolicies {
            POL001_OneFilePerRequest: None,
            POL002_NoRawNarrativeInTier: None,
            POL003_RequireSchemaRef: None,
            POL004_RequireTargetMetadata: None,
            POL005_MaxFileSizeBytes: None,
            POL006_RequireRoutingSpineRef: None,
        }
    }
}

/// Repo manifest (the subset that routing validation reads).
#[derive(Debug, Clone)]
pub struct RepoManifest {
    pub schemaVersion: String,
    pub schemaRef: String,
    pub repoName: RepoName,
    pub tier: Tier,
    pub kind: String,
    pub description: String,
    pub visibility: String,
    pub implicitDeny: bool,
    pub routingSpineRef: Option<String>,
    pub allowedObjectKinds: Vec<String>,
    /// Default target path per object kind, in document order.
    pub defaultPaths: Vec<(String, String)>,
    pub schemaWhitelist: Vec<String>,
    pub policies: RepoPolicies,
}

/// A mathematical constraint declared by the routing spine.
#[derive(Debug, Clone)]
pub struct MathConstraint {
    pub id: String,
    pub description: String,
    pub appliesTo: Vec<String>,
}

/// A single route entry of the routing spine.
#[derive(Debug, Clone)]
pub struct RouteEntry {
    pub id: String,
    pub tier: Tier,
    pub repo: RepoName,
    pub schemaRef: String,
    pub aiAuthoringKind: String,
    pub defaultTargetPath: String,
    pub registryRef: String,
    pub invariants: Vec<String>,
    pub metrics: Vec<String>,
    pub constraints: Vec<String>,
    pub phase: String,
    pub additionalPropertiesRequired: bool,
}

/// Routing rules for one object kind.
#[derive(Debug, Clone)]
pub struct ObjectKindEntry {
    pub name: String,
    pub description: String,
    pub allowedTiers: Vec<Tier>,
    pub routes: Vec<RouteEntry>,
}

/// The routing spine.
#[derive(Debug, Clone)]
pub struct RoutingSpine {
    pub routingSpineVersion: String,
    pub schemaRef: String,
    pub updatedAt: String,
    pub mathConstraints: Vec<MathConstraint>,
    pub objectKinds: Vec<ObjectKindEntry>,
}

/// Error codes of routing validation.
#[derive(Debug, Clone, Copy, PartialEq, Eq, Structural)]
pub enum RoutingErrorCode {
    ERR_ROUTE_CONFLICT,
    ERR_ROUTE_NOT_FOUND,
    ERR_ROUTE_TIER_NOT_ALLOWED,
    ERR_MANIFEST_IMPLICIT_DENY,
    ERR_MANIFEST_OBJECT_KIND_DENY,
    ERR_SOVEREIGNTY_VIOLATION,
    ERR_CONSTRAINT_MISSING,
}

/// A structured routing validation error.
#[derive(Debug, Clone)]
pub struct RoutingValidationError {
    pub code: RoutingErrorCode,
    pub message: String,
    pub objectKind: Option<String>,
    pub tier: Option<Tier>,
    pub repo: Option<RepoName>,
    pub routeId: Option<String>,
}

/// The decision returned by `resolve_route`.
#[derive(Debug, Clone)]
pub struct RouteDecision {
    pub objectKind: String,
    pub tier: Tier,
    pub repo: RepoName,
    pub schemaRef: String,
    pub defaultTargetPath: String,
    pub invariants: Vec<String>,
    pub metrics: Vec<String>,
    pub constraints: Vec<String>,
    pub phase: String,
}

/// The character view of an optional string.
pub open spec fn opt_view(o: Option<String>) -> Option<Seq<char>> {
    match o {
        Some(s) => Some(s@),
        None => None,
    }
}

/// Abstract value of a routing error: code, message, objectKind, tier, repo, routeId.
pub type ErrorView = (RoutingErrorCode, Seq<char>, Option<Seq<char>>, Option<Tier>, Option<RepoName>, Option<Seq<char>>);

impl View for RoutingValidationError {
    type V = ErrorView;

    open spec fn view(&self) -> ErrorView {
        (self.code, self.message@, opt_view(self.objectKind), self.tier, self.repo, opt_view(self.routeId))
    }
}

/// Abstract value of a route decision.
pub type DecisionView = (Seq<char>, Tier, RepoName, Seq<char>, Seq<char>, Seq<Seq<char>>, Seq<Seq<char>>, Seq<Seq<char>>, Seq<char>);

impl View for RouteDecision {
    type V = DecisionView;

    open spec fn view(&self) -> DecisionView {
        (
            self.objectKind@,
            self.tier,
            self.repo,
            self.schemaRef@,
            self.defaultTargetPath@,
            views(self.invariants@),
            views(self.metrics@),
            views(self.constraints@),
            self.phase@,
        )
    }
}

/// The views of a sequence of routing errors.
pub open spec fn error_views(s: Seq<RoutingValidationError>) -> Seq<ErrorView> {
    s.map_values(|e: RoutingValidationError| e@)
}

/// The routes of `routes` whose tier is `tier`, in order.
pub open spec fn routes_for_tier(routes: Seq<RouteEntry>, tier: Tier) -> Seq<RouteEntry>
    decreases routes.len(),
{
    if routes.len() == 0 {
        seq![]
    } else {
        let rest = routes_for_tier(routes.drop_last(), tier);
        if routes.last().tier == tier {
            rest.push(routes.last())
        } else {
            rest
        }
    }
}

/// Whether an object-kind entry is a candidate for `(kind, tier)`.
pub open spec fn entry_admits(ok: ObjectKindEntry, kind: Seq<char>, tier: Tier) -> bool {
    ok.name@ == kind && ok.allowedTiers@.contains(tier)
}

/// All routes that serve `(kind, tier)`: routes of that tier under entries
/// named `kind` whose allowed tiers include `tier`, in spine order.
pub open spec fn matching_routes(oks: Seq<ObjectKindEntry>, kind: Seq<char>, tier: Tier) -> Seq<RouteEntry>
    decreases oks.len(),
{
    if oks.len() == 0 {
        seq![]
    } else {
        let rest = matching_routes(oks.drop_last(), kind, tier);
        if entry_admits(oks.last(), kind, tier) {
            rest + routes_for_tier(oks.last().routes@, tier)
        } else {
            rest
        }
    }
}

/// The decision for `(kind, tier)` taken from `route`.
pub open spec fn decision_of(kind: Seq<char>, tier: Tier, route: RouteEntry) -> DecisionView {
    (
        kind,
        tier,
        route.repo,
        route.schemaRef@,
        route.defaultTargetPath@,
        views(route.invariants@),
        views(route.metrics@),
        views(route.constraints@),
        route.phase@,
    )
}

/// Message of the route-not-found error.
pub open spec fn not_found_message(kind: Seq<char>, tier: Tier) -> Seq<char> {
    "No route found for objectKind="@ + kind + " tier="@ + tier_debug(tier)
}

/// Message of the ambiguous-route error.
pub open spec fn ambiguous_message(kind: Seq<char>, tier: Tier) -> Seq<char> {
    "Multiple routes found for objectKind="@ + kind + " tier="@ + tier_debug(tier)
}

proof fn lemma_routes_for_tier_step(routes: Seq<RouteEntry>, j: int, tier: Tier)
    requires
        0 <= j < routes.len(),
    ensures
        routes_for_tier(routes.take(j + 1), tier) == if routes[j].tier == tier {
            routes_for_tier(routes.take(j), tier).push(routes[j])
        } else {
            routes_for_tier(routes.take(j), tier)
        },
{
    assert(routes.take(j + 1).drop_last() =~= routes.take(j));
}

proof fn lemma_matching_step(oks: Seq<ObjectKindEntry>, i: int, kind: Seq<char>, tier: Tier)
    requires
        0 <= i < oks.len(),
    ensures
        matching_routes(oks.take(i + 1), kind, tier) == if entry_admits(oks[i], kind, tier) {
            matching_routes(oks.take(i), kind, tier) + routes_for_tier(oks[i].routes@, tier)
        } else {
            matching_routes(oks.take(i), kind, tier)
        },
{
    assert(oks.take(i + 1).drop_last() =~= oks.take(i));
}

/// Builds `a + b + c + d` where `d` is a tier's variant name.
fn message_kind_tier(a: &str, kind: &str, c: &str, tier: Tier) -> (r: String)
    ensures
        r@ == a@ + kind@ + c@ + tier_debug(tier),
{
    let mut s = String::from_str(a);
    s.append(kind);
    s.append(c);
    s.append(tier_debug_name(tier));
    s
}

impl RoutingSpine {
    /// Resolve the unique route for `(object_kind, tier)`.
    pub fn resolve_route(&self, object_kind: &str, tier: Tier) -> (r: Result<RouteDecision, RoutingValidationError>)
        ensures
            ({
                let m = matching_routes(self.objectKinds@, object_kind@, tier);
                &&& m.len() == 1 <==> r is Ok
                &&& r matches Ok(d) ==> d@ == decision_of(object_kind@, tier, m[0])
                &&& m.len() == 0 ==> (r matches Err(e) && e@ == (
                    RoutingErrorCode::ERR_ROUTE_NOT_FOUND,
                    not_found_message(object_kind@, tier),
                    Some(object_kind@),
                    Some(tier),
                    None::<RepoName>,
                    None::<Seq<char>>,
                ))
                &&& m.len() > 1 ==> (r matches Err(e) && e@ == (
                    RoutingErrorCode::ERR_ROUTE_CONFLICT,
                    ambiguous_message(object_kind@, tier),
                    Some(object_kind@),
                    Some(tier),
                    None::<RepoName>,
                    None::<Seq<char>>,
                ))
            }),
    {
        let oks = &self.objectKinds;
        let ghost kind = object_kind@;
        // Number of matches seen so far, saturated at 2, and the first one.
        let mut count: usize = 0;
        let mut first_ok: usize = 0;
        let mut first_route: usize = 0;
        let mut i: usize = 0;
        while i < oks.len()
            invariant
                i <= oks.len(),
                kind == object_kind@,
                count <= 2,
                ({
                    let m = matching_routes(oks@.take(i as int), kind, tier);
                    &&& count as int == if m.len() < 2 { m.len() as int } else { 2 }
                    &&& count > 0 ==> first_ok < oks.len() && first_route < oks@[first_ok as int].routes.len()
                        && oks@[first_ok as int].routes@[first_route as int] == m[0]
                }),
            decreases oks.len() - i,
        {
            let ok = &oks[i];
            proof {
                lemma_matching_step(oks@, i as int, kind, tier);
            }
            let admits = str_eq(ok.name.as_str(), object_kind) && contains_tier(&ok.allowedTiers, tier);
            if admits {
                let mut j: usize = 0;
                while j < ok.routes.len()
                    invariant
                        i < oks.len(),
                        ok == oks@[i as int],
                        j <= ok.routes.len(),
                        kind == object_kind@,
                        count <= 2,
                        ({
                            let m = matching_routes(oks@.take(i as int), kind, tier) + routes_for_tier(
                                ok.routes@.take(j as int),
                                tier,
                            );
                            &&& count as int == if m.len() < 2 { m.len() as int } else { 2 }
                            &&& count > 0 ==> first_ok < oks.len() && first_route < oks@[first_ok as int].routes.len()
                                && oks@[first_ok as int].routes@[first_route as int] == m[0]
                        }),
                    decreases ok.routes.len() - j,
                {
                    proof {
                        lemma_routes_for_tier_step(ok.routes@, j as int, tier);
                    }
                    if ok.routes[j].tier == tier {
                        if count == 0 {
                            first_ok = i;
                            first_route = j;
                        }
                        if count < 2 {
                            count = count + 1;
                        }
                    }
                    j = j + 1;
                }
                proof {
                    assert(ok.routes@.take(ok.routes@.len() as int) =~= ok.routes@);
                }
            }
            i = i + 1;
        }
        proof {
            assert(oks@.take(oks@.len() as int) =~= oks@);
        }
        if count == 0 {
            return Err(RoutingValidationError {
                code: RoutingErrorCode::ERR_ROUTE_NOT_FOUND,
                message: message_kind_tier("No route found for objectKind=", object_kind, " tier=", tier),
                objectKind: Some(String::from_str(object_kind)),
                tier: Some(tier),
                repo: None,
                routeId: None,
            });
        }
        if count > 1 {
            return Err(RoutingValidationError {
                code: RoutingErrorCode::ERR_ROUTE_CONFLICT,
                message: message_kind_tier("Multiple routes found for objectKind=", object_kind, " tier=", tier),
                objectKind: Some(String::from_str(object_kind)),
                tier: Some(tier),
                repo: None,
                routeId: None,
            });
        }
        let route = &oks[first_ok].routes[first_route];
        Ok(RouteDecision {
            objectKind: String::from_str(object_kind),
            tier,
            repo: route.repo,
            schemaRef: route.schemaRef.clone(),
            defaultTargetPath: route.defaultTargetPath.clone(),
            invariants: clone_strings(&route.invariants),
            metrics: clone_strings(&route.metrics),
            constraints: clone_strings(&route.constraints),
            phase: route.phase.clone(),
        })
    }
}

/// Whether `tiers` contains `t`.
pub fn contains_tier(tiers: &Vec<Tier>, t: Tier) -> (r: bool)
    ensures
        r == tiers@.contains(t),
{
    let mut i: usize = 0;
    while i < tiers.len()
        invariant
            i <= tiers.len(),
            forall|k: int| 0 <= k < i ==> tiers@[k] != t,
        decreases tiers.len() - i,
    {
        if tiers[i] == t {
            return true;
        }
        i = i + 1;
    }
    false
}


// ---------------------------------------------------------------------
// Whole-system validation
// ---------------------------------------------------------------------

/// An occurrence of a route in the spine: the object kind it is listed
/// under, and the route itself.
pub type Occurrence = (Seq<char>, RouteEntry);

/// All route occurrences of the spine, in document order.
pub open spec fn occurrences(oks: Seq<ObjectKindEntry>) -> Seq<Occurrence>
    decreases oks.len(),
{
    if oks.len() == 0 {
        seq![]
    } else {
        occurrences(oks.drop_last()) + oks.last().routes@.map_values(|r: RouteEntry| (oks.last().name@, r))
    }
}

/// The uniqueness key of an occurrence: `(objectKind, tier)`.
pub open spec fn occ_key(o: Occurrence) -> (Seq<char>, Tier) {
    (o.0, o.1.tier)
}

/// Route ids of the occurrences with key `key`, in order.
pub open spec fn ids_with_key(occ: Seq<Occurrence>, key: (Seq<char>, Tier)) -> Seq<Seq<char>>
    decreases occ.len(),
{
    if occ.len() == 0 {
        seq![]
    } else {
        let rest = ids_with_key(occ.drop_last(), key);
        if occ_key(occ.last()) == key {
            rest.push(occ.last().1.id@)
        } else {
            rest
        }
    }
}

/// Occurrence `k` is the first one with its key.
pub open spec fn first_of_key(occ: Seq<Occurrence>, k: int) -> bool {
    forall|m: int| 0 <= m < k ==> occ_key(#[trigger] occ[m]) != occ_key(occ[k])
}

/// Message of a route conflict.
pub open spec fn conflict_message(kind: Seq<char>, tier: Tier, ids: Seq<Seq<char>>) -> Seq<char> {
    "Route conflict for objectKind="@ + kind + " tier="@ + tier_debug(tier) + ", routeIds="@ + debug_list(ids)
}

/// One conflict error per `(objectKind, tier)` key served by more than one
/// route, reported at the key's first occurrence among the first `n`.
pub open spec fn conflict_errors(occ: Seq<Occurrence>, n: nat) -> Seq<ErrorView>
    decreases n,
{
    if n == 0 {
        seq![]
    } else {
        let k = (n - 1) as int;
        let rest = conflict_errors(occ, (n - 1) as nat);
        let key = occ_key(occ[k]);
        let ids = ids_with_key(occ, key);
        if first_of_key(occ, k) && ids.len() > 1 {
            rest.push(
                (
                    RoutingErrorCode::ERR_ROUTE_CONFLICT,
                    conflict_message(key.0, key.1, ids),
                    Some(key.0),
                    Some(key.1),
                    None::<RepoName>,
                    None::<Seq<char>>,
                ),
            )
        } else {
            rest
        }
    }
}

/// The manifest registered for `repo`: the last one with that name.
pub open spec fn manifest_for(ms: Seq<RepoManifest>, repo: RepoName) -> Option<RepoManifest>
    decreases ms.len(),
{
    if ms.len() == 0 {
        None
    } else if ms.last().repoName == repo {
        Some(ms.last())
    } else {
        manifest_for(ms.drop_last(), repo)
    }
}

pub open spec fn sovereignty_message(id: Seq<char>, repo: RepoName) -> Seq<char> {
    "Route "@ + id + " targets repo "@ + repo_debug(repo) + " but no manifest was provided."@
}

pub open spec fn implicit_deny_message(id: Seq<char>, kind: Seq<char>, repo: RepoName) -> Seq<char> {
    "Route "@ + id + " assigns objectKind="@ + kind + " to repo "@ + repo_debug(repo)
        + " but manifest has implicitDeny=true and does not list this object kind."@
}

pub open spec fn kind_deny_message(id: Seq<char>, kind: Seq<char>, repo: RepoName) -> Seq<char> {
    "Route "@ + id + " assigns objectKind="@ + kind + " to repo "@ + repo_debug(repo)
        + " but manifest.allowedObjectKinds does not include it."@
}

pub open spec fn tier_mismatch_message(id: Seq<char>, tier: Tier, repo: RepoName, mtier: Tier) -> Seq<char> {
    "Route "@ + id + " uses tier="@ + tier_debug(tier) + " but manifest for repo "@ + repo_debug(repo)
        + " is tier="@ + tier_debug(mtier) + "."@
}

pub open spec fn missing_constraint_message(id: Seq<char>, kind: Seq<char>, tier: Tier, c: Seq<char>) -> Seq<char> {
    "Route "@ + id + " for objectKind="@ + kind + " tier="@ + tier_debug(tier) + " references unknown constraint id="@ + c
}

/// An error about route occurrence `o`, with the given code and message.
pub open spec fn occ_error(code: RoutingErrorCode, msg: Seq<char>, o: Occurrence) -> ErrorView {
    (code, msg, Some(o.0), Some(o.1.tier), Some(o.1.repo), Some(o.1.id@))
}

/// Manifest-side errors of one route occurrence: a missing manifest, an
/// object kind the manifest does not accept, and a tier disagreement.
pub open spec fn route_manifest_errors(ms: Seq<RepoManifest>, o: Occurrence) -> Seq<ErrorView> {
    let kind = o.0;
    let route = o.1;
    match manifest_for(ms, route.repo) {
        None => seq![occ_error(RoutingErrorCode::ERR_SOVEREIGNTY_VIOLATION, sovereignty_message(route.id@, route.repo), o)],
        Some(m) => {
            let allowed = views(m.allowedObjectKinds@);
            let deny = if m.implicitDeny {
                if !allowed.contains(kind) {
                    seq![occ_error(RoutingErrorCode::ERR_MANIFEST_IMPLICIT_DENY, implicit_deny_message(route.id@, kind, route.repo), o)]
                } else {
                    seq![]
                }
            } else if allowed.len() > 0 && !allowed.contains(kind) {
                seq![occ_error(RoutingErrorCode::ERR_MANIFEST_OBJECT_KIND_DENY, kind_deny_message(route.id@, kind, route.repo), o)]
            } else {
                seq![]
            };
            let tier_err = if m.tier != route.tier {
                seq![occ_error(RoutingErrorCode::ERR_ROUTE_TIER_NOT_ALLOWED, tier_mismatch_message(route.id@, route.tier, route.repo, m.tier), o)]
            } else {
                seq![]
            };
            deny + tier_err
        },
    }
}

/// Manifest-side errors of all occurrences, in order.
pub open spec fn manifest_errors(ms: Seq<RepoManifest>, occ: Seq<Occurrence>) -> Seq<ErrorView>
    decreases occ.len(),
{
    if occ.len() == 0 {
        seq![]
    } else {
        manifest_errors(ms, occ.drop_last()) + route_manifest_errors(ms, occ.last())
    }
}

/// Ids of the declared math constraints.
pub open spec fn constraint_ids(cs: Seq<MathConstraint>) -> Seq<Seq<char>> {
    cs.map_values(|c: MathConstraint| c.id@)
}

/// Errors for the constraint references `cids` of occurrence `o` that no
/// declared constraint has.
pub open spec fn missing_constraints(known: Seq<Seq<char>>, o: Occurrence, cids: Seq<String>) -> Seq<ErrorView>
    decreases cids.len(),
{
    if cids.len() == 0 {
        seq![]
    } else {
        let rest = missing_constraints(known, o, cids.drop_last());
        let c = cids.last()@;
        if !known.contains(c) {
            rest.push(occ_error(RoutingErrorCode::ERR_CONSTRAINT_MISSING, missing_constraint_message(o.1.id@, o.0, o.1.tier, c), o))
        } else {
            rest
        }
    }
}

/// Constraint-reference errors of all occurrences, in order.
pub open spec fn constraint_errors(known: Seq<Seq<char>>, occ: Seq<Occurrence>) -> Seq<ErrorView>
    decreases occ.len(),
{
    if occ.len() == 0 {
        seq![]
    } else {
        constraint_errors(known, occ.drop_last()) + missing_constraints(known, occ.last(), occ.last().1.constraints@)
    }
}

/// All errors of a routing system: route conflicts, then manifest errors
/// per route, then unknown constraint references per route.
pub open spec fn routing_system_errors(ms: Seq<RepoManifest>, spine: RoutingSpine) -> Seq<ErrorView> {
    let occ = occurrences(spine.objectKinds@);
    conflict_errors(occ, occ.len())
        + manifest_errors(ms, occ)
        + constraint_errors(constraint_ids(spine.mathConstraints@), occ)
}

/// The occurrence at index pair `p` of the spine.
pub open spec fn occ_at(oks: Seq<ObjectKindEntry>, p: (usize, usize)) -> Occurrence {
    (oks[p.0 as int].name@, oks[p.0 as int].routes@[p.1 as int])
}

/// `p` indexes an existing route of the spine.
pub open spec fn valid_pair(oks: Seq<ObjectKindEntry>, p: (usize, usize)) -> bool {
    p.0 < oks.len() && p.1 < oks[p.0 as int].routes.len()
}

proof fn lemma_occurrences_step(oks: Seq<ObjectKindEntry>, i: int)
    requires
        0 <= i < oks.len(),
    ensures
        occurrences(oks.take(i + 1)) == occurrences(oks.take(i)) + oks[i].routes@.map_values(
            |r: RouteEntry| (oks[i].name@, r),
        ),
{
    assert(oks.take(i + 1).drop_last() =~= oks.take(i));
}

proof fn lemma_error_views_push(s: Seq<RoutingValidationError>, e: RoutingValidationError)
    ensures
        error_views(s.push(e)) == error_views(s).push(e@),
{
    assert(error_views(s.push(e)) =~= error_views(s).push(e@));
}

proof fn lemma_take_full<A>(s: Seq<A>)
    ensures
        s.take(s.len() as int) == s,
{
    assert(s.take(s.len() as int) =~= s);
}

/// The index pairs of all route occurrences, in document order.
fn occurrence_pairs(oks: &Vec<ObjectKindEntry>) -> (r: Vec<(usize, usize)>)
    ensures
        r@.len() == occurrences(oks@).len(),
        forall|k: int| 0 <= k < r@.len() ==> valid_pair(oks@, #[trigger] r@[k]),
        forall|k: int| 0 <= k < r@.len() ==> occ_at(oks@, #[trigger] r@[k]) == occurrences(oks@)[k],
{
    let mut r: Vec<(usize, usize)> = Vec::new();
    let mut i: usize = 0;
    while i < oks.len()
        invariant
            i <= oks.len(),
            r@.len() == occurrences(oks@.take(i as int)).len(),
            forall|k: int| 0 <= k < r@.len() ==> valid_pair(oks@, #[trigger] r@[k]),
            forall|k: int| 0 <= k < r@.len() ==> occ_at(oks@, #[trigger] r@[k]) == occurrences(oks@.take(i as int))[k],
        decreases oks.len() - i,
    {
        proof {
            lemma_occurrences_step(oks@, i as int);
        }
        let ghost before = occurrences(oks@.take(i as int));
        let ghost added = oks@[i as int].routes@.map_values(|rt: RouteEntry| (oks@[i as int].name@, rt));
        let n = oks[i].routes.len();
        let mut j: usize = 0;
        while j < n
            invariant
                i < oks.len(),
                n == oks@[i as int].routes.len(),
                j <= n,
                added == oks@[i as int].routes@.map_values(|rt: RouteEntry| (oks@[i as int].name@, rt)),
                r@.len() == before.len() + j,
                forall|k: int| 0 <= k < r@.len() ==> valid_pair(oks@, #[trigger] r@[k]),
                forall|k: int| 0 <= k < r@.len() ==> occ_at(oks@, #[trigger] r@[k]) == (before + added)[k],
            decreases n - j,
        {
            r.push((i, j));
            j = j + 1;
        }
        i = i + 1;
    }
    proof {
        lemma_take_full(oks@);
    }
    r
}


proof fn lemma_ids_step(occ: Seq<Occurrence>, m: int, key: (Seq<char>, Tier))
    requires
        0 <= m < occ.len(),
    ensures
        ids_with_key(occ.take(m + 1), key) == if occ_key(occ[m]) == key {
            ids_with_key(occ.take(m), key).push(occ[m].1.id@)
        } else {
            ids_with_key(occ.take(m), key)
        },
{
    assert(occ.take(m + 1).drop_last() =~= occ.take(m));
}

proof fn lemma_manifest_errors_step(ms: Seq<RepoManifest>, occ: Seq<Occurrence>, k: int)
    requires
        0 <= k < occ.len(),
    ensures
        manifest_errors(ms, occ.take(k + 1)) == manifest_errors(ms, occ.take(k)) + route_manifest_errors(ms, occ[k]),
{
    assert(occ.take(k + 1).drop_last() =~= occ.take(k));
}

proof fn lemma_constraint_errors_step(known: Seq<Seq<char>>, occ: Seq<Occurrence>, k: int)
    requires
        0 <= k < occ.len(),
    ensures
        constraint_errors(known, occ.take(k + 1)) == constraint_errors(known, occ.take(k)) + missing_constraints(
            known,
            occ[k],
            occ[k].1.constraints@,
        ),
{
    assert(occ.take(k + 1).drop_last() =~= occ.take(k));
}

proof fn lemma_missing_step(known: Seq<Seq<char>>, o: Occurrence, cids: Seq<String>, j: int)
    requires
        0 <= j < cids.len(),
    ensures
        missing_constraints(known, o, cids.take(j + 1)) == if !known.contains(cids[j]@) {
            missing_constraints(known, o, cids.take(j)).push(
                occ_error(RoutingErrorCode::ERR_CONSTRAINT_MISSING, missing_constraint_message(o.1.id@, o.0, o.1.tier, cids[j]@), o),
            )
        } else {
            missing_constraints(known, o, cids.take(j))
        },
{
    assert(cids.take(j + 1).drop_last() =~= cids.take(j));
}

proof fn lemma_manifest_for_step(ms: Seq<RepoManifest>, i: int, repo: RepoName)
    requires
        0 <= i < ms.len(),
    ensures
        manifest_for(ms.take(i + 1), repo) == if ms[i].repoName == repo {
            Some(ms[i])
        } else {
            manifest_for(ms.take(i), repo)
        },
{
    assert(ms.take(i + 1).drop_last() =~= ms.take(i));
}

/// Index of the manifest registered for `repo` (the last one with that name).
fn find_manifest_index(ms: &[RepoManifest], repo: RepoName) -> (r: Option<usize>)
    ensures
        match r {
            None => manifest_for(ms@, repo) is None,
            Some(i) => i < ms.len() && manifest_for(ms@, repo) == Some(ms@[i as int]),
        },
{
    let mut i: usize = ms.len();
    proof {
        lemma_take_full(ms@);
    }
    while i > 0
        invariant
            i <= ms.len(),
            manifest_for(ms@, repo) == manifest_for(ms@.take(i as int), repo),
        decreases i,
    {
        proof {
            lemma_manifest_for_step(ms@, i - 1, repo);
        }
        if ms[i - 1].repoName == repo {
            return Some(i - 1);
        }
        i = i - 1;
    }
    None
}

/// The uniqueness keys of occurrences `p` and `q` agree.
fn same_key(oks: &Vec<ObjectKindEntry>, p: (usize, usize), q: (usize, usize)) -> (r: bool)
    requires
        valid_pair(oks@, p),
        valid_pair(oks@, q),
    ensures
        r == (occ_key(occ_at(oks@, p)) == occ_key(occ_at(oks@, q))),
{
    str_eq(oks[p.0].name.as_str(), oks[q.0].name.as_str()) && oks[p.0].routes[p.1].tier == oks[q.0].routes[q.1].tier
}

/// The manifest-side errors of one route occurrence.
fn route_manifest_check(ms: &[RepoManifest], kind: &String, route: &RouteEntry) -> (r: Vec<RoutingValidationError>)
    ensures
        error_views(r@) == route_manifest_errors(ms@, (kind@, *route)),
{
    let ghost o: Occurrence = (kind@, *route);
    let mut r: Vec<RoutingValidationError> = Vec::new();
    match find_manifest_index(ms, route.repo) {
        None => {
            let mut msg = String::from_str("Route ");
            msg.append(route.id.as_str());
            msg.append(" targets repo ");
            msg.append(repo_debug_name(route.repo));
            msg.append(" but no manifest was provided.");
            r.push(RoutingValidationError {
                code: RoutingErrorCode::ERR_SOVEREIGNTY_VIOLATION,
                message: msg,
                objectKind: Some(kind.clone()),
                tier: Some(route.tier),
                repo: Some(route.repo),
                routeId: Some(route.id.clone()),
            });
            proof {
                assert(error_views(r@) =~= route_manifest_errors(ms@, o));
            }
            r
        },
        Some(mi) => {
            let m = &ms[mi];
            let listed = contains_string(&m.allowedObjectKinds, kind.as_str());
            if m.implicitDeny {
                if !listed {
                    let mut msg = String::from_str("Route ");
                    msg.append(route.id.as_str());
                    msg.append(" assigns objectKind=");
                    msg.append(kind.as_str());
                    msg.append(" to repo ");
                    msg.append(repo_debug_name(route.repo));
                    msg.append(" but manifest has implicitDeny=true and does not list this object kind.");
                    r.push(RoutingValidationError {
                        code: RoutingErrorCode::ERR_MANIFEST_IMPLICIT_DENY,
                        message: msg,
                        objectKind: Some(kind.clone()),
                        tier: Some(route.tier),
                        repo: Some(route.repo),
                        routeId: Some(route.id.clone()),
                    });
                }
            } else if m.allowedObjectKinds.len() > 0 && !listed {
                let mut msg = String::from_str("Route ");
                msg.append(route.id.as_str());
                msg.append(" assigns objectKind=");
                msg.append(kind.as_str());
                msg.append(" to repo ");
                msg.append(repo_debug_name(route.repo));
                msg.append(" but manifest.allowedObjectKinds does not include it.");
                r.push(RoutingValidationError {
                    code: RoutingErrorCode::ERR_MANIFEST_OBJECT_KIND_DENY,
                    message: msg,
                    objectKind: Some(kind.clone()),
                    tier: Some(route.tier),
                    repo: Some(route.repo),
                    routeId: Some(route.id.clone()),
                });
            }
            let ghost after_deny = r@;
            if m.tier != route.tier {
                let mut msg = String::from_str("Route ");
                msg.append(route.id.as_str());
                msg.append(" uses tier=");
                msg.append(tier_debug_name(route.tier));
                msg.append(" but manifest for repo ");
                msg.append(repo_debug_name(route.repo));
                msg.append(" is tier=");
                msg.append(tier_debug_name(m.tier));
                msg.append(".");
                r.push(RoutingValidationError {
                    code: RoutingErrorCode::ERR_ROUTE_TIER_NOT_ALLOWED,
                    message: msg,
                    objectKind: Some(kind.clone()),
                    tier: Some(route.tier),
                    repo: Some(route.repo),
                    routeId: Some(route.id.clone()),
                });
            }
            proof {
                assert(views(m.allowedObjectKinds@).len() == m.allowedObjectKinds@.len());
                assert(error_views(r@) =~= route_manifest_errors(ms@, o));
            }
            r
        },
    }
}

/// The unknown-constraint errors of one route occurrence.
fn route_constraint_check(known: &Vec<String>, kind: &String, route: &RouteEntry) -> (r: Vec<RoutingValidationError>)
    ensures
        error_views(r@) == missing_constraints(views(known@), (kind@, *route), route.constraints@),
{
    let ghost o: Occurrence = (kind@, *route);
    let mut r: Vec<RoutingValidationError> = Vec::new();
    let mut j: usize = 0;
    while j < route.constraints.len()
        invariant
            j <= route.constraints.len(),
            o == (kind@, *route),
            error_views(r@) == missing_constraints(views(known@), o, route.constraints@.take(j as int)),
        decreases route.constraints.len() - j,
    {
        proof {
            lemma_missing_step(views(known@), o, route.constraints@, j as int);
        }
        let c = &route.constraints[j];
        if !contains_string(known, c.as_str()) {
            let mut msg = String::from_str("Route ");
            msg.append(route.id.as_str());
            msg.append(" for objectKind=");
            msg.append(kind.as_str());
            msg.append(" tier=");
            msg.append(tier_debug_name(route.tier));
            msg.append(" references unknown constraint id=");
            msg.append(c.as_str());
            let e = RoutingValidationError {
                code: RoutingErrorCode::ERR_CONSTRAINT_MISSING,
                message: msg,
                objectKind: Some(kind.clone()),
                tier: Some(route.tier),
                repo: Some(route.repo),
                routeId: Some(route.id.clone()),
            };
            proof {
                lemma_error_views_push(r@, e);
            }
            r.push(e);
        }
        j = j + 1;
    }
    proof {
        lemma_take_full(route.constraints@);
    }
    r
}

/// Validate the entire routing system: manifests together with the spine.
///
/// Reports, in this order: one conflict per `(objectKind, tier)` served by
/// more than one route; per route, a missing manifest, an object kind the
/// manifest does not accept, and a tier disagreement; per route, every
/// constraint id that the spine does not declare.
pub fn validate_routing_system(manifests: &[RepoManifest], spine: &RoutingSpine) -> (r: Vec<RoutingValidationError>)
    ensures
        error_views(r@) == routing_system_errors(manifests@, *spine),
{
    let oks = &spine.objectKinds;
    let pairs = occurrence_pairs(oks);
    let n = pairs.len();
    let ghost occ = occurrences(oks@);
    let mut errs: Vec<RoutingValidationError> = Vec::new();

    // 1. Uniqueness of (objectKind, tier).
    let mut k: usize = 0;
    while k < n
        invariant
            n == pairs@.len(),
            occ == occurrences(oks@),
            n == occ.len(),
            forall|q: int| 0 <= q < n ==> valid_pair(oks@, #[trigger] pairs@[q]),
            forall|q: int| 0 <= q < n ==> occ_at(oks@, #[trigger] pairs@[q]) == occ[q],
            k <= n,
            error_views(errs@) == conflict_errors(occ, k as nat),
        decreases n - k,
    {
        let p = pairs[k];
        let ghost key = occ_key(occ[k as int]);
        let mut first = true;
        let mut m: usize = 0;
        while m < k
            invariant
                n == pairs@.len(),
                forall|q: int| 0 <= q < n ==> valid_pair(oks@, #[trigger] pairs@[q]),
                forall|q: int| 0 <= q < n ==> occ_at(oks@, #[trigger] pairs@[q]) == occ[q],
                k < n,
                p == pairs@[k as int],
                key == occ_key(occ[k as int]),
                m <= k,
                first == (forall|q: int| 0 <= q < m ==> occ_key(#[trigger] occ[q]) != key),
            decreases k - m,
        {
            if same_key(oks, pairs[m], p) {
                first = false;
            }
            m = m + 1;
        }
        if first {
            let mut ids: Vec<String> = Vec::new();
            let mut m2: usize = 0;
            while m2 < n
                invariant
                    n == pairs@.len(),
                    n == occ.len(),
                    forall|q: int| 0 <= q < n ==> valid_pair(oks@, #[trigger] pairs@[q]),
                    forall|q: int| 0 <= q < n ==> occ_at(oks@, #[trigger] pairs@[q]) == occ[q],
                    k < n,
                    p == pairs@[k as int],
                    key == occ_key(occ[k as int]),
                    m2 <= n,
                    views(ids@) == ids_with_key(occ.take(m2 as int), key),
                decreases n - m2,
            {
                proof {
                    lemma_ids_step(occ, m2 as int, key);
                }
                let q = pairs[m2];
                if same_key(oks, q, p) {
                    ids.push(oks[q.0].routes[q.1].id.clone());
                    proof {
                        assert(views(ids@) =~= ids_with_key(occ.take(m2 + 1), key));
                    }
                }
                m2 = m2 + 1;
            }
            proof {
                lemma_take_full(occ);
                assert(first_of_key(occ, k as int));
            }
            if ids.len() > 1 {
                let kind = &oks[p.0].name;
                let tier = oks[p.0].routes[p.1].tier;
                let mut msg = String::from_str("Route conflict for objectKind=");
                msg.append(kind.as_str());
                msg.append(" tier=");
                msg.append(tier_debug_name(tier));
                msg.append(", routeIds=");
                let list = debug_string_list(&ids);
                msg.append(list.as_str());
                let e = RoutingValidationError {
                    code: RoutingErrorCode::ERR_ROUTE_CONFLICT,
                    message: msg,
                    objectKind: Some(kind.clone()),
                    tier: Some(tier),
                    repo: None,
                    routeId: None,
                };
                proof {
                    lemma_error_views_push(errs@, e);
                }
                errs.push(e);
            }
        } else {
            proof {
                assert(!first_of_key(occ, k as int));
            }
        }
        k = k + 1;
    }
    let ghost conflicts = error_views(errs@);

    // 2. Manifest presence, implicit deny / allowed kinds, tier agreement.
    let mut k: usize = 0;
    while k < n
        invariant
            n == pairs@.len(),
            n == occ.len(),
            forall|q: int| 0 <= q < n ==> valid_pair(oks@, #[trigger] pairs@[q]),
            forall|q: int| 0 <= q < n ==> occ_at(oks@, #[trigger] pairs@[q]) == occ[q],
            k <= n,
            error_views(errs@) == conflicts + manifest_errors(manifests@, occ.take(k as int)),
        decreases n - k,
    {
        proof {
            lemma_manifest_errors_step(manifests@, occ, k as int);
        }
        let p = pairs[k];
        let mut more = route_manifest_check(manifests, &oks[p.0].name, &oks[p.0].routes[p.1]);
        let ghost before = errs@;
        errs.append(&mut more);
        proof {
            assert(error_views(errs@) =~= error_views(before) + route_manifest_errors(manifests@, occ[k as int]));
        }
        k = k + 1;
    }
    proof {
        lemma_take_full(occ);
    }
    let ghost with_manifests = error_views(errs@);

    // 3. Constraint references must be declared.
    let mut known: Vec<String> = Vec::new();
    let mut c: usize = 0;
    while c < spine.mathConstraints.len()
        invariant
            c <= spine.mathConstraints.len(),
            views(known@) == constraint_ids(spine.mathConstraints@.take(c as int)),
        decreases spine.mathConstraints.len() - c,
    {
        let id = spine.mathConstraints[c].id.clone();
        let ghost before = known@;
        known.push(id);
        proof {
            assert(known@ == before.push(id));
            assert(id@ == spine.mathConstraints@[c as int].id@);
            let mcs = spine.mathConstraints@;
            assert(views(before).len() == before.len());
            assert(constraint_ids(mcs.take(c as int)).len() == c);
            assert(before.len() == c);
            assert forall|j: int| 0 <= j < c implies #[trigger] views(known@)[j] == constraint_ids(mcs.take(c + 1))[j] by {
                assert(views(known@)[j] == known@[j]@);
                assert(known@[j] == before[j]);
                assert(views(before)[j] == constraint_ids(mcs.take(c as int))[j]);
            }
            assert(views(known@)[c as int] == constraint_ids(mcs.take(c + 1))[c as int]);
            assert(views(known@) =~= constraint_ids(mcs.take(c + 1)));
        }
        c = c + 1;
    }
    proof {
        lemma_take_full(spine.mathConstraints@);
    }
    let mut k: usize = 0;
    while k < n
        invariant
            n == pairs@.len(),
            n == occ.len(),
            forall|q: int| 0 <= q < n ==> valid_pair(oks@, #[trigger] pairs@[q]),
            forall|q: int| 0 <= q < n ==> occ_at(oks@, #[trigger] pairs@[q]) == occ[q],
            k <= n,
            views(known@) == constraint_ids(spine.mathConstraints@),
            error_views(errs@) == with_manifests + constraint_errors(views(known@), occ.take(k as int)),
        decreases n - k,
    {
        proof {
            lemma_constraint_errors_step(views(known@), occ, k as int);
        }
        let p = pairs[k];
        let mut more = route_constraint_check(&known, &oks[p.0].name, &oks[p.0].routes[p.1]);
        let ghost before = errs@;
        errs.append(&mut more);
        proof {
            assert(error_views(errs@) =~= error_views(before) + missing_constraints(
                views(known@),
                occ[k as int],
                occ[k as int].1.constraints@,
            ));
        }
        k = k + 1;
    }
    proof {
        lemma_take_full(occ);
        assert(error_views(errs@) =~= routing_system_errors(manifests@, *spine));
    }
    errs
}


// ---------------------------------------------------------------------
// Laws
// ---------------------------------------------------------------------

proof fn lemma_ids_with_key_concat(a: Seq<Occurrence>, b: Seq<Occurrence>, key: (Seq<char>, Tier))
    ensures
        ids_with_key(a + b, key) == ids_with_key(a, key) + ids_with_key(b, key),
    decreases b.len(),
{
    if b.len() == 0 {
        assert(a + b =~= a);
        assert(ids_with_key(b, key) =~= Seq::<Seq<char>>::empty());
        assert(ids_with_key(a, key) + ids_with_key(b, key) =~= ids_with_key(a, key));
    } else {
        assert((a + b).drop_last() =~= a + b.drop_last());
        assert((a + b).last() == b.last());
        lemma_ids_with_key_concat(a, b.drop_last(), key);
        if occ_key(b.last()) == key {
            assert(ids_with_key(a, key) + ids_with_key(b.drop_last(), key).push(b.last().1.id@)
                =~= (ids_with_key(a, key) + ids_with_key(b.drop_last(), key)).push(b.last().1.id@));
        }
    }
}

proof fn lemma_ids_of_entry(name: Seq<char>, routes: Seq<RouteEntry>, kind: Seq<char>, tier: Tier)
    ensures
        name == kind ==> ids_with_key(routes.map_values(|r: RouteEntry| (name, r)), (kind, tier)).len()
            == routes_for_tier(routes, tier).len(),
    decreases routes.len(),
{
    if routes.len() > 0 {
        let f = |r: RouteEntry| (name, r);
        assert(routes.map_values(f).drop_last() =~= routes.drop_last().map_values(f));
        lemma_ids_of_entry(name, routes.drop_last(), kind, tier);
    }
}

proof fn lemma_matching_le_ids(oks: Seq<ObjectKindEntry>, kind: Seq<char>, tier: Tier)
    ensures
        matching_routes(oks, kind, tier).len() <= ids_with_key(occurrences(oks), (kind, tier)).len(),
    decreases oks.len(),
{
    if oks.len() > 0 {
        let last = oks.last();
        let added = last.routes@.map_values(|r: RouteEntry| (last.name@, r));
        lemma_matching_le_ids(oks.drop_last(), kind, tier);
        lemma_ids_with_key_concat(occurrences(oks.drop_last()), added, (kind, tier));
        lemma_ids_of_entry(last.name@, last.routes@, kind, tier);
    }
}

proof fn lemma_key_present(occ: Seq<Occurrence>, key: (Seq<char>, Tier))
    requires
        ids_with_key(occ, key).len() > 0,
    ensures
        exists|k: int| 0 <= k < occ.len() && occ_key(#[trigger] occ[k]) == key,
    decreases occ.len(),
{
    if occ_key(occ.last()) == key {
        assert(occ_key(occ[occ.len() - 1]) == key);
    } else {
        lemma_key_present(occ.drop_last(), key);
        let k = choose|k: int| 0 <= k < occ.drop_last().len() && occ_key(#[trigger] occ.drop_last()[k]) == key;
        assert(occ[k] == occ.drop_last()[k]);
    }
}

proof fn lemma_first_occurrence(occ: Seq<Occurrence>, k: int)
    requires
        0 <= k < occ.len(),
    ensures
        exists|f: int| 0 <= f <= k && first_of_key(occ, f) && occ_key(#[trigger] occ[f]) == occ_key(occ[k]),
    decreases k,
{
    if first_of_key(occ, k) {
        assert(occ_key(occ[k]) == occ_key(occ[k]));
    } else {
        let m = choose|m: int| 0 <= m < k && occ_key(#[trigger] occ[m]) == occ_key(occ[k]);
        lemma_first_occurrence(occ, m);
    }
}

proof fn lemma_conflict_reported(occ: Seq<Occurrence>, n: nat, f: int)
    requires
        0 <= f < n <= occ.len(),
        first_of_key(occ, f),
        ids_with_key(occ, occ_key(occ[f])).len() > 1,
    ensures
        exists|i: int| 0 <= i < conflict_errors(occ, n).len()
            && (#[trigger] conflict_errors(occ, n)[i]).0 == RoutingErrorCode::ERR_ROUTE_CONFLICT
            && conflict_errors(occ, n)[i].2 == Some(occ_key(occ[f]).0) && conflict_errors(occ, n)[i].3 == Some(occ_key(occ[f]).1),
    decreases n,
{
    let k = n - 1;
    if f == k {
        let e = conflict_errors(occ, n).last();
        assert(conflict_errors(occ, n)[conflict_errors(occ, n).len() - 1] == e);
    } else {
        lemma_conflict_reported(occ, (n - 1) as nat, f);
        let i = choose|i: int| 0 <= i < conflict_errors(occ, (n - 1) as nat).len()
            && (#[trigger] conflict_errors(occ, (n - 1) as nat)[i]).0 == RoutingErrorCode::ERR_ROUTE_CONFLICT
            && conflict_errors(occ, (n - 1) as nat)[i].2 == Some(occ_key(occ[f]).0)
            && conflict_errors(occ, (n - 1) as nat)[i].3 == Some(occ_key(occ[f]).1);
        assert(conflict_errors(occ, n)[i] == conflict_errors(occ, (n - 1) as nat)[i]);
    }
}

/// Every conflict error names a key that more than one route serves.
proof fn lemma_conflict_errors_sound(occ: Seq<Occurrence>, n: nat)
    requires
        n <= occ.len(),
    ensures
        forall|i: int| 0 <= i < conflict_errors(occ, n).len() ==> ({
            let e = #[trigger] conflict_errors(occ, n)[i];
            &&& e.0 == RoutingErrorCode::ERR_ROUTE_CONFLICT
            &&& e.2 is Some && e.3 is Some
            &&& ids_with_key(occ, (e.2->0, e.3->0)).len() > 1
        }),
    decreases n,
{
    if n > 0 {
        lemma_conflict_errors_sound(occ, (n - 1) as nat);
        let rest = conflict_errors(occ, (n - 1) as nat);
        let all = conflict_errors(occ, n);
        assert forall|i: int| 0 <= i < all.len() implies ({
            let e = #[trigger] all[i];
            &&& e.0 == RoutingErrorCode::ERR_ROUTE_CONFLICT
            &&& e.2 is Some && e.3 is Some
            &&& ids_with_key(occ, (e.2->0, e.3->0)).len() > 1
        }) by {
            if i < rest.len() {
                assert(all[i] == rest[i]);
            }
        }
    }
}

proof fn lemma_manifest_errors_not_conflicts(ms: Seq<RepoManifest>, occ: Seq<Occurrence>)
    ensures
        forall|i: int| 0 <= i < manifest_errors(ms, occ).len() ==> (#[trigger] manifest_errors(ms, occ)[i]).0 != RoutingErrorCode::ERR_ROUTE_CONFLICT,
    decreases occ.len(),
{
    if occ.len() > 0 {
        let init = occ.drop_last();
        lemma_manifest_errors_not_conflicts(ms, init);
        let a = manifest_errors(ms, init);
        let b = route_manifest_errors(ms, occ.last());
        assert(manifest_errors(ms, occ) == a + b);
        assert forall|i: int| 0 <= i < (a + b).len() implies (#[trigger] (a + b)[i]).0 != RoutingErrorCode::ERR_ROUTE_CONFLICT by {
            if i < a.len() {
                assert((a + b)[i] == a[i]);
            } else {
                assert((a + b)[i] == b[i - a.len()]);
            }
        }
    }
}

/// `errs` reports a route conflict for object kind `kind` at tier `tier`.
pub open spec fn reports_conflict(errs: Seq<ErrorView>, kind: Seq<char>, tier: Tier) -> bool {
    exists|i: int| 0 <= i < errs.len() && (#[trigger] errs[i]).0 == RoutingErrorCode::ERR_ROUTE_CONFLICT
        && errs[i].2 == Some(kind) && errs[i].3 == Some(tier)
}

/// Route conflicts: the system reports a conflict for `(objectKind, tier)`
/// exactly when more than one route of the spine is listed for that object
/// kind at that tier.
pub proof fn lemma_conflict_iff_several_routes(ms: Seq<RepoManifest>, spine: RoutingSpine, kind: Seq<char>, tier: Tier)
    ensures
        reports_conflict(routing_system_errors(ms, spine), kind, tier)
            <==> ids_with_key(occurrences(spine.objectKinds@), (kind, tier)).len() > 1,
{
    let occ = occurrences(spine.objectKinds@);
    let c = conflict_errors(occ, occ.len());
    let m = manifest_errors(ms, occ);
    let x = constraint_errors(constraint_ids(spine.mathConstraints@), occ);
    let all = routing_system_errors(ms, spine);
    assert(all == (c + m) + x);
    lemma_conflict_errors_sound(occ, occ.len());
    lemma_manifest_errors_not_conflicts(ms, occ);
    lemma_constraint_errors_code(constraint_ids(spine.mathConstraints@), occ);
    if reports_conflict(all, kind, tier) {
        let i = choose|i: int| 0 <= i < all.len() && (#[trigger] all[i]).0 == RoutingErrorCode::ERR_ROUTE_CONFLICT
            && all[i].2 == Some(kind) && all[i].3 == Some(tier);
        if i < c.len() {
            assert(all[i] == c[i]);
        } else if i < c.len() + m.len() {
            assert(all[i] == m[i - c.len()]);
        } else {
            assert(all[i] == x[i - c.len() - m.len()]);
        }
    }
    let key = (kind, tier);
    if ids_with_key(occ, key).len() > 1 {
        lemma_key_present(occ, key);
        let k = choose|k: int| 0 <= k < occ.len() && occ_key(#[trigger] occ[k]) == key;
        lemma_first_occurrence(occ, k);
        let f = choose|f: int| 0 <= f <= k && first_of_key(occ, f) && occ_key(#[trigger] occ[f]) == occ_key(occ[k]);
        lemma_conflict_reported(occ, occ.len(), f);
        let i = choose|i: int| 0 <= i < c.len() && (#[trigger] c[i]).0 == RoutingErrorCode::ERR_ROUTE_CONFLICT
            && c[i].2 == Some(occ_key(occ[f]).0) && c[i].3 == Some(occ_key(occ[f]).1);
        assert(all[i] == c[i]);
    }
}

/// A routing system that validates without any route conflict resolves
/// every `(objectKind, tier)` to at most one route: `resolve_route` on its
/// spine never answers with `ERR_ROUTE_CONFLICT`.
pub proof fn lemma_conflict_free_spine_resolves_unambiguously(
    ms: Seq<RepoManifest>,
    spine: RoutingSpine,
    kind: Seq<char>,
    tier: Tier,
)
    requires
        forall|i: int| 0 <= i < routing_system_errors(ms, spine).len()
            ==> (#[trigger] routing_system_errors(ms, spine)[i]).0 != RoutingErrorCode::ERR_ROUTE_CONFLICT,
    ensures
        matching_routes(spine.objectKinds@, kind, tier).len() <= 1,
{
    let oks = spine.objectKinds@;
    let occ = occurrences(oks);
    let key = (kind, tier);
    lemma_matching_le_ids(oks, kind, tier);
    if ids_with_key(occ, key).len() > 1 {
        lemma_key_present(occ, key);
        let k = choose|k: int| 0 <= k < occ.len() && occ_key(#[trigger] occ[k]) == key;
        lemma_first_occurrence(occ, k);
        let f = choose|f: int| 0 <= f <= k && first_of_key(occ, f) && occ_key(#[trigger] occ[f]) == occ_key(occ[k]);
        lemma_conflict_reported(occ, occ.len(), f);
        let conflicts = conflict_errors(occ, occ.len());
        let i = choose|i: int| 0 <= i < conflicts.len() && (#[trigger] conflicts[i]).0 == RoutingErrorCode::ERR_ROUTE_CONFLICT;
        let all = routing_system_errors(ms, spine);
        assert(all == conflicts + manifest_errors(ms, occ) + constraint_errors(constraint_ids(spine.mathConstraints@), occ));
        assert(all[i] == conflicts[i]);
    }
}

/// `errs` reports an error with code `code` for the route with id `id`.
pub open spec fn reports(errs: Seq<ErrorView>, code: RoutingErrorCode, id: Seq<char>) -> bool {
    exists|i: int| 0 <= i < errs.len() && (#[trigger] errs[i]).0 == code && errs[i].5 == Some(id)
}

/// The route ids of the spine's occurrences are pairwise distinct.
pub open spec fn distinct_route_ids(occ: Seq<Occurrence>) -> bool {
    forall|i: int, j: int| 0 <= i < j < occ.len() ==> (#[trigger] occ[i]).1.id@ != (#[trigger] occ[j]).1.id@
}

proof fn lemma_conflict_errors_have_no_route(occ: Seq<Occurrence>, n: nat)
    ensures
        forall|i: int| 0 <= i < conflict_errors(occ, n).len() ==> (#[trigger] conflict_errors(occ, n)[i]).5 is None,
    decreases n,
{
    if n > 0 {
        lemma_conflict_errors_have_no_route(occ, (n - 1) as nat);
    }
}

proof fn lemma_missing_constraints_code(known: Seq<Seq<char>>, o: Occurrence, cids: Seq<String>)
    ensures
        forall|i: int| 0 <= i < missing_constraints(known, o, cids).len()
            ==> (#[trigger] missing_constraints(known, o, cids)[i]).0 == RoutingErrorCode::ERR_CONSTRAINT_MISSING,
    decreases cids.len(),
{
    if cids.len() > 0 {
        lemma_missing_constraints_code(known, o, cids.drop_last());
    }
}

proof fn lemma_constraint_errors_code(known: Seq<Seq<char>>, occ: Seq<Occurrence>)
    ensures
        forall|i: int| 0 <= i < constraint_errors(known, occ).len()
            ==> (#[trigger] constraint_errors(known, occ)[i]).0 == RoutingErrorCode::ERR_CONSTRAINT_MISSING,
    decreases occ.len(),
{
    if occ.len() > 0 {
        lemma_constraint_errors_code(known, occ.drop_last());
        lemma_missing_constraints_code(known, occ.last(), occ.last().1.constraints@);
        let a = constraint_errors(known, occ.drop_last());
        let b = missing_constraints(known, occ.last(), occ.last().1.constraints@);
        assert forall|i: int| 0 <= i < (a + b).len() implies (#[trigger] (a + b)[i]).0 == RoutingErrorCode::ERR_CONSTRAINT_MISSING by {
            if i >= a.len() {
                assert((a + b)[i] == b[i - a.len()]);
            }
        }
    }
}

/// Every error of one route's manifest check names that route.
proof fn lemma_route_errors_name_route(ms: Seq<RepoManifest>, o: Occurrence)
    ensures
        forall|i: int| 0 <= i < route_manifest_errors(ms, o).len() ==> (#[trigger] route_manifest_errors(ms, o)[i]).5 == Some(o.1.id@),
{
}

proof fn lemma_reports_concat(a: Seq<ErrorView>, b: Seq<ErrorView>, code: RoutingErrorCode, id: Seq<char>)
    ensures
        reports(a + b, code, id) <==> reports(a, code, id) || reports(b, code, id),
{
    if reports(a + b, code, id) {
        let i = choose|i: int| 0 <= i < (a + b).len() && (#[trigger] (a + b)[i]).0 == code && (a + b)[i].5 == Some(id);
        if i < a.len() {
            assert((a + b)[i] == a[i]);
        } else {
            assert((a + b)[i] == b[i - a.len()]);
        }
    }
    if reports(a, code, id) {
        let i = choose|i: int| 0 <= i < a.len() && (#[trigger] a[i]).0 == code && a[i].5 == Some(id);
        assert((a + b)[i] == a[i]);
    }
    if reports(b, code, id) {
        let i = choose|i: int| 0 <= i < b.len() && (#[trigger] b[i]).0 == code && b[i].5 == Some(id);
        assert((a + b)[a.len() + i] == b[i]);
    }
}

/// The manifest errors of the system report `code` for `id` exactly when
/// the manifest check of some route does.
proof fn lemma_manifest_errors_report(ms: Seq<RepoManifest>, occ: Seq<Occurrence>, code: RoutingErrorCode, id: Seq<char>)
    ensures
        reports(manifest_errors(ms, occ), code, id) <==> exists|k: int| 0 <= k < occ.len() && reports(route_manifest_errors(ms, #[trigger] occ[k]), code, id),
    decreases occ.len(),
{
    if occ.len() > 0 {
        let init = occ.drop_last();
        lemma_manifest_errors_report(ms, init, code, id);
        lemma_reports_concat(manifest_errors(ms, init), route_manifest_errors(ms, occ.last()), code, id);
        if exists|k: int| 0 <= k < occ.len() && reports(route_manifest_errors(ms, #[trigger] occ[k]), code, id) {
            let k = choose|k: int| 0 <= k < occ.len() && reports(route_manifest_errors(ms, #[trigger] occ[k]), code, id);
            if k < init.len() {
                assert(init[k] == occ[k]);
            } else {
                assert(occ[k] == occ.last());
            }
        }
        if exists|k: int| 0 <= k < init.len() && reports(route_manifest_errors(ms, #[trigger] init[k]), code, id) {
            let k = choose|k: int| 0 <= k < init.len() && reports(route_manifest_errors(ms, #[trigger] init[k]), code, id);
            assert(init[k] == occ[k]);
        }
        if reports(route_manifest_errors(ms, occ.last()), code, id) {
            assert(occ[occ.len() - 1] == occ.last());
        }
    } else {
        assert(manifest_errors(ms, occ).len() == 0);
    }
}

/// What a route's own manifest check reports, by code.
proof fn lemma_route_errors_by_code(ms: Seq<RepoManifest>, o: Occurrence, code: RoutingErrorCode)
    ensures
        reports(route_manifest_errors(ms, o), code, o.1.id@) <==> match manifest_for(ms, o.1.repo) {
            None => code == RoutingErrorCode::ERR_SOVEREIGNTY_VIOLATION,
            Some(m) => {
                let allowed = views(m.allowedObjectKinds@);
                ||| (code == RoutingErrorCode::ERR_MANIFEST_IMPLICIT_DENY && m.implicitDeny && !allowed.contains(o.0))
                ||| (code == RoutingErrorCode::ERR_MANIFEST_OBJECT_KIND_DENY && !m.implicitDeny && allowed.len() > 0 && !allowed.contains(o.0))
                ||| (code == RoutingErrorCode::ERR_ROUTE_TIER_NOT_ALLOWED && m.tier != o.1.tier)
            },
        },
{
    let errs = route_manifest_errors(ms, o);
    match manifest_for(ms, o.1.repo) {
        None => {
            if code == RoutingErrorCode::ERR_SOVEREIGNTY_VIOLATION {
                assert(errs[0].0 == code && errs[0].5 == Some(o.1.id@));
            }
        },
        Some(m) => {
            let allowed = views(m.allowedObjectKinds@);
            let kind = o.0;
            let route = o.1;
            let deny = if m.implicitDeny {
                if !allowed.contains(kind) {
                    seq![occ_error(RoutingErrorCode::ERR_MANIFEST_IMPLICIT_DENY, implicit_deny_message(route.id@, kind, route.repo), o)]
                } else {
                    seq![]
                }
            } else if allowed.len() > 0 && !allowed.contains(kind) {
                seq![occ_error(RoutingErrorCode::ERR_MANIFEST_OBJECT_KIND_DENY, kind_deny_message(route.id@, kind, route.repo), o)]
            } else {
                seq![]
            };
            let tier_err = if m.tier != route.tier {
                seq![occ_error(RoutingErrorCode::ERR_ROUTE_TIER_NOT_ALLOWED, tier_mismatch_message(route.id@, route.tier, route.repo, m.tier), o)]
            } else {
                seq![]
            };
            assert(errs == deny + tier_err);
            if deny.len() > 0 {
                assert(errs[0] == deny[0]);
            }
            if tier_err.len() > 0 {
                assert(errs[deny.len() as int] == tier_err[0]);
            }
            assert forall|i: int| 0 <= i < errs.len() implies (#[trigger] errs[i]) == if i < deny.len() { deny[i] } else { tier_err[i - deny.len()] } by {
            }
        },
    }
}

/// Each route's manifest check, seen in the whole system's errors: for a
/// route whose id no other route shares, the system reports a sovereignty
/// violation for it exactly when no manifest governs its repo; otherwise it
/// reports an implicit deny exactly when the manifest denies implicitly and
/// does not list the route's object kind, an object-kind deny exactly when
/// the manifest lists object kinds, does not deny implicitly and does not
/// list it, and a tier error exactly when the tiers differ.
#[verifier::rlimit(60)]
pub proof fn lemma_route_level_errors(ms: Seq<RepoManifest>, spine: RoutingSpine, k: int, code: RoutingErrorCode)
    requires
        0 <= k < occurrences(spine.objectKinds@).len(),
        distinct_route_ids(occurrences(spine.objectKinds@)),
        code != RoutingErrorCode::ERR_ROUTE_CONFLICT,
        code != RoutingErrorCode::ERR_CONSTRAINT_MISSING,
    ensures
        ({
            let occ = occurrences(spine.objectKinds@);
            let o = occ[k];
            reports(routing_system_errors(ms, spine), code, o.1.id@) <==> match manifest_for(ms, o.1.repo) {
                None => code == RoutingErrorCode::ERR_SOVEREIGNTY_VIOLATION,
                Some(m) => {
                    let allowed = views(m.allowedObjectKinds@);
                    ||| (code == RoutingErrorCode::ERR_MANIFEST_IMPLICIT_DENY && m.implicitDeny && !allowed.contains(o.0))
                    ||| (code == RoutingErrorCode::ERR_MANIFEST_OBJECT_KIND_DENY && !m.implicitDeny && allowed.len() > 0 && !allowed.contains(o.0))
                    ||| (code == RoutingErrorCode::ERR_ROUTE_TIER_NOT_ALLOWED && m.tier != o.1.tier)
                },
            }
        }),
{
    let occ = occurrences(spine.objectKinds@);
    let o = occ[k];
    let id = o.1.id@;
    let c = conflict_errors(occ, occ.len());
    let m = manifest_errors(ms, occ);
    let x = constraint_errors(constraint_ids(spine.mathConstraints@), occ);
    assert(routing_system_errors(ms, spine) == (c + m) + x);
    lemma_reports_concat(c + m, x, code, id);
    lemma_reports_concat(c, m, code, id);
    lemma_conflict_errors_have_no_route(occ, occ.len());
    if reports(c, code, id) {
        let i = choose|i: int| 0 <= i < c.len() && (#[trigger] c[i]).0 == code && c[i].5 == Some(id);
    }
    lemma_constraint_errors_code(constraint_ids(spine.mathConstraints@), occ);
    if reports(x, code, id) {
        let i = choose|i: int| 0 <= i < x.len() && (#[trigger] x[i]).0 == code && x[i].5 == Some(id);
    }
    lemma_manifest_errors_report(ms, occ, code, id);
    lemma_route_errors_by_code(ms, o, code);
    if reports(m, code, id) {
        let kk = choose|kk: int| 0 <= kk < occ.len() && reports(route_manifest_errors(ms, #[trigger] occ[kk]), code, id);
        lemma_route_errors_name_route(ms, occ[kk]);
        let own = route_manifest_errors(ms, occ[kk]);
        let j = choose|j: int| 0 <= j < own.len() && (#[trigger] own[j]).0 == code && own[j].5 == Some(id);
        assert(own[j].5 == Some(occ[kk].1.id@));
        if kk < k {
            assert(occ[kk].1.id@ != occ[k].1.id@);
        } else if kk > k {
            assert(occ[k].1.id@ != occ[kk].1.id@);
        }
    }
}

/// How many errors of `errs` have code `code` and route id `id`.
pub open spec fn count_reports(errs: Seq<ErrorView>, code: RoutingErrorCode, id: Seq<char>) -> nat
    decreases errs.len(),
{
    if errs.len() == 0 {
        0
    } else {
        let l = errs.last();
        count_reports(errs.drop_last(), code, id) + if l.0 == code && l.5 == Some(id) { 1nat } else { 0nat }
    }
}

proof fn lemma_count_reports_concat(a: Seq<ErrorView>, b: Seq<ErrorView>, code: RoutingErrorCode, id: Seq<char>)
    ensures
        count_reports(a + b, code, id) == count_reports(a, code, id) + count_reports(b, code, id),
    decreases b.len(),
{
    if b.len() == 0 {
        assert(a + b =~= a);
    } else {
        lemma_count_reports_concat(a, b.drop_last(), code, id);
        assert((a + b).drop_last() =~= a + b.drop_last());
        assert((a + b).last() == b.last());
    }
}

proof fn lemma_count_reports_zero(errs: Seq<ErrorView>, code: RoutingErrorCode, id: Seq<char>)
    ensures
        count_reports(errs, code, id) == 0 <==> !reports(errs, code, id),
    decreases errs.len(),
{
    if errs.len() > 0 {
        let init = errs.drop_last();
        lemma_count_reports_zero(init, code, id);
        if reports(errs, code, id) {
            let i = choose|i: int| 0 <= i < errs.len() && (#[trigger] errs[i]).0 == code && errs[i].5 == Some(id);
            if i < init.len() {
                assert(init[i] == errs[i]);
            }
        }
        if reports(init, code, id) {
            let i = choose|i: int| 0 <= i < init.len() && (#[trigger] init[i]).0 == code && init[i].5 == Some(id);
            assert(errs[i] == init[i]);
        }
        if errs.last().0 == code && errs.last().5 == Some(id) {
            assert(errs[errs.len() - 1] == errs.last());
        }
    }
}

proof fn lemma_count_manifest_errors(ms: Seq<RepoManifest>, occ: Seq<Occurrence>, k: int, code: RoutingErrorCode)
    requires
        0 <= k < occ.len(),
        distinct_route_ids(occ),
    ensures
        count_reports(manifest_errors(ms, occ), code, occ[k].1.id@) == count_reports(route_manifest_errors(ms, occ[k]), code, occ[k].1.id@),
    decreases occ.len(),
{
    let id = occ[k].1.id@;
    let init = occ.drop_last();
    let last = occ.last();
    assert(occ[occ.len() - 1] == last);
    lemma_count_reports_concat(manifest_errors(ms, init), route_manifest_errors(ms, last), code, id);
    if k < occ.len() - 1 {
        assert(init[k] == occ[k]);
        assert(distinct_route_ids(init)) by {
            assert forall|i: int, j: int| 0 <= i < j < init.len() implies (#[trigger] init[i]).1.id@ != (#[trigger] init[j]).1.id@ by {
                assert(init[i] == occ[i] && init[j] == occ[j]);
            }
        }
        lemma_count_manifest_errors(ms, init, k, code);
        assert(last.1.id@ != id);
        lemma_other_route_counts_zero(ms, last, code, id);
    } else {
        lemma_count_before(ms, init, code, id);
    }
}

proof fn lemma_other_route_counts_zero(ms: Seq<RepoManifest>, o: Occurrence, code: RoutingErrorCode, id: Seq<char>)
    requires
        o.1.id@ != id,
    ensures
        count_reports(route_manifest_errors(ms, o), code, id) == 0,
{
    lemma_route_errors_name_route(ms, o);
    let own = route_manifest_errors(ms, o);
    if reports(own, code, id) {
        let i = choose|i: int| 0 <= i < own.len() && (#[trigger] own[i]).0 == code && own[i].5 == Some(id);
    }
    lemma_count_reports_zero(own, code, id);
}

proof fn lemma_count_before(ms: Seq<RepoManifest>, occ: Seq<Occurrence>, code: RoutingErrorCode, id: Seq<char>)
    requires
        forall|i: int| 0 <= i < occ.len() ==> (#[trigger] occ[i]).1.id@ != id,
    ensures
        count_reports(manifest_errors(ms, occ), code, id) == 0,
    decreases occ.len(),
{
    if occ.len() > 0 {
        let init = occ.drop_last();
        assert(occ[occ.len() - 1] == occ.last());
        assert forall|i: int| 0 <= i < init.len() implies (#[trigger] init[i]).1.id@ != id by {
            assert(init[i] == occ[i]);
        }
        lemma_count_before(ms, init, code, id);
        lemma_count_reports_concat(manifest_errors(ms, init), route_manifest_errors(ms, occ.last()), code, id);
        lemma_other_route_counts_zero(ms, occ.last(), code, id);
    } else {
        assert(manifest_errors(ms, occ).len() == 0);
    }
}

/// A route whose repo has no manifest gets exactly one sovereignty error:
/// for a route whose id no other route shares, the system reports one
/// sovereignty violation for it, and no deny or tier error.
pub proof fn lemma_sovereignty_error_is_alone(ms: Seq<RepoManifest>, spine: RoutingSpine, k: int)
    requires
        0 <= k < occurrences(spine.objectKinds@).len(),
        distinct_route_ids(occurrences(spine.objectKinds@)),
        manifest_for(ms, occurrences(spine.objectKinds@)[k].1.repo) is None,
    ensures
        ({
            let errs = routing_system_errors(ms, spine);
            let id = occurrences(spine.objectKinds@)[k].1.id@;
            &&& count_reports(errs, RoutingErrorCode::ERR_SOVEREIGNTY_VIOLATION, id) == 1
            &&& !reports(errs, RoutingErrorCode::ERR_MANIFEST_IMPLICIT_DENY, id)
            &&& !reports(errs, RoutingErrorCode::ERR_MANIFEST_OBJECT_KIND_DENY, id)
            &&& !reports(errs, RoutingErrorCode::ERR_ROUTE_TIER_NOT_ALLOWED, id)
        }),
{
    let occ = occurrences(spine.objectKinds@);
    let o = occ[k];
    let id = o.1.id@;
    let sov = RoutingErrorCode::ERR_SOVEREIGNTY_VIOLATION;
    let c = conflict_errors(occ, occ.len());
    let m = manifest_errors(ms, occ);
    let x = constraint_errors(constraint_ids(spine.mathConstraints@), occ);
    assert(routing_system_errors(ms, spine) == (c + m) + x);
    lemma_count_reports_concat(c + m, x, sov, id);
    lemma_count_reports_concat(c, m, sov, id);
    lemma_conflict_errors_have_no_route(occ, occ.len());
    if reports(c, sov, id) {
        let i = choose|i: int| 0 <= i < c.len() && (#[trigger] c[i]).0 == sov && c[i].5 == Some(id);
    }
    lemma_count_reports_zero(c, sov, id);
    lemma_constraint_errors_code(constraint_ids(spine.mathConstraints@), occ);
    if reports(x, sov, id) {
        let i = choose|i: int| 0 <= i < x.len() && (#[trigger] x[i]).0 == sov && x[i].5 == Some(id);
    }
    lemma_count_reports_zero(x, sov, id);
    lemma_count_manifest_errors(ms, occ, k, sov);
    let own = route_manifest_errors(ms, o);
    assert(own.len() == 1);
    assert(own.drop_last() =~= Seq::<ErrorView>::empty());
    assert(count_reports(own.drop_last(), sov, id) == 0);
    lemma_route_level_errors(ms, spine, k, RoutingErrorCode::ERR_MANIFEST_IMPLICIT_DENY);
    lemma_route_level_errors(ms, spine, k, RoutingErrorCode::ERR_MANIFEST_OBJECT_KIND_DENY);
    lemma_route_level_errors(ms, spine, k, RoutingErrorCode::ERR_ROUTE_TIER_NOT_ALLOWED);
}

/// How many errors of `errs` have code `code`.
pub open spec fn code_count(errs: Seq<ErrorView>, code: RoutingErrorCode) -> nat
    decreases errs.len(),
{
    if errs.len() == 0 {
        0
    } else {
        code_count(errs.drop_last(), code) + if errs.last().0 == code { 1nat } else { 0nat }
    }
}

/// How many of the first `n` occurrences are the first of a key that more
/// than one route serves: the number of `(objectKind, tier)` keys shared by
/// two routes or more.
pub open spec fn shared_key_count(occ: Seq<Occurrence>, n: nat) -> nat
    decreases n,
{
    if n == 0 {
        0
    } else {
        let k = (n - 1) as int;
        shared_key_count(occ, (n - 1) as nat) + if first_of_key(occ, k) && ids_with_key(occ, occ_key(occ[k])).len() > 1 { 1nat } else { 0nat }
    }
}

/// How many of the constraint references `cids` no declared constraint has.
pub open spec fn unknown_ref_count(known: Seq<Seq<char>>, cids: Seq<String>) -> nat
    decreases cids.len(),
{
    if cids.len() == 0 {
        0
    } else {
        unknown_ref_count(known, cids.drop_last()) + if !known.contains(cids.last()@) { 1nat } else { 0nat }
    }
}

/// The unknown constraint references of all occurrences.
pub open spec fn unknown_refs_total(known: Seq<Seq<char>>, occ: Seq<Occurrence>) -> nat
    decreases occ.len(),
{
    if occ.len() == 0 {
        0
    } else {
        unknown_refs_total(known, occ.drop_last()) + unknown_ref_count(known, occ.last().1.constraints@)
    }
}

proof fn lemma_code_count_concat(a: Seq<ErrorView>, b: Seq<ErrorView>, code: RoutingErrorCode)
    ensures
        code_count(a + b, code) == code_count(a, code) + code_count(b, code),
    decreases b.len(),
{
    if b.len() == 0 {
        assert(a + b =~= a);
    } else {
        lemma_code_count_concat(a, b.drop_last(), code);
        assert((a + b).drop_last() =~= a + b.drop_last());
        assert((a + b).last() == b.last());
    }
}

proof fn lemma_code_count_all(errs: Seq<ErrorView>, code: RoutingErrorCode)
    requires
        forall|i: int| 0 <= i < errs.len() ==> (#[trigger] errs[i]).0 == code,
    ensures
        code_count(errs, code) == errs.len(),
    decreases errs.len(),
{
    if errs.len() > 0 {
        let init = errs.drop_last();
        assert forall|i: int| 0 <= i < init.len() implies (#[trigger] init[i]).0 == code by {
            assert(init[i] == errs[i]);
        }
        lemma_code_count_all(init, code);
        assert(errs[errs.len() - 1] == errs.last());
    }
}

proof fn lemma_code_count_none(errs: Seq<ErrorView>, code: RoutingErrorCode)
    requires
        forall|i: int| 0 <= i < errs.len() ==> (#[trigger] errs[i]).0 != code,
    ensures
        code_count(errs, code) == 0,
    decreases errs.len(),
{
    if errs.len() > 0 {
        let init = errs.drop_last();
        assert forall|i: int| 0 <= i < init.len() implies (#[trigger] init[i]).0 != code by {
            assert(init[i] == errs[i]);
        }
        lemma_code_count_none(init, code);
        assert(errs[errs.len() - 1] == errs.last());
    }
}

proof fn lemma_conflict_count(occ: Seq<Occurrence>, n: nat)
    ensures
        conflict_errors(occ, n).len() == shared_key_count(occ, n),
        forall|i: int| 0 <= i < conflict_errors(occ, n).len() ==> (#[trigger] conflict_errors(occ, n)[i]).4 is None,
    decreases n,
{
    if n > 0 {
        lemma_conflict_count(occ, (n - 1) as nat);
        let rest = conflict_errors(occ, (n - 1) as nat);
        let all = conflict_errors(occ, n);
        assert forall|i: int| 0 <= i < all.len() implies (#[trigger] all[i]).4 is None by {
            if i < rest.len() {
                assert(all[i] == rest[i]);
            }
        }
    }
}

proof fn lemma_missing_count(known: Seq<Seq<char>>, o: Occurrence, cids: Seq<String>)
    ensures
        missing_constraints(known, o, cids).len() == unknown_ref_count(known, cids),
    decreases cids.len(),
{
    if cids.len() > 0 {
        lemma_missing_count(known, o, cids.drop_last());
    }
}

proof fn lemma_constraint_count(known: Seq<Seq<char>>, occ: Seq<Occurrence>)
    ensures
        constraint_errors(known, occ).len() == unknown_refs_total(known, occ),
    decreases occ.len(),
{
    if occ.len() > 0 {
        lemma_constraint_count(known, occ.drop_last());
        lemma_missing_count(known, occ.last(), occ.last().1.constraints@);
    }
}

proof fn lemma_manifest_errors_not_constraint(ms: Seq<RepoManifest>, occ: Seq<Occurrence>)
    ensures
        forall|i: int| 0 <= i < manifest_errors(ms, occ).len() ==> (#[trigger] manifest_errors(ms, occ)[i]).0 != RoutingErrorCode::ERR_CONSTRAINT_MISSING,
    decreases occ.len(),
{
    if occ.len() > 0 {
        let init = occ.drop_last();
        lemma_manifest_errors_not_constraint(ms, init);
        let a = manifest_errors(ms, init);
        let b = route_manifest_errors(ms, occ.last());
        assert(manifest_errors(ms, occ) == a + b);
        assert forall|i: int| 0 <= i < (a + b).len() implies (#[trigger] (a + b)[i]).0 != RoutingErrorCode::ERR_CONSTRAINT_MISSING by {
            if i < a.len() {
                assert((a + b)[i] == a[i]);
            } else {
                assert((a + b)[i] == b[i - a.len()]);
            }
        }
    }
}

/// The layout and counts of `validate_routing_system`'s errors: one route
/// conflict per `(objectKind, tier)` key shared by two routes or more, each
/// naming its object kind and tier and no repo or route, all before any
/// other error; and one missing-constraint error per constraint reference
/// of a route that no declared constraint has, all after every other error.
pub proof fn lemma_routing_error_layout(ms: Seq<RepoManifest>, spine: RoutingSpine)
    ensures
        ({
            let occ = occurrences(spine.objectKinds@);
            let errs = routing_system_errors(ms, spine);
            let conflict = RoutingErrorCode::ERR_ROUTE_CONFLICT;
            let missing = RoutingErrorCode::ERR_CONSTRAINT_MISSING;
            &&& code_count(errs, conflict) == shared_key_count(occ, occ.len())
            &&& code_count(errs, missing) == unknown_refs_total(constraint_ids(spine.mathConstraints@), occ)
            &&& forall|i: int| 0 <= i < errs.len() && (#[trigger] errs[i]).0 == conflict
                ==> errs[i].2 is Some && errs[i].3 is Some && errs[i].4 is None && errs[i].5 is None
            &&& forall|i: int, j: int| 0 <= i < j < errs.len() && (#[trigger] errs[j]).0 == conflict ==> (#[trigger] errs[i]).0 == conflict
            &&& forall|i: int, j: int| 0 <= i < j < errs.len() && (#[trigger] errs[i]).0 == missing ==> (#[trigger] errs[j]).0 == missing
        }),
{
    let occ = occurrences(spine.objectKinds@);
    let known = constraint_ids(spine.mathConstraints@);
    let c = conflict_errors(occ, occ.len());
    let m = manifest_errors(ms, occ);
    let x = constraint_errors(known, occ);
    let errs = routing_system_errors(ms, spine);
    let conflict = RoutingErrorCode::ERR_ROUTE_CONFLICT;
    let missing = RoutingErrorCode::ERR_CONSTRAINT_MISSING;
    assert(errs == (c + m) + x);
    lemma_conflict_errors_sound(occ, occ.len());
    lemma_conflict_errors_have_no_route(occ, occ.len());
    lemma_conflict_count(occ, occ.len());
    lemma_manifest_errors_not_conflicts(ms, occ);
    lemma_manifest_errors_not_constraint(ms, occ);
    lemma_constraint_errors_code(known, occ);
    lemma_constraint_count(known, occ);
    assert forall|i: int| 0 <= i < errs.len() implies (#[trigger] errs[i]) == if i < c.len() { c[i] } else if i < c.len() + m.len() {
        m[i - c.len()]
    } else {
        x[i - c.len() - m.len()]
    } by {
        if i < c.len() + m.len() {
            assert(errs[i] == (c + m)[i]);
        }
    }
    // counts
    lemma_code_count_concat(c + m, x, conflict);
    lemma_code_count_concat(c, m, conflict);
    lemma_code_count_concat(c + m, x, missing);
    lemma_code_count_concat(c, m, missing);
    lemma_code_count_all(c, conflict);
    lemma_code_count_none(m, conflict);
    lemma_code_count_none(x, conflict);
    lemma_code_count_none(c, missing);
    lemma_code_count_none(m, missing);
    lemma_code_count_all(x, missing);
    // layout
    assert forall|i: int| 0 <= i < errs.len() && (#[trigger] errs[i]).0 == conflict implies i < c.len() by {}
    assert forall|i: int| 0 <= i < errs.len() && (#[trigger] errs[i]).0 == missing implies i >= c.len() + m.len() by {}
}

/// The tier named by its manifest spelling.
pub open spec fn tier_named(s: Seq<char>) -> Option<Tier> {
    if s == "T1-core"@ {
        Some(Tier::T1Core)
    } else if s == "T2-vault"@ {
        Some(Tier::T2Vault)
    } else if s == "T3-lab"@ {
        Some(Tier::T3Lab)
    } else {
        None
    }
}

/// Parse a tier from its manifest spelling (`T1-core`, `T2-vault`,
/// `T3-lab`); any other text is refused with a message naming it.
pub fn parse_tier(s: &str) -> (r: Result<Tier, String>)
    ensures
        match tier_named(s@) {
            Some(t) => r == Ok::<Tier, String>(t),
            None => r matches Err(m) && m@ == "Unknown tier string: "@ + s@,
        },
{
    if str_eq(s, "T1-core") {
        Ok(Tier::T1Core)
    } else if str_eq(s, "T2-vault") {
        Ok(Tier::T2Vault)
    } else if str_eq(s, "T3-lab") {
        Ok(Tier::T3Lab)
    } else {
        let mut m = String::from_str("Unknown tier string: ");
        m.append(s);
        Err(m)
    }
}

/// Whether a file name is that of a repo manifest
/// (`repo-manifest.hpc.*.json`).
pub fn is_manifest_file_name(name: &str) -> (r: bool)
    ensures
        r == (has_prefix(name@, "repo-manifest.hpc."@) && has_suffix(name@, ".json"@)),
{
    str_starts_with(name, "repo-manifest.hpc.") && str_ends_with(name, ".json")
}

} // verus!
