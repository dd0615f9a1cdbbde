//! Phase gating: which contract families each pipeline phase permits, the
//! promotion predicates between phases, and their structured diagnostics.
use vstd::prelude::*;

use crate::director::model::manifest_types::{allows_kind, RepoManifest};
use crate::director::model::request_types::AiAuthoringRequest;
use crate::director::model::response_types::AiAuthoringResponse;
use crate::director::model::spine_types::{kind_known, Phase, SchemaSpine};
use crate::director::spine::phase_id;
use crate::json::{json_string, json_string_text};
use crate::text::{contains_string, has_prefix, str_eq, str_starts_with, views};

verus! {

/// The contract families that phase gating distinguishes.
#[derive(Debug, Clone, Copy, PartialEq, Eq, Hash, Structural)]
pub enum ContractFamily {
    MoodContract,
    EventContract,
    RegionContractCard,
    SeedContractCard,
}

/// Permission level for a contract family at a given phase.
#[derive(Debug, Clone, Copy, PartialEq, Eq, Structural)]
pub enum PhasePermission {
    /// Full contract authoring allowed.
    Allowed,
    /// Only a registry entry is allowed.
    RegistryOnly,
    /// Read-only reference allowed.
    ReadOnlyRef,
    /// Operation forbidden at this phase.
    Forbidden,
}

/// Suggestion for advancing to a higher phase.
#[derive(Debug, Clone)]
pub struct PhaseUpgradeSuggestion {
    pub target_phase: Phase,
    pub missing_prerequisites: Vec<String>,
    /// `trivial`, `moderate` or `substantial`.
    pub estimated_effort: String,
    pub auto_fixable: bool,
}

/// Structured diagnostic for phase errors.
#[derive(Debug, Clone)]
pub struct PhaseDiagnostic {
    pub code: String,
    /// Always `phase`.
    pub layer: String,
    /// Always `error`.
    pub severity: String,
    pub message: String,
    pub phase_upgrade_suggestion: Option<PhaseUpgradeSuggestion>,
    pub remediation: String,
    pub fix_order: u32,
}

/// Individual promotion check failure.
#[derive(Debug, Clone)]
pub struct PromotionFailure {
    pub check_id: String,
    pub description: String,
    pub json_pointer: Option<String>,
    /// The submitted value, as JSON text.
    pub submitted_value: Option<String>,
    pub expected: Option<String>,
}

/// Phase violation.
#[derive(Debug, Clone)]
pub enum PhaseError {
    PhaseForbidden {
        requested_phase: Phase,
        contract_family: ContractFamily,
        permission: PhasePermission,
        diagnostic: PhaseDiagnostic,
    },
    PromotionBlocked {
        from_phase: Phase,
        to_phase: Phase,
        predicate_code: String,
        failures: Vec<PromotionFailure>,
        diagnostic: PhaseDiagnostic,
    },
}

/// The canonical phase × family permission matrix.
pub open spec fn permission_of(phase: Phase, family: ContractFamily) -> PhasePermission {
    match phase {
        Phase::Schema0 => PhasePermission::Forbidden,
        Phase::Registry1 => PhasePermission::RegistryOnly,
        Phase::Bundles2 => PhasePermission::Allowed,
        Phase::LuaPolicy3 => match family {
            ContractFamily::MoodContract | ContractFamily::EventContract => PhasePermission::ReadOnlyRef,
            _ => PhasePermission::Forbidden,
        },
        Phase::Adapters4 => PhasePermission::Forbidden,
    }
}

/// The permission level for `family` at `phase`.
pub fn phase_permission(phase: Phase, family: ContractFamily) -> (r: PhasePermission)
    ensures
        r == permission_of(phase, family),
{
    match phase {
        Phase::Schema0 => PhasePermission::Forbidden,
        Phase::Registry1 => PhasePermission::RegistryOnly,
        Phase::Bundles2 => PhasePermission::Allowed,
        Phase::LuaPolicy3 => match family {
            ContractFamily::MoodContract | ContractFamily::EventContract => PhasePermission::ReadOnlyRef,
            _ => PhasePermission::Forbidden,
        },
        Phase::Adapters4 => PhasePermission::Forbidden,
    }
}

/// The object-kind name of a family.
pub open spec fn family_text(f: ContractFamily) -> Seq<char> {
    match f {
        ContractFamily::MoodContract => "moodContract"@,
        ContractFamily::EventContract => "eventContract"@,
        ContractFamily::RegionContractCard => "regionContractCard"@,
        ContractFamily::SeedContractCard => "seedContractCard"@,
    }
}

/// The object-kind name of a family.
pub fn family_name(family: ContractFamily) -> (r: &'static str)
    ensures
        r@ == family_text(family),
{
    match family {
        ContractFamily::MoodContract => "moodContract",
        ContractFamily::EventContract => "eventContract",
        ContractFamily::RegionContractCard => "regionContractCard",
        ContractFamily::SeedContractCard => "seedContractCard",
    }
}

/// The short human-readable name of a phase.
pub open spec fn phase_short_name(p: Phase) -> Seq<char> {
    match p {
        Phase::Schema0 => "Schema"@,
        Phase::Registry1 => "Registry"@,
        Phase::Bundles2 => "Bundles"@,
        Phase::LuaPolicy3 => "LuaPolicy"@,
        Phase::Adapters4 => "Adapters"@,
    }
}

/// The variant name of a phase, as `Debug` prints it.
pub open spec fn phase_debug(p: Phase) -> Seq<char> {
    match p {
        Phase::Schema0 => "Schema0"@,
        Phase::Registry1 => "Registry1"@,
        Phase::Bundles2 => "Bundles2"@,
        Phase::LuaPolicy3 => "LuaPolicy3"@,
        Phase::Adapters4 => "Adapters4"@,
    }
}

/// The short human-readable name of a phase.
pub fn phase_name(phase: Phase) -> (r: &'static str)
    ensures
        r@ == phase_short_name(phase),
{
    match phase {
        Phase::Schema0 => "Schema",
        Phase::Registry1 => "Registry",
        Phase::Bundles2 => "Bundles",
        Phase::LuaPolicy3 => "LuaPolicy",
        Phase::Adapters4 => "Adapters",
    }
}

/// The family whose object kind is `kind`, if any.
pub open spec fn family_for_kind(kind: Seq<char>) -> Option<ContractFamily> {
    if kind == "moodContract"@ {
        Some(ContractFamily::MoodContract)
    } else if kind == "eventContract"@ {
        Some(ContractFamily::EventContract)
    } else if kind == "regionContractCard"@ {
        Some(ContractFamily::RegionContractCard)
    } else if kind == "seedContractCard"@ {
        Some(ContractFamily::SeedContractCard)
    } else {
        None
    }
}

impl ContractFamily {
    /// The family whose object kind is `kind`; `None` for other kinds.
    pub fn from_object_kind(kind: &str) -> (r: Option<ContractFamily>)
        ensures
            r == family_for_kind(kind@),
    {
        if str_eq(kind, "moodContract") {
            Some(ContractFamily::MoodContract)
        } else if str_eq(kind, "eventContract") {
            Some(ContractFamily::EventContract)
        } else if str_eq(kind, "regionContractCard") {
            Some(ContractFamily::RegionContractCard)
        } else if str_eq(kind, "seedContractCard") {
            Some(ContractFamily::SeedContractCard)
        } else {
            None
        }
    }
}

/// Abstract value of an upgrade suggestion: target, prerequisites, effort, auto-fixable.
pub type SuggestionView = (Phase, Seq<Seq<char>>, Seq<char>, bool);

/// The abstract value of an optional upgrade suggestion.
pub open spec fn suggestion_view(s: Option<PhaseUpgradeSuggestion>) -> Option<SuggestionView> {
    match s {
        Some(x) => Some((x.target_phase, views(x.missing_prerequisites@), x.estimated_effort@, x.auto_fixable)),
        None => None,
    }
}

/// `d` is a phase-layer error diagnostic with the given contents, fixed first.
pub open spec fn diagnostic_is(
    d: PhaseDiagnostic,
    code: Seq<char>,
    message: Seq<char>,
    suggestion: Option<SuggestionView>,
    remediation: Seq<char>,
) -> bool {
    &&& d.code@ == code
    &&& d.layer@ == "phase"@
    &&& d.severity@ == "error"@
    &&& d.message@ == message
    &&& suggestion_view(d.phase_upgrade_suggestion) == suggestion
    &&& d.remediation@ == remediation
    &&& d.fix_order == 1
}

/// The upgrade path suggested for a forbidden request.
pub open spec fn upgrade_for(family: ContractFamily, current: Phase) -> Option<SuggestionView> {
    match current {
        Phase::Schema0 => Some((Phase::Registry1, seq!["Define schema in spine"@], "trivial"@, true)),
        Phase::Registry1 => Some((
            Phase::Bundles2,
            seq!["Resolve all referenced_ids in registry"@, "Pass invariant range checks"@],
            "moderate"@,
            false,
        )),
        Phase::Bundles2 => match family {
            ContractFamily::MoodContract | ContractFamily::EventContract => Some((
                Phase::LuaPolicy3,
                seq!["Pass full 4-layer validation"@, "Declare all required invariant bindings"@],
                "substantial"@,
                false,
            )),
            _ => None,
        },
        _ => None,
    }
}

/// A suggestion built from its parts.
fn suggestion(target: Phase, prereqs: Vec<String>, effort: &str, auto_fixable: bool) -> (r: PhaseUpgradeSuggestion)
    ensures
        r.target_phase == target,
        r.missing_prerequisites@ == prereqs@,
        r.estimated_effort@ == effort@,
        r.auto_fixable == auto_fixable,
{
    PhaseUpgradeSuggestion {
        target_phase: target,
        missing_prerequisites: prereqs,
        estimated_effort: String::from_str(effort),
        auto_fixable,
    }
}

/// The upgrade path suggested for a forbidden request.
pub fn suggested_upgrade(family: ContractFamily, current: Phase) -> (r: Option<PhaseUpgradeSuggestion>)
    ensures
        suggestion_view(r) == upgrade_for(family, current),
{
    match current {
        Phase::Schema0 => {
            let v = vec![String::from_str("Define schema in spine")];
            let r = Some(suggestion(Phase::Registry1, v, "trivial", true));
            proof {
                assert(views(r.unwrap().missing_prerequisites@) =~= seq!["Define schema in spine"@]);
            }
            r
        },
        Phase::Registry1 => {
            let v = vec![String::from_str("Resolve all referenced_ids in registry"), String::from_str("Pass invariant range checks")];
            let r = Some(suggestion(Phase::Bundles2, v, "moderate", false));
            proof {
                assert(views(r.unwrap().missing_prerequisites@) =~= seq![
                    "Resolve all referenced_ids in registry"@,
                    "Pass invariant range checks"@,
                ]);
            }
            r
        },
        Phase::Bundles2 => match family {
            ContractFamily::MoodContract | ContractFamily::EventContract => {
                let v = vec![String::from_str("Pass full 4-layer validation"), String::from_str("Declare all required invariant bindings")];
                let r = Some(suggestion(Phase::LuaPolicy3, v, "substantial", false));
                proof {
                    assert(views(r.unwrap().missing_prerequisites@) =~= seq![
                        "Pass full 4-layer validation"@,
                        "Declare all required invariant bindings"@,
                    ]);
                }
                r
            },
            _ => None,
        },
        _ => None,
    }
}

/// The variant name of a phase, as `Debug` prints it.
fn phase_debug_name(p: Phase) -> (r: &'static str)
    ensures
        r@ == phase_debug(p),
{
    p.name()
}

pub open spec fn readonly_message(f: ContractFamily, p: Phase) -> Seq<char> {
    family_text(f) + " is read-only at Phase "@ + phase_debug(p) + "; cannot author new content"@
}

pub open spec fn readonly_remediation(f: ContractFamily) -> Seq<char> {
    "Submit this "@ + family_text(f)
        + " at Phase 2 (Bundles) for full authoring, or use as a read-only reference at Phase 3 (LuaPolicy)"@
}

pub open spec fn forbidden_message(f: ContractFamily, p: Phase) -> Seq<char> {
    family_text(f) + " cannot be authored at Phase "@ + phase_debug(p) + " ("@ + phase_short_name(p) + ")"@
}

pub open spec fn forbidden_remediation(f: ContractFamily, p: Phase) -> Seq<char> {
    "Submit this "@ + family_text(f) + " at Phase 2 (Bundles). Phase "@ + phase_debug(p) + " does not permit "@
        + family_text(f) + " authoring."@
}

/// A phase diagnostic built from its parts.
fn phase_diagnostic(code: &str, message: String, suggestion: Option<PhaseUpgradeSuggestion>, remediation: String) -> (r: PhaseDiagnostic)
    ensures
        diagnostic_is(r, code@, message@, suggestion_view(suggestion), remediation@),
{
    PhaseDiagnostic {
        code: String::from_str(code),
        layer: String::from_str("phase"),
        severity: String::from_str("error"),
        message,
        phase_upgrade_suggestion: suggestion,
        remediation,
        fix_order: 1,
    }
}

/// Whether a request at `req.phase` may author `family`: allowed and
/// registry-only phases pass; read-only and forbidden phases are refused
/// with a structured diagnostic.
pub fn check_phase_permission(req: &AiAuthoringRequest, family: ContractFamily) -> (r: Result<(), PhaseError>)
    ensures
        ({
            let perm = permission_of(req.phase, family);
            &&& r is Ok <==> (perm == PhasePermission::Allowed || perm == PhasePermission::RegistryOnly)
            &&& perm == PhasePermission::ReadOnlyRef ==> (r matches Err(PhaseError::PhaseForbidden {
                requested_phase, contract_family, permission, diagnostic }) && requested_phase == req.phase
                && contract_family == family && permission == perm
                && diagnostic_is(diagnostic, "ERR_PHASE_READONLY"@, readonly_message(family, req.phase), Some((
                    Phase::Bundles2,
                    seq!["Complete registry entry in Phase 1"@, "Resolve all referenced_ids"@],
                    "moderate"@,
                    false,
                )), readonly_remediation(family)))
            &&& perm == PhasePermission::Forbidden ==> (r matches Err(PhaseError::PhaseForbidden {
                requested_phase, contract_family, permission, diagnostic }) && requested_phase == req.phase
                && contract_family == family && permission == perm
                && diagnostic_is(diagnostic, "ERR_PHASE_FORBIDDEN"@, forbidden_message(family, req.phase),
                    upgrade_for(family, req.phase), forbidden_remediation(family, req.phase)))
        }),
{
    let permission = phase_permission(req.phase, family);
    match permission {
        PhasePermission::Allowed | PhasePermission::RegistryOnly => Ok(()),
        PhasePermission::ReadOnlyRef => {
            let mut message = String::from_str(family_name(family));
            message.append(" is read-only at Phase ");
            message.append(phase_debug_name(req.phase));
            message.append("; cannot author new content");
            let mut remediation = String::from_str("Submit this ");
            remediation.append(family_name(family));
            remediation.append(" at Phase 2 (Bundles) for full authoring, or use as a read-only reference at Phase 3 (LuaPolicy)");
            let prereqs = vec![String::from_str("Complete registry entry in Phase 1"), String::from_str("Resolve all referenced_ids")];
            let s = suggestion(Phase::Bundles2, prereqs, "moderate", false);
            proof {
                assert(views(s.missing_prerequisites@) =~= seq!["Complete registry entry in Phase 1"@, "Resolve all referenced_ids"@]);
            }
            Err(PhaseError::PhaseForbidden {
                requested_phase: req.phase,
                contract_family: family,
                permission,
                diagnostic: phase_diagnostic("ERR_PHASE_READONLY", message, Some(s), remediation),
            })
        },
        PhasePermission::Forbidden => {
            let mut message = String::from_str(family_name(family));
            message.append(" cannot be authored at Phase ");
            message.append(phase_debug_name(req.phase));
            message.append(" (");
            message.append(phase_name(req.phase));
            message.append(")");
            let mut remediation = String::from_str("Submit this ");
            remediation.append(family_name(family));
            remediation.append(" at Phase 2 (Bundles). Phase ");
            remediation.append(phase_debug_name(req.phase));
            remediation.append(" does not permit ");
            remediation.append(family_name(family));
            remediation.append(" authoring.");
            Err(PhaseError::PhaseForbidden {
                requested_phase: req.phase,
                contract_family: family,
                permission,
                diagnostic: phase_diagnostic("ERR_PHASE_FORBIDDEN", message, suggested_upgrade(family, req.phase), remediation),
            })
        },
    }
}

/// Abstract value of a promotion failure: check id, description, pointer, submitted JSON, expected.
pub type FailureView = (Seq<char>, Seq<char>, Option<Seq<char>>, Option<Seq<char>>, Option<Seq<char>>);

/// The character view of an optional string.
pub open spec fn opt_text(o: Option<String>) -> Option<Seq<char>> {
    match o {
        Some(s) => Some(s@),
        None => None,
    }
}

/// The abstract value of a promotion failure.
pub open spec fn failure_view(f: PromotionFailure) -> FailureView {
    (f.check_id@, f.description@, opt_text(f.json_pointer), opt_text(f.submitted_value), opt_text(f.expected))
}

/// The abstract values of a list of promotion failures.
pub open spec fn failure_views(s: Seq<PromotionFailure>) -> Seq<FailureView> {
    s.map_values(|f: PromotionFailure| failure_view(f))
}

/// The PROM001 failure for `kind`.
pub open spec fn prom001_failure(kind: Seq<char>) -> FailureView {
    (
        "PROM001"@,
        "Schema for '"@ + kind + "' not found in spine"@,
        Some("/objectKind"@),
        Some(json_string_text(kind)),
        Some("A contract family in the spine that includes this objectKind"@),
    )
}

/// Promotion predicate Schema0 → Registry1: the object kind belongs to a
/// contract family of the spine.
pub fn check_prom001(object_kind: &str, spine: &SchemaSpine) -> (r: Result<(), PromotionFailure>)
    ensures
        r is Ok <==> kind_known(spine.contract_families@, object_kind@),
        r matches Err(f) ==> failure_view(f) == prom001_failure(object_kind@),
{
    let fams = &spine.contract_families;
    let mut i: usize = 0;
    while i < fams.len()
        invariant
            i <= fams.len(),
            fams@ == spine.contract_families@,
            forall|k: int| 0 <= k < i ==> !views(#[trigger] fams@[k].kinds@).contains(object_kind@),
        decreases fams.len() - i,
    {
        if contains_string(&fams[i].kinds, object_kind) {
            proof {
                assert(crate::director::model::spine_types::family_has_kind(fams@[i as int], object_kind@));
            }
            return Ok(());
        }
        i = i + 1;
    }
    let mut description = String::from_str("Schema for '");
    description.append(object_kind);
    description.append("' not found in spine");
    Err(PromotionFailure {
        check_id: String::from_str("PROM001"),
        description,
        json_pointer: Some(String::from_str("/objectKind")),
        submitted_value: Some(json_string(object_kind)),
        expected: Some(String::from_str("A contract family in the spine that includes this objectKind")),
    })
}

/// The first manifest named `name`.
pub open spec fn manifest_named(ms: Seq<RepoManifest>, name: Seq<char>) -> Option<RepoManifest>
    decreases ms.len(),
{
    if ms.len() == 0 {
        None
    } else if ms[0].repo_name@ == name {
        Some(ms[0])
    } else {
        manifest_named(ms.drop_first(), name)
    }
}

/// The manifest found for a name carries that name.
pub proof fn lemma_manifest_named_has_name(ms: Seq<RepoManifest>, name: Seq<char>)
    ensures
        manifest_named(ms, name) matches Some(m) ==> m.repo_name@ == name,
    decreases ms.len(),
{
    if ms.len() > 0 && ms[0].repo_name@ != name {
        lemma_manifest_named_has_name(ms.drop_first(), name);
    }
}

/// Whether the target repo of `req` accepts its object kind.
pub open spec fn repo_accepts(ms: Seq<RepoManifest>, req: AiAuthoringRequest) -> bool {
    match manifest_named(ms, req.target_repo@) {
        Some(m) => allows_kind(m, req.object_kind@),
        None => false,
    }
}

/// The failures for referenced ids that point at unknown registry entries.
pub open spec fn unknown_ref_failures(ids: Seq<String>) -> Seq<FailureView>
    decreases ids.len(),
{
    if ids.len() == 0 {
        seq![]
    } else {
        let rest = unknown_ref_failures(ids.drop_last());
        let id = ids.last()@;
        if has_prefix(id, "REF-unknown"@) {
            rest.push((
                "PROM002"@,
                "Referenced ID '"@ + id + "' not found in registry"@,
                Some("/referencedIds"@),
                Some(json_string_text(id)),
                Some("An ID that resolves to an existing registry entry"@),
            ))
        } else {
            rest
        }
    }
}

/// All PROM002 failures of a request.
pub open spec fn prom002_failures(ms: Seq<RepoManifest>, req: AiAuthoringRequest) -> Seq<FailureView> {
    let repo = if repo_accepts(ms, req) {
        seq![]
    } else {
        seq![(
            "PROM002"@,
            "Repo '"@ + req.target_repo@ + "' does not accept objectKind '"@ + req.object_kind@ + "'"@,
            Some("/targetRepo"@),
            Some(json_string_text(req.target_repo@)),
            Some("A repo manifest that allows this objectKind"@),
        )]
    };
    repo + unknown_ref_failures(req.referenced_ids@)
}

/// Index of the first manifest named `name`.
pub fn find_manifest_named(ms: &[RepoManifest], name: &str) -> (r: Option<usize>)
    ensures
        match r {
            None => manifest_named(ms@, name@) is None,
            Some(i) => i < ms@.len() && manifest_named(ms@, name@) == Some(ms@[i as int]),
        },
{
    let mut i: usize = 0;
    assert(ms@.skip(0) =~= ms@);
    while i < ms.len()
        invariant
            i <= ms@.len(),
            manifest_named(ms@, name@) == manifest_named(ms@.skip(i as int), name@),
        decreases ms@.len() - i,
    {
        assert(ms@.skip(i as int).drop_first() =~= ms@.skip(i + 1));
        assert(ms@.skip(i as int)[0] == ms@[i as int]);
        if str_eq(ms[i].repo_name.as_str(), name) {
            return Some(i);
        }
        i = i + 1;
    }
    None
}

proof fn lemma_failure_views_push(s: Seq<PromotionFailure>, f: PromotionFailure)
    ensures
        failure_views(s.push(f)) == failure_views(s).push(failure_view(f)),
{
    assert(failure_views(s.push(f)) =~= failure_views(s).push(failure_view(f)));
}

/// Promotion predicate Registry1 → Bundles2: the target repo accepts the
/// object kind and no referenced id is an unknown registry reference.
pub fn check_prom002(req: &AiAuthoringRequest, manifests: &[RepoManifest]) -> (r: Result<(), Vec<PromotionFailure>>)
    ensures
        r is Ok <==> prom002_failures(manifests@, *req).len() == 0,
        r matches Err(fs) ==> failure_views(fs@) == prom002_failures(manifests@, *req),
{
    let mut failures: Vec<PromotionFailure> = Vec::new();
    let accepts = match find_manifest_named(manifests, req.target_repo.as_str()) {
        Some(i) => manifests[i].allows_object_kind(req.object_kind.as_str()),
        None => false,
    };
    if !accepts {
        let mut description = String::from_str("Repo '");
        description.append(req.target_repo.as_str());
        description.append("' does not accept objectKind '");
        description.append(req.object_kind.as_str());
        description.append("'");
        failures.push(PromotionFailure {
            check_id: String::from_str("PROM002"),
            description,
            json_pointer: Some(String::from_str("/targetRepo")),
            submitted_value: Some(json_string(req.target_repo.as_str())),
            expected: Some(String::from_str("A repo manifest that allows this objectKind")),
        });
    }
    let ghost head = failure_views(failures@);
    let ids = &req.referenced_ids;
    let mut j: usize = 0;
    while j < ids.len()
        invariant
            j <= ids.len(),
            ids@ == req.referenced_ids@,
            failure_views(failures@) == head + unknown_ref_failures(ids@.take(j as int)),
        decreases ids.len() - j,
    {
        proof {
            assert(ids@.take(j + 1).drop_last() =~= ids@.take(j as int));
        }
        let id = &ids[j];
        if str_starts_with(id.as_str(), "REF-unknown") {
            let mut description = String::from_str("Referenced ID '");
            description.append(id.as_str());
            description.append("' not found in registry");
            let f = PromotionFailure {
                check_id: String::from_str("PROM002"),
                description,
                json_pointer: Some(String::from_str("/referencedIds")),
                submitted_value: Some(json_string(id.as_str())),
                expected: Some(String::from_str("An ID that resolves to an existing registry entry")),
            };
            proof {
                lemma_failure_views_push(failures@, f);
            }
            failures.push(f);
        }
        j = j + 1;
    }
    proof {
        assert(ids@.take(ids.len() as int) =~= ids@);
        assert(failure_views(failures@) =~= prom002_failures(manifests@, *req));
    }
    if failures.len() == 0 {
        Ok(())
    } else {
        Err(failures)
    }
}

/// Promotion predicate Bundles2 → LuaPolicy3. In this version the bundle
/// predicate accepts every response.
pub fn check_prom003(resp: &AiAuthoringResponse, spine: &SchemaSpine, manifests: &[RepoManifest]) -> (r: Result<(), Vec<PromotionFailure>>)
    ensures
        r is Ok,
{
    Ok(())
}

/// Promotion predicate LuaPolicy3 → Adapters4. In this version the adapter
/// predicate accepts every response.
pub fn check_prom004(resp: &AiAuthoringResponse) -> (r: Result<(), Vec<PromotionFailure>>)
    ensures
        r is Ok,
{
    Ok(())
}

/// `to` is the phase right after `from`.
pub open spec fn is_next_phase(from: Phase, to: Phase) -> bool {
    phase_id(to) == phase_id(from) + 1
}

pub open spec fn invalid_promotion_message(from: Phase, to: Phase) -> Seq<char> {
    "Invalid promotion from "@ + phase_debug(from) + " to "@ + phase_debug(to)
}

/// Plan a promotion from `from_phase` to `to_phase`.
///
/// Only promotions to the next phase are valid; each runs its predicate
/// (PROM001 to PROM004). Any other pair is refused as an invalid promotion.
pub fn plan_promotion(
    from_phase: Phase,
    to_phase: Phase,
    family: ContractFamily,
    req: &AiAuthoringRequest,
    resp: &AiAuthoringResponse,
    spine: &SchemaSpine,
    manifests: &[RepoManifest],
) -> (r: Result<(), PhaseError>)
    ensures
        !is_next_phase(from_phase, to_phase) ==> (r matches Err(PhaseError::PhaseForbidden {
            requested_phase, contract_family, permission, diagnostic }) && requested_phase == to_phase
            && contract_family == family && permission == PhasePermission::Forbidden
            && diagnostic_is(diagnostic, "ERR_INVALID_PROMOTION"@, invalid_promotion_message(from_phase, to_phase), None,
                "Promotions must follow the canonical phase sequence: 0→1→2→3→4"@)),
        from_phase == Phase::Schema0 && to_phase == Phase::Registry1 ==> (r is Ok <==> kind_known(
            spine.contract_families@,
            req.object_kind@,
        )) && (r is Err ==> r matches Err(PhaseError::PromotionBlocked { .. })) && (r matches Err(PhaseError::PromotionBlocked { from_phase: f, to_phase: t, predicate_code, failures, diagnostic })
            ==> f == from_phase && t == to_phase && predicate_code@ == "PROM001"@
            && failure_views(failures@) == seq![prom001_failure(req.object_kind@)]
            && diagnostic_is(diagnostic, "ERR_PROMOTION_BLOCKED"@, "Schema promotion failed"@, None,
                "Ensure the objectKind is defined in the schema spine"@)),
        from_phase == Phase::Registry1 && to_phase == Phase::Bundles2 ==> (r is Ok <==> prom002_failures(
            manifests@,
            *req,
        ).len() == 0) && (r is Err ==> r matches Err(PhaseError::PromotionBlocked { .. })) && (r matches Err(PhaseError::PromotionBlocked { from_phase: f, to_phase: t, predicate_code, failures, diagnostic })
            ==> f == from_phase && t == to_phase && predicate_code@ == "PROM002"@
            && failure_views(failures@) == prom002_failures(manifests@, *req)
            && diagnostic_is(diagnostic, "ERR_PROMOTION_BLOCKED"@,
                "Registry promotion failed: unresolved references or repo mismatch"@, Some((
                    Phase::Bundles2,
                    seq!["Resolve all referenced_ids"@, "Ensure target repo accepts this objectKind"@],
                    "moderate"@,
                    false,
                )), "Fix unresolved references and verify repo routing before promoting"@)),
        from_phase == Phase::Bundles2 && to_phase == Phase::LuaPolicy3 ==> r is Ok,
        from_phase == Phase::LuaPolicy3 && to_phase == Phase::Adapters4 ==> r is Ok,
{
    match (from_phase, to_phase) {
        (Phase::Schema0, Phase::Registry1) => match check_prom001(req.object_kind.as_str(), spine) {
            Ok(()) => Ok(()),
            Err(failure) => {
                let ghost fv = failure_view(failure);
                let failures = vec![failure];
                proof {
                    assert(failure_views(failures@) =~= seq![fv]);
                }
                Err(PhaseError::PromotionBlocked {
                    from_phase,
                    to_phase,
                    predicate_code: String::from_str("PROM001"),
                    failures,
                    diagnostic: phase_diagnostic(
                        "ERR_PROMOTION_BLOCKED",
                        String::from_str("Schema promotion failed"),
                        None,
                        String::from_str("Ensure the objectKind is defined in the schema spine"),
                    ),
                })
            },
        },
        (Phase::Registry1, Phase::Bundles2) => match check_prom002(req, manifests) {
            Ok(()) => Ok(()),
            Err(failures) => {
                let prereqs = vec![String::from_str("Resolve all referenced_ids"), String::from_str("Ensure target repo accepts this objectKind")];
                let s = suggestion(Phase::Bundles2, prereqs, "moderate", false);
                proof {
                    assert(views(s.missing_prerequisites@) =~= seq![
                        "Resolve all referenced_ids"@,
                        "Ensure target repo accepts this objectKind"@,
                    ]);
                }
                Err(PhaseError::PromotionBlocked {
                    from_phase,
                    to_phase,
                    predicate_code: String::from_str("PROM002"),
                    failures,
                    diagnostic: phase_diagnostic(
                        "ERR_PROMOTION_BLOCKED",
                        String::from_str("Registry promotion failed: unresolved references or repo mismatch"),
                        Some(s),
                        String::from_str("Fix unresolved references and verify repo routing before promoting"),
                    ),
                })
            },
        },
        (Phase::Bundles2, Phase::LuaPolicy3) => match check_prom003(resp, spine, manifests) {
            Ok(()) => Ok(()),
            Err(failures) => Err(PhaseError::PromotionBlocked {
                from_phase,
                to_phase,
                predicate_code: String::from_str("PROM003"),
                failures,
                diagnostic: phase_diagnostic(
                    "ERR_PROMOTION_BLOCKED",
                    String::from_str("Bundle promotion failed: validation errors"),
                    None,
                    String::from_str("Pass all schema, invariant, manifest, and envelope checks before promoting"),
                ),
            }),
        },
        (Phase::LuaPolicy3, Phase::Adapters4) => match check_prom004(resp) {
            Ok(()) => Ok(()),
            Err(failures) => Err(PhaseError::PromotionBlocked {
                from_phase,
                to_phase,
                predicate_code: String::from_str("PROM004"),
                failures,
                diagnostic: phase_diagnostic(
                    "ERR_PROMOTION_BLOCKED",
                    String::from_str("Adapter promotion failed (v1 stub)"),
                    None,
                    String::from_str("Adapter promotion is not fully implemented in v1"),
                ),
            }),
        },
        _ => {
            let mut message = String::from_str("Invalid promotion from ");
            message.append(phase_debug_name(from_phase));
            message.append(" to ");
            message.append(phase_debug_name(to_phase));
            Err(PhaseError::PhaseForbidden {
                requested_phase: to_phase,
                contract_family: family,
                permission: PhasePermission::Forbidden,
                diagnostic: phase_diagnostic(
                    "ERR_INVALID_PROMOTION",
                    message,
                    None,
                    String::from_str("Promotions must follow the canonical phase sequence: 0→1→2→3→4"),
                ),
            })
        },
    }
}

/// A phase admits authoring of some family exactly when it is Registry1 or
/// Bundles2, and Bundles2 admits full authoring of every family.
pub proof fn lemma_authoring_phases(phase: Phase, family: ContractFamily)
    ensures
        (permission_of(phase, family) == PhasePermission::Allowed
            || permission_of(phase, family) == PhasePermission::RegistryOnly)
            <==> (phase == Phase::Registry1 || phase == Phase::Bundles2),
        permission_of(Phase::Bundles2, family) == PhasePermission::Allowed,
{
}


/// The phase gate: full authoring of every contract family is allowed only
/// at Phase 2 (Bundles); Phase 1 (Registry) admits registry entries only;
/// at Phase 3 (LuaPolicy) mood and event contracts may only be referenced
/// read-only while region and seed cards are forbidden; Phases 0 (Schema)
/// and 4 (Adapters) forbid contract authoring altogether.
pub proof fn lemma_phase_gate(phase: Phase, family: ContractFamily)
    ensures
        permission_of(phase, family) == PhasePermission::Allowed <==> phase == Phase::Bundles2,
        permission_of(phase, family) == PhasePermission::RegistryOnly <==> phase == Phase::Registry1,
        permission_of(phase, family) == PhasePermission::ReadOnlyRef <==> phase == Phase::LuaPolicy3
            && (family == ContractFamily::MoodContract || family == ContractFamily::EventContract),
        permission_of(phase, family) == PhasePermission::Forbidden <==> (phase == Phase::Schema0 || phase == Phase::Adapters4
            || (phase == Phase::LuaPolicy3 && (family == ContractFamily::RegionContractCard || family == ContractFamily::SeedContractCard))),
{
}

} // verus!
