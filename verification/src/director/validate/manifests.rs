//! Repository manifest validation: routing, tier rules and policy checks
//! for one authoring response.
use vstd::prelude::*;

use crate::director::model::manifest_types::{
    allows_kind, forbidden_for, rule_for, tier_text, AiRole, RepoManifest, TargetRule, Tier,
};
use crate::director::model::request_types::AiAuthoringRequest;
use crate::director::model::response_types::AiAuthoringResponse;
use crate::director::model::spine_types::lookup;
use crate::director::model::{diagnostic_views, DiagnosticView, RouteExplanation, ValidationDiagnostic, ValidationLayer, ValidationResult, ValidationSeverity, opt_view};
use crate::director::phases::{find_manifest_named, manifest_named};
use crate::text::{has_prefix, str_starts_with, views};

verus! {

/// Severity of a manifest diagnostic.
#[derive(Debug, Clone, Copy, PartialEq, Eq, Structural)]
pub enum ManifestDiagnosticSeverity {
    Error,
    Warning,
    Info,
}

/// Code of a manifest diagnostic.
#[derive(Debug, Clone, Copy, PartialEq, Eq, Hash, Structural)]
pub enum ManifestDiagnosticCode {
    InvalidTargetRepo,
    ObjectKindNotAllowedInRepo,
    TierPolicyViolation,
    OneFilePerRequestViolation,
    MissingDeadledgerRef,
    CrossRepoRefNotAllowed,
    RwfBelowTierMinimum,
}

/// Structured manifest-related diagnostic.
#[derive(Debug, Clone)]
pub struct ManifestDiagnostic {
    pub code: ManifestDiagnosticCode,
    pub message: String,
    pub severity: ManifestDiagnosticSeverity,
    pub charter_rationale: Option<String>,
    pub suggested_alternative_repo: Option<String>,
}

/// Abstract value of a manifest diagnostic.
pub type ManifestDiagnosticView = (ManifestDiagnosticCode, Seq<char>, ManifestDiagnosticSeverity, Option<Seq<char>>, Option<Seq<char>>);

impl View for ManifestDiagnostic {
    type V = ManifestDiagnosticView;

    open spec fn view(&self) -> ManifestDiagnosticView {
        (self.code, self.message@, self.severity, opt_view(self.charter_rationale), opt_view(self.suggested_alternative_repo))
    }
}

/// The views of a list of manifest diagnostics.
pub open spec fn manifest_diagnostic_views(s: Seq<ManifestDiagnostic>) -> Seq<ManifestDiagnosticView> {
    s.map_values(|d: ManifestDiagnostic| d@)
}

/// High-level manifest validation result.
#[derive(Debug)]
pub struct ManifestValidationResult {
    pub diagnostics: Vec<ManifestDiagnostic>,
    pub is_fatal: bool,
}

/// Context for manifest-based validation queries.
pub struct ManifestContext<'a> {
    pub manifests_by_repo: &'a [RepoManifest],
}

/// The repository that holds entities with id `id`, by id prefix.
pub open spec fn repo_for_id(id: Seq<char>) -> Option<Seq<char>> {
    if has_prefix(id, "event."@) || has_prefix(id, "region."@) {
        Some("HorrorPlace-Atrocity-Seeds"@)
    } else if has_prefix(id, "bundle."@) {
        Some("HorrorPlace-Black-Archivum"@)
    } else {
        None
    }
}

impl<'a> ManifestContext<'a> {
    /// The first manifest named `repo_name`.
    pub fn find_manifest(&self, repo_name: &str) -> (r: Option<&'a RepoManifest>)
        ensures
            match r {
                None => manifest_named(self.manifests_by_repo@, repo_name@) is None,
                Some(m) => manifest_named(self.manifests_by_repo@, repo_name@) == Some(*m),
            },
    {
        match find_manifest_named(self.manifests_by_repo, repo_name) {
            Some(i) => Some(&self.manifests_by_repo[i]),
            None => None,
        }
    }

    /// The repository that holds entities with id `id`: `event.` and
    /// `region.` ids live in the Atrocity Seeds, `bundle.` ids in the Black
    /// Archivum; other ids are not resolved.
    pub fn lookup_repo_for_id(&self, id: &str) -> (r: Option<String>)
        ensures
            opt_view(r) == repo_for_id(id@),
    {
        if str_starts_with(id, "event.") {
            Some(String::from_str("HorrorPlace-Atrocity-Seeds"))
        } else if str_starts_with(id, "region.") {
            Some(String::from_str("HorrorPlace-Atrocity-Seeds"))
        } else if str_starts_with(id, "bundle.") {
            Some(String::from_str("HorrorPlace-Black-Archivum"))
        } else {
            None
        }
    }
}

/// An RWF score below a repo's minimum, both rendered with three decimals.
#[derive(Debug, Clone)]
pub struct RwfShortfall {
    pub rwf: String,
    pub minimum: String,
}

/// The message of an RWF shortfall.
pub open spec fn rwf_message(s: RwfShortfall, repo: Seq<char>) -> Seq<char> {
    "RWF score "@ + s.rwf@ + " is below the minimum "@ + s.minimum@ + " required for repo '"@ + repo + "'."@
}

/// The `Debug` name of a role.
pub open spec fn role_debug(r: AiRole) -> Seq<char> {
    match r {
        AiRole::Architect => "Architect"@,
        AiRole::Implementer => "Implementer"@,
        AiRole::Auditor => "Auditor"@,
    }
}

fn role_debug_name(r: AiRole) -> (s: &'static str)
    ensures
        s@ == role_debug(r),
{
    match r {
        AiRole::Architect => "Architect",
        AiRole::Implementer => "Implementer",
        AiRole::Auditor => "Auditor",
    }
}

/// `items` joined by single spaces.
pub open spec fn join_spaces(items: Seq<Seq<char>>) -> Seq<char>
    decreases items.len(),
{
    if items.len() == 0 {
        seq![]
    } else if items.len() == 1 {
        items[0]
    } else {
        join_spaces(items.drop_last()) + " "@ + items.last()
    }
}

/// `items` joined by single spaces.
pub fn join_with_spaces(items: &Vec<String>) -> (r: String)
    ensures
        r@ == join_spaces(views(items@)),
{
    let mut r = String::new();
    let mut i: usize = 0;
    while i < items.len()
        invariant
            i <= items.len(),
            r@ == join_spaces(views(items@).take(i as int)),
        decreases items.len() - i,
    {
        proof {
            assert(views(items@).take(i + 1).drop_last() =~= views(items@).take(i as int));
        }
        if i > 0 {
            r.append(" ");
        }
        r.append(items[i].as_str());
        i = i + 1;
        proof {
            if i == 1 {
                assert(r@ =~= join_spaces(views(items@).take(i as int)));
            }
        }
    }
    proof {
        assert(views(items@).take(items.len() as int) =~= views(items@));
    }
    r
}

/// `role` is among the roles a rule allows (an empty list allows every role).
pub open spec fn role_allowed(rule: TargetRule, role: AiRole) -> bool {
    rule.allowed_roles@.len() == 0 || rule.allowed_roles@.contains(role)
}

/// The diagnostics of routing `kind` by `role` into repo `m`.
pub open spec fn routing_diagnostics(kind: Seq<char>, role: AiRole, m: RepoManifest, rwf: Option<RwfShortfall>) -> Seq<DiagnosticView> {
    let kind_diag = if !allows_kind(m, kind) {
        let base = "Object kind '"@ + kind + "' is not allowed in repo '"@ + m.repo_name@ + "'."@;
        let message = match m.authoring_hints.tier_rationale {
            Some(reason) => base + " "@ + reason@,
            None => base,
        };
        let remediation = match m.authoring_hints.default_staging_repo {
            Some(s) => Some("Route this artifact to staging repo '"@ + s@ + "' or another repo that accepts this object kind."@),
            None => None,
        };
        seq![(ValidationLayer::Manifest, ValidationSeverity::Error, "ROUTING_OBJECT_KIND_FORBIDDEN"@, message, None, remediation)]
    } else {
        seq![]
    };
    let rule_diags = match rule_for(m.target_rules@, kind) {
        Some(rule) => {
            let role_diag = if !role_allowed(rule, role) {
                seq![(
                    ValidationLayer::Manifest,
                    ValidationSeverity::Error,
                    "ROUTING_ROLE_FORBIDDEN"@,
                    "Role '"@ + role_debug(role) + "' is not allowed to author object kind '"@ + kind + "' in repo '"@ + m.repo_name@ + "'."@,
                    None,
                    Some("Use an authorized AI role for this operation, or target a repo that permits this role."@),
                )]
            } else {
                seq![]
            };
            let notes = if rule.notes@.len() > 0 {
                seq![(
                    ValidationLayer::Manifest,
                    ValidationSeverity::Info,
                    "ROUTING_NOTES"@,
                    "Routing rule notes for object kind '"@ + kind + "' in repo '"@ + m.repo_name@ + "': "@ + join_spaces(views(rule.notes@)),
                    None,
                    None,
                )]
            } else {
                seq![]
            };
            role_diag + notes
        },
        None => seq![],
    };
    let rwf_diag = match (m.min_rwf_for_tier, rwf) {
        (Some(_), Some(s)) => seq![(
            ValidationLayer::Manifest,
            ValidationSeverity::Error,
            "RWF_BELOW_MINIMUM"@,
            rwf_message(s, m.repo_name@),
            None,
            Some("Route this artifact to a staging repo or improve confidence before targeting this repo."@),
        )],
        _ => seq![],
    };
    kind_diag + rule_diags + rwf_diag
}

/// Whether routing `kind` by `role` into `m` has no blocking finding.
pub open spec fn routing_ok(kind: Seq<char>, role: AiRole, m: RepoManifest, rwf: Option<RwfShortfall>) -> bool {
    &&& allows_kind(m, kind)
    &&& rule_for(m.target_rules@, kind) matches Some(rule) ==> role_allowed(rule, role)
    &&& !(m.min_rwf_for_tier is Some && rwf is Some)
}

fn diagnostic(layer: ValidationLayer, severity: ValidationSeverity, code: &str, message: String, remediation: Option<String>) -> (r: ValidationDiagnostic)
    ensures
        r@ == (layer, severity, code@, message@, None::<Seq<char>>, opt_view(remediation)),
{
    ValidationDiagnostic { layer, severity, code: String::from_str(code), message, json_pointer: None, remediation }
}

proof fn lemma_diag_push(s: Seq<ValidationDiagnostic>, d: ValidationDiagnostic)
    ensures
        diagnostic_views(s.push(d)) == diagnostic_views(s).push(d@),
{
    assert(diagnostic_views(s.push(d)) =~= diagnostic_views(s).push(d@));
}

fn contains_role(roles: &Vec<AiRole>, role: AiRole) -> (r: bool)
    ensures
        r == roles@.contains(role),
{
    let mut i: usize = 0;
    while i < roles.len()
        invariant
            i <= roles.len(),
            forall|k: int| 0 <= k < i ==> roles@[k] != role,
        decreases roles.len() - i,
    {
        if roles[i] == role {
            return true;
        }
        i = i + 1;
    }
    false
}

/// Validate routing and tier/policy compliance of `object_kind` authored by
/// `role` into `target_repo`. `rwf_shortfall` is present when the
/// response's RWF score is below the repo's minimum.
pub fn validate_routing(object_kind: &str, role: AiRole, target_repo: &RepoManifest, rwf_shortfall: Option<RwfShortfall>) -> (r: ValidationResult)
    ensures
        r.ok == routing_ok(object_kind@, role, *target_repo, rwf_shortfall),
        diagnostic_views(r.diagnostics@) == routing_diagnostics(object_kind@, role, *target_repo, rwf_shortfall),
{
    let ghost kind = object_kind@;
    let mut diagnostics: Vec<ValidationDiagnostic> = Vec::new();
    let mut ok = true;
    if !target_repo.allows_object_kind(object_kind) {
        ok = false;
        let (charter, suggestion) = target_repo.tier_violation_hints_for();
        let mut message = String::from_str("Object kind '");
        message.append(object_kind);
        message.append("' is not allowed in repo '");
        message.append(target_repo.repo_name.as_str());
        message.append("'.");
        if let Some(reason) = &charter {
            message.append(" ");
            message.append(reason.as_str());
        }
        let remediation = match suggestion {
            Some(s) => {
                let mut t = String::from_str("Route this artifact to staging repo '");
                t.append(s.as_str());
                t.append("' or another repo that accepts this object kind.");
                Some(t)
            },
            None => None,
        };
        let d = diagnostic(ValidationLayer::Manifest, ValidationSeverity::Error, "ROUTING_OBJECT_KIND_FORBIDDEN", message, remediation);
        proof { lemma_diag_push(diagnostics@, d); }
        diagnostics.push(d);
    }
    if let Some(rule) = target_repo.find_rule_for(object_kind) {
        if rule.allowed_roles.len() > 0 && !contains_role(&rule.allowed_roles, role) {
            ok = false;
            let mut message = String::from_str("Role '");
            message.append(role_debug_name(role));
            message.append("' is not allowed to author object kind '");
            message.append(object_kind);
            message.append("' in repo '");
            message.append(target_repo.repo_name.as_str());
            message.append("'.");
            let d = diagnostic(
                ValidationLayer::Manifest,
                ValidationSeverity::Error,
                "ROUTING_ROLE_FORBIDDEN",
                message,
                Some(String::from_str("Use an authorized AI role for this operation, or target a repo that permits this role.")),
            );
            proof { lemma_diag_push(diagnostics@, d); }
            diagnostics.push(d);
        }
        if rule.notes.len() > 0 {
            let note = join_with_spaces(&rule.notes);
            let mut message = String::from_str("Routing rule notes for object kind '");
            message.append(object_kind);
            message.append("' in repo '");
            message.append(target_repo.repo_name.as_str());
            message.append("': ");
            message.append(note.as_str());
            let d = diagnostic(ValidationLayer::Manifest, ValidationSeverity::Info, "ROUTING_NOTES", message, None);
            proof { lemma_diag_push(diagnostics@, d); }
            diagnostics.push(d);
        }
    }
    if target_repo.min_rwf_for_tier.is_some() {
        if let Some(s) = rwf_shortfall {
            ok = false;
            let mut message = String::from_str("RWF score ");
            message.append(s.rwf.as_str());
            message.append(" is below the minimum ");
            message.append(s.minimum.as_str());
            message.append(" required for repo '");
            message.append(target_repo.repo_name.as_str());
            message.append("'.");
            let d = diagnostic(
                ValidationLayer::Manifest,
                ValidationSeverity::Error,
                "RWF_BELOW_MINIMUM",
                message,
                Some(String::from_str("Route this artifact to a staging repo or improve confidence before targeting this repo.")),
            );
            proof { lemma_diag_push(diagnostics@, d); }
            diagnostics.push(d);
        }
    }
    proof {
        assert(diagnostic_views(diagnostics@) =~= routing_diagnostics(kind, role, *target_repo, rwf_shortfall));
    }
    ValidationResult { ok, diagnostics }
}

/// The default path hint for an object kind without a manifest default.
pub open spec fn fallback_path_hint() -> Seq<char> {
    "contracts/{objectKind}/{id}.json"@
}

/// Build a routing explanation for AI tools.
pub fn explain_route(object_kind: &str, tier: Option<Tier>, manifest: &RepoManifest) -> (r: RouteExplanation)
    ensures
        r.object_kind@ == object_kind@,
        opt_view(r.tier) == match tier {
            Some(t) => Some(tier_text(t)),
            None => None,
        },
        r.target_repo@ == manifest.repo_name@,
        r.target_path_hint@ == match lookup(manifest.default_target_paths@, object_kind@) {
            Some(p) => p@,
            None => fallback_path_hint(),
        },
        views(r.policy_notes@) == match manifest.authoring_hints.tier_rationale {
            Some(c) => seq![c@],
            None => Seq::<Seq<char>>::empty(),
        },
{
    let path_hint = match manifest.default_path_for(object_kind) {
        Some(p) => String::from_str(p),
        None => String::from_str("contracts/{objectKind}/{id}.json"),
    };
    let mut notes: Vec<String> = Vec::new();
    let (charter, _) = manifest.tier_violation_hints_for();
    if let Some(c) = charter {
        notes.push(c);
    }
    proof {
        assert(views(notes@) =~= match manifest.authoring_hints.tier_rationale {
            Some(c) => seq![c@],
            None => Seq::<Seq<char>>::empty(),
        });
    }
    RouteExplanation {
        object_kind: String::from_str(object_kind),
        tier: match tier {
            Some(t) => Some(String::from_str(t.as_str())),
            None => None,
        },
        target_repo: manifest.repo_name.clone(),
        target_path_hint: path_hint,
        policy_notes: notes,
    }
}

/// The policy checklist of a manifest.
pub fn checklist_for_manifest(manifest: &RepoManifest) -> (r: crate::director::model::manifest_types::PolicyChecklist)
    ensures
        r.repo_name@ == manifest.repo_name@,
        r.tier@ == tier_text(manifest.tier),
        crate::director::model::manifest_types::item_views(r.items@)
            == crate::director::model::manifest_types::policy_items(*manifest),
{
    manifest.to_policy_checklist()
}

/// The tier-policy diagnostic of a request: raw content kinds of the repo's
/// tier are refused in T1-core repos.
pub open spec fn tier_policy_diagnostic(m: RepoManifest, req: AiAuthoringRequest) -> Option<ManifestDiagnosticView> {
    if m.tier == Tier::T1Core && (forbidden_for(m.rules.forbidden_fields@, m.tier) matches Some(l) && l.contains(
        req.object_kind@,
    )) {
        Some((
            ManifestDiagnosticCode::TierPolicyViolation,
            "Raw narrative content for '"@ + req.object_kind@ + "' is not allowed in T1-core repo '"@ + m.repo_name@ + "'."@,
            ManifestDiagnosticSeverity::Error,
            opt_view(m.authoring_hints.tier_rationale),
            opt_view(m.authoring_hints.default_staging_repo),
        ))
    } else {
        None
    }
}

fn manifest_diagnostic(code: ManifestDiagnosticCode, message: String, charter: Option<String>, suggestion: Option<String>) -> (r: ManifestDiagnostic)
    ensures
        r@ == (code, message@, ManifestDiagnosticSeverity::Error, opt_view(charter), opt_view(suggestion)),
{
    ManifestDiagnostic {
        code,
        message,
        severity: ManifestDiagnosticSeverity::Error,
        charter_rationale: charter,
        suggested_alternative_repo: suggestion,
    }
}

/// The tier-policy diagnostic of a request, if any.
pub fn check_tier_policy(manifest: &RepoManifest, req: &AiAuthoringRequest) -> (r: Option<ManifestDiagnostic>)
    ensures
        match r {
            None => tier_policy_diagnostic(*manifest, *req) is None,
            Some(d) => tier_policy_diagnostic(*manifest, *req) == Some(d@),
        },
{
    match manifest.tier {
        Tier::T1Core => {
            if manifest.is_raw_content_kind(req.object_kind.as_str()) {
                let (charter, suggestion) = manifest.tier_violation_hints_for();
                let mut message = String::from_str("Raw narrative content for '");
                message.append(req.object_kind.as_str());
                message.append("' is not allowed in T1-core repo '");
                message.append(manifest.repo_name.as_str());
                message.append("'.");
                Some(manifest_diagnostic(ManifestDiagnosticCode::TierPolicyViolation, message, charter, suggestion))
            } else {
                None
            }
        },
        _ => None,
    }
}

/// The RWF-threshold diagnostic of a response whose score is below the
/// repo's minimum, if the repo has one.
pub open spec fn rwf_diagnostic(m: RepoManifest, rwf: Option<RwfShortfall>) -> Option<ManifestDiagnosticView> {
    match (m.min_rwf_for_tier, rwf) {
        (Some(_), Some(s)) => Some((
            ManifestDiagnosticCode::RwfBelowTierMinimum,
            rwf_message(s, m.repo_name@),
            ManifestDiagnosticSeverity::Error,
            opt_view(m.authoring_hints.tier_rationale),
            opt_view(m.authoring_hints.default_staging_repo),
        )),
        _ => None,
    }
}

/// The RWF-threshold diagnostic, if any.
pub fn check_rwf_threshold(manifest: &RepoManifest, rwf_shortfall: Option<RwfShortfall>) -> (r: Option<ManifestDiagnostic>)
    ensures
        match r {
            None => rwf_diagnostic(*manifest, rwf_shortfall) is None,
            Some(d) => rwf_diagnostic(*manifest, rwf_shortfall) == Some(d@),
        },
{
    if manifest.min_rwf_for_tier.is_none() {
        return None;
    }
    match rwf_shortfall {
        None => None,
        Some(s) => {
            let mut message = String::from_str("RWF score ");
            message.append(s.rwf.as_str());
            message.append(" is below the minimum ");
            message.append(s.minimum.as_str());
            message.append(" required for repo '");
            message.append(manifest.repo_name.as_str());
            message.append("'.");
            Some(manifest_diagnostic(
                ManifestDiagnosticCode::RwfBelowTierMinimum,
                message,
                manifest.authoring_hints.tier_rationale.clone(),
                manifest.authoring_hints.default_staging_repo.clone(),
            ))
        },
    }
}

/// The cross-repository reference diagnostics of the first `n` referenced ids.
pub open spec fn cross_ref_diagnostics(m: RepoManifest, ids: Seq<String>) -> Seq<ManifestDiagnosticView>
    decreases ids.len(),
{
    if ids.len() == 0 {
        seq![]
    } else {
        let rest = cross_ref_diagnostics(m, ids.drop_last());
        let id = ids.last()@;
        match repo_for_id(id) {
            Some(target) => if !views(m.cross_ref_policy.allows_refs_to@).contains(target) {
                rest.push((
                    ManifestDiagnosticCode::CrossRepoRefNotAllowed,
                    "Cross-repo reference '"@ + id + "' to repo '"@ + target + "' is not allowed from repo '"@ + m.repo_name@ + "'."@,
                    ManifestDiagnosticSeverity::Error,
                    opt_view(m.authoring_hints.cross_repo_rationale),
                    None,
                ))
            } else {
                rest
            },
            None => rest,
        }
    }
}

proof fn lemma_mdiag_push(s: Seq<ManifestDiagnostic>, d: ManifestDiagnostic)
    ensures
        manifest_diagnostic_views(s.push(d)) == manifest_diagnostic_views(s).push(d@),
{
    assert(manifest_diagnostic_views(s.push(d)) =~= manifest_diagnostic_views(s).push(d@));
}

/// The references of `req` into repositories that `source_manifest` may not
/// reference; `None` when there are none.
pub fn validate_cross_refs(source_manifest: &RepoManifest, ctx: &ManifestContext, req: &AiAuthoringRequest) -> (r: Option<Vec<ManifestDiagnostic>>)
    ensures
        match r {
            None => cross_ref_diagnostics(*source_manifest, req.referenced_ids@).len() == 0,
            Some(ds) => ds@.len() > 0 && manifest_diagnostic_views(ds@) == cross_ref_diagnostics(*source_manifest, req.referenced_ids@),
        },
{
    let ids = &req.referenced_ids;
    let mut diags: Vec<ManifestDiagnostic> = Vec::new();
    let mut j: usize = 0;
    while j < ids.len()
        invariant
            j <= ids.len(),
            ids@ == req.referenced_ids@,
            manifest_diagnostic_views(diags@) == cross_ref_diagnostics(*source_manifest, ids@.take(j as int)),
        decreases ids.len() - j,
    {
        proof {
            assert(ids@.take(j + 1).drop_last() =~= ids@.take(j as int));
        }
        let id = &ids[j];
        if let Some(target_repo) = ctx.lookup_repo_for_id(id.as_str()) {
            if !source_manifest.allows_cross_ref_to(target_repo.as_str()) {
                let mut message = String::from_str("Cross-repo reference '");
                message.append(id.as_str());
                message.append("' to repo '");
                message.append(target_repo.as_str());
                message.append("' is not allowed from repo '");
                message.append(source_manifest.repo_name.as_str());
                message.append("'.");
                let d = manifest_diagnostic(
                    ManifestDiagnosticCode::CrossRepoRefNotAllowed,
                    message,
                    source_manifest.authoring_hints.cross_repo_rationale.clone(),
                    None,
                );
                proof { lemma_mdiag_push(diags@, d); }
                diags.push(d);
            }
        }
        j = j + 1;
    }
    proof {
        assert(ids@.take(ids.len() as int) =~= ids@);
    }
    if diags.len() == 0 {
        None
    } else {
        Some(diags)
    }
}

/// All manifest diagnostics of a response to `req`, and whether one of them
/// is fatal; `rwf_shortfall` is present when the response's RWF score is
/// below the target repo's minimum.
pub open spec fn manifest_findings(ms: Seq<RepoManifest>, req: AiAuthoringRequest, resp: AiAuthoringResponse, rwf: Option<RwfShortfall>) -> (Seq<ManifestDiagnosticView>, bool) {
    match manifest_named(ms, resp.target_repo@) {
        None => (seq![(
            ManifestDiagnosticCode::InvalidTargetRepo,
            "Target repo '"@ + resp.target_repo@ + "' is not known in the current constellation."@,
            ManifestDiagnosticSeverity::Error,
            None,
            None,
        )], true),
        Some(m) => {
            let kind = if !allows_kind(m, req.object_kind@) {
                seq![(
                    ManifestDiagnosticCode::ObjectKindNotAllowedInRepo,
                    "Object kind '"@ + req.object_kind@ + "' is not allowed in repo '"@ + m.repo_name@ + "'."@,
                    ManifestDiagnosticSeverity::Error,
                    opt_view(m.authoring_hints.tier_rationale),
                    opt_view(m.authoring_hints.default_staging_repo),
                )]
            } else {
                seq![]
            };
            let tier = match tier_policy_diagnostic(m, req) {
                Some(d) => seq![d],
                None => seq![],
            };
            let one_file = if m.rules.one_file_per_request && resp.additional_artifacts@.len() > 0 {
                seq![(
                    ManifestDiagnosticCode::OneFilePerRequestViolation,
                    "Response contains more than one artifact in a one-file-per-request repo."@,
                    ManifestDiagnosticSeverity::Error,
                    opt_view(m.authoring_hints.one_file_per_request_rationale),
                    None,
                )]
            } else {
                seq![]
            };
            let deadledger = if m.rules.require_deadledger_ref && resp.envelope.deadledger_ref is None {
                seq![(
                    ManifestDiagnosticCode::MissingDeadledgerRef,
                    "Dead-Ledger reference is required by this repo's policy but missing."@,
                    ManifestDiagnosticSeverity::Error,
                    opt_view(m.authoring_hints.deadledger_rationale),
                    None,
                )]
            } else {
                seq![]
            };
            let rwf_d = match rwf_diagnostic(m, rwf) {
                Some(d) => seq![d],
                None => seq![],
            };
            let cross = cross_ref_diagnostics(m, req.referenced_ids@);
            let all = kind + tier + one_file + deadledger + rwf_d + cross;
            (all, all.len() > 0)
        },
    }
}

proof fn lemma_mviews_append(a: Seq<ManifestDiagnostic>, b: Seq<ManifestDiagnostic>)
    ensures
        manifest_diagnostic_views(a + b) == manifest_diagnostic_views(a) + manifest_diagnostic_views(b),
{
    assert(manifest_diagnostic_views(a + b) =~= manifest_diagnostic_views(a) + manifest_diagnostic_views(b));
}

/// Validate the routing, tier and policy rules of the target repo for a
/// response. Every finding is an error, and any finding makes the result fatal.
pub fn validate_manifests(ctx: &ManifestContext, req: &AiAuthoringRequest, resp: &AiAuthoringResponse, rwf_shortfall: Option<RwfShortfall>) -> (r: ManifestValidationResult)
    ensures
        ({
            let (ds, fatal) = manifest_findings(ctx.manifests_by_repo@, *req, *resp, rwf_shortfall);
            &&& manifest_diagnostic_views(r.diagnostics@) == ds
            &&& r.is_fatal == fatal
        }),
{
    let mut diagnostics: Vec<ManifestDiagnostic> = Vec::new();
    let manifest = match ctx.find_manifest(resp.target_repo.as_str()) {
        Some(m) => m,
        None => {
            let mut message = String::from_str("Target repo '");
            message.append(resp.target_repo.as_str());
            message.append("' is not known in the current constellation.");
            let d = manifest_diagnostic(ManifestDiagnosticCode::InvalidTargetRepo, message, None, None);
            proof { lemma_mdiag_push(diagnostics@, d); }
            diagnostics.push(d);
            proof {
                assert(manifest_diagnostic_views(diagnostics@) =~= manifest_findings(ctx.manifests_by_repo@, *req, *resp, rwf_shortfall).0);
            }
            return ManifestValidationResult { diagnostics, is_fatal: true };
        },
    };
    if !manifest.allows_object_kind(req.object_kind.as_str()) {
        let (charter, suggestion) = manifest.tier_violation_hints_for();
        let mut message = String::from_str("Object kind '");
        message.append(req.object_kind.as_str());
        message.append("' is not allowed in repo '");
        message.append(manifest.repo_name.as_str());
        message.append("'.");
        let d = manifest_diagnostic(ManifestDiagnosticCode::ObjectKindNotAllowedInRepo, message, charter, suggestion);
        proof { lemma_mdiag_push(diagnostics@, d); }
        diagnostics.push(d);
    }
    if let Some(d) = check_tier_policy(manifest, req) {
        proof { lemma_mdiag_push(diagnostics@, d); }
        diagnostics.push(d);
    }
    if manifest.rules.one_file_per_request && resp.additional_artifacts_count() > 0 {
        let d = manifest_diagnostic(
            ManifestDiagnosticCode::OneFilePerRequestViolation,
            String::from_str("Response contains more than one artifact in a one-file-per-request repo."),
            manifest.authoring_hints.one_file_per_request_rationale.clone(),
            None,
        );
        proof { lemma_mdiag_push(diagnostics@, d); }
        diagnostics.push(d);
    }
    if manifest.rules.require_deadledger_ref && !resp.has_deadledger_ref() {
        let d = manifest_diagnostic(
            ManifestDiagnosticCode::MissingDeadledgerRef,
            String::from_str("Dead-Ledger reference is required by this repo's policy but missing."),
            manifest.authoring_hints.deadledger_rationale.clone(),
            None,
        );
        proof { lemma_mdiag_push(diagnostics@, d); }
        diagnostics.push(d);
    }
    if let Some(d) = check_rwf_threshold(manifest, rwf_shortfall) {
        proof { lemma_mdiag_push(diagnostics@, d); }
        diagnostics.push(d);
    }
    if let Some(mut cross) = validate_cross_refs(manifest, ctx, req) {
        let ghost a = diagnostics@;
        let ghost b = cross@;
        diagnostics.append(&mut cross);
        proof { lemma_mviews_append(a, b); }
    }
    proof {
        assert(manifest_diagnostic_views(diagnostics@) =~= manifest_findings(ctx.manifests_by_repo@, *req, *resp, rwf_shortfall).0);
    }
    let is_fatal = diagnostics.len() > 0;
    ManifestValidationResult { diagnostics, is_fatal }
}


/// Routing succeeds exactly when it finds no error: `validate_routing` is
/// ok exactly when none of its diagnostics has error severity (the rule
/// notes are informational).
pub proof fn lemma_routing_ok_iff_no_error(kind: Seq<char>, role: AiRole, m: RepoManifest, rwf: Option<RwfShortfall>)
    ensures
        routing_ok(kind, role, m, rwf) <==> forall|i: int| 0 <= i < routing_diagnostics(kind, role, m, rwf).len()
            ==> (#[trigger] routing_diagnostics(kind, role, m, rwf)[i]).1 != ValidationSeverity::Error,
{
    let ds = routing_diagnostics(kind, role, m, rwf);
    if !routing_ok(kind, role, m, rwf) {
        if !allows_kind(m, kind) {
            assert(ds[0].1 == ValidationSeverity::Error);
        } else if rule_for(m.target_rules@, kind) matches Some(rule) && !role_allowed(rule, role) {
            assert(ds[0].1 == ValidationSeverity::Error);
        } else {
            assert(ds[ds.len() - 1].1 == ValidationSeverity::Error);
        }
    }
}

/// The manifest checks are fatal exactly when they find anything.
pub proof fn lemma_manifest_checks_fatal_iff_findings(ms: Seq<RepoManifest>, req: AiAuthoringRequest, resp: AiAuthoringResponse, rwf: Option<RwfShortfall>)
    ensures
        manifest_findings(ms, req, resp, rwf).1 <==> manifest_findings(ms, req, resp, rwf).0.len() > 0,
{
}


/// `ds` holds a diagnostic with code `code`.
pub open spec fn has_code(ds: Seq<DiagnosticView>, code: Seq<char>) -> bool {
    exists|i: int| 0 <= i < ds.len() && (#[trigger] ds[i]).2 == code
}

proof fn lemma_has_code_concat(a: Seq<DiagnosticView>, b: Seq<DiagnosticView>, code: Seq<char>)
    ensures
        has_code(a + b, code) <==> has_code(a, code) || has_code(b, code),
{
    if has_code(a + b, code) {
        let i = choose|i: int| 0 <= i < (a + b).len() && (#[trigger] (a + b)[i]).2 == code;
        if i < a.len() {
            assert((a + b)[i] == a[i]);
        } else {
            assert((a + b)[i] == b[i - a.len()]);
        }
    }
    if has_code(a, code) {
        let i = choose|i: int| 0 <= i < a.len() && (#[trigger] a[i]).2 == code;
        assert((a + b)[i] == a[i]);
    }
    if has_code(b, code) {
        let i = choose|i: int| 0 <= i < b.len() && (#[trigger] b[i]).2 == code;
        assert((a + b)[a.len() + i] == b[i]);
    }
}

proof fn lemma_has_code_single(d: DiagnosticView, code: Seq<char>)
    ensures
        has_code(seq![d], code) <==> d.2 == code,
{
    if d.2 == code {
        assert(seq![d][0] == d);
    }
}

proof fn lemma_has_code_empty(code: Seq<char>)
    ensures
        !has_code(Seq::<DiagnosticView>::empty(), code),
{
}

/// The forms of `validate_routing`: it reports a forbidden object kind
/// exactly when the repo does not accept the kind, a forbidden role exactly
/// when the repo's rule for the kind lists roles and not this one, and an
/// RWF shortfall exactly when the repo sets a minimum and the response's
/// RWF falls below it (the comparison, on floating-point values, is made by
/// the caller and handed in as `rwf`).
pub proof fn lemma_routing_forms(kind: Seq<char>, role: AiRole, m: RepoManifest, rwf: Option<RwfShortfall>)
    ensures
        has_code(routing_diagnostics(kind, role, m, rwf), "ROUTING_OBJECT_KIND_FORBIDDEN"@) <==> !allows_kind(m, kind),
        has_code(routing_diagnostics(kind, role, m, rwf), "ROUTING_ROLE_FORBIDDEN"@) <==> (rule_for(m.target_rules@, kind) matches Some(rule)
            && rule.allowed_roles@.len() > 0 && !rule.allowed_roles@.contains(role)),
        has_code(routing_diagnostics(kind, role, m, rwf), "RWF_BELOW_MINIMUM"@) <==> (m.min_rwf_for_tier is Some && rwf is Some),
{
    reveal_strlit("ROUTING_OBJECT_KIND_FORBIDDEN");
    reveal_strlit("ROUTING_ROLE_FORBIDDEN");
    reveal_strlit("ROUTING_NOTES");
    reveal_strlit("RWF_BELOW_MINIMUM");
    let codes = seq!["ROUTING_OBJECT_KIND_FORBIDDEN"@, "ROUTING_ROLE_FORBIDDEN"@, "RWF_BELOW_MINIMUM"@];
    assert forall|t: int| 0 <= t < 3 implies (#[trigger] codes[t]) != "ROUTING_NOTES"@ by {
        assert(codes[t][8] != "ROUTING_NOTES"@[8]);
    }
    assert(codes[0] != codes[1] && codes[0] != codes[2] && codes[1] != codes[2]) by {
        assert(codes[0][8] != codes[1][8]);
        assert(codes[0][1] != codes[2][1]);
        assert(codes[1][1] != codes[2][1]);
    }
    let ds = routing_diagnostics(kind, role, m, rwf);
    let kind_diag = if !allows_kind(m, kind) {
        let base = "Object kind '"@ + kind + "' is not allowed in repo '"@ + m.repo_name@ + "'."@;
        let message = match m.authoring_hints.tier_rationale {
            Some(reason) => base + " "@ + reason@,
            None => base,
        };
        let remediation = match m.authoring_hints.default_staging_repo {
            Some(s) => Some("Route this artifact to staging repo '"@ + s@ + "' or another repo that accepts this object kind."@),
            None => None,
        };
        seq![(ValidationLayer::Manifest, ValidationSeverity::Error, "ROUTING_OBJECT_KIND_FORBIDDEN"@, message, None, remediation)]
    } else {
        seq![]
    };
    let rule_diags = match rule_for(m.target_rules@, kind) {
        Some(rule) => {
            let role_diag = if !role_allowed(rule, role) {
                seq![(
                    ValidationLayer::Manifest,
                    ValidationSeverity::Error,
                    "ROUTING_ROLE_FORBIDDEN"@,
                    "Role '"@ + role_debug(role) + "' is not allowed to author object kind '"@ + kind + "' in repo '"@ + m.repo_name@ + "'."@,
                    None,
                    Some("Use an authorized AI role for this operation, or target a repo that permits this role."@),
                )]
            } else {
                seq![]
            };
            let notes = if rule.notes@.len() > 0 {
                seq![(
                    ValidationLayer::Manifest,
                    ValidationSeverity::Info,
                    "ROUTING_NOTES"@,
                    "Routing rule notes for object kind '"@ + kind + "' in repo '"@ + m.repo_name@ + "': "@ + join_spaces(views(rule.notes@)),
                    None,
                    None,
                )]
            } else {
                seq![]
            };
            lemma_has_code_concat(role_diag, notes, codes[0]);
            lemma_has_code_concat(role_diag, notes, codes[1]);
            lemma_has_code_concat(role_diag, notes, codes[2]);
            if role_diag.len() > 0 {
                lemma_has_code_single(role_diag[0], codes[0]);
                lemma_has_code_single(role_diag[0], codes[1]);
                lemma_has_code_single(role_diag[0], codes[2]);
                assert(role_diag == seq![role_diag[0]]);
            }
            if notes.len() > 0 {
                lemma_has_code_single(notes[0], codes[0]);
                lemma_has_code_single(notes[0], codes[1]);
                lemma_has_code_single(notes[0], codes[2]);
                assert(notes == seq![notes[0]]);
            }
            role_diag + notes
        },
        None => seq![],
    };
    let rwf_diag = match (m.min_rwf_for_tier, rwf) {
        (Some(_), Some(s)) => seq![(
            ValidationLayer::Manifest,
            ValidationSeverity::Error,
            "RWF_BELOW_MINIMUM"@,
            rwf_message(s, m.repo_name@),
            None,
            Some("Route this artifact to a staging repo or improve confidence before targeting this repo."@),
        )],
        _ => seq![],
    };
    assert(ds == kind_diag + rule_diags + rwf_diag);
    assert forall|t: int| 0 <= t < 3 implies (has_code(ds, #[trigger] codes[t]) <==> has_code(kind_diag, codes[t]) || has_code(rule_diags, codes[t])
        || has_code(rwf_diag, codes[t])) by {
        lemma_has_code_concat(kind_diag + rule_diags, rwf_diag, codes[t]);
        lemma_has_code_concat(kind_diag, rule_diags, codes[t]);
    }
    assert forall|t: int| 0 <= t < 3 implies (has_code(kind_diag, #[trigger] codes[t]) <==> (t == 0 && !allows_kind(m, kind))) by {
        if kind_diag.len() > 0 {
            lemma_has_code_single(kind_diag[0], codes[t]);
            assert(kind_diag == seq![kind_diag[0]]);
        }
    }
    assert forall|t: int| 0 <= t < 3 implies (has_code(rwf_diag, #[trigger] codes[t]) <==> (t == 2 && m.min_rwf_for_tier is Some && rwf is Some)) by {
        if rwf_diag.len() > 0 {
            lemma_has_code_single(rwf_diag[0], codes[t]);
            assert(rwf_diag == seq![rwf_diag[0]]);
        }
    }
    assert(codes[0] == "ROUTING_OBJECT_KIND_FORBIDDEN"@);
    assert(codes[1] == "ROUTING_ROLE_FORBIDDEN"@);
    assert(codes[2] == "RWF_BELOW_MINIMUM"@);
}

/// `ds` holds a manifest diagnostic with code `code`.
pub open spec fn has_manifest_code(ds: Seq<ManifestDiagnosticView>, code: ManifestDiagnosticCode) -> bool {
    exists|i: int| 0 <= i < ds.len() && (#[trigger] ds[i]).0 == code
}

proof fn lemma_mcode_concat(a: Seq<ManifestDiagnosticView>, b: Seq<ManifestDiagnosticView>, code: ManifestDiagnosticCode)
    ensures
        has_manifest_code(a + b, code) <==> has_manifest_code(a, code) || has_manifest_code(b, code),
{
    if has_manifest_code(a + b, code) {
        let i = choose|i: int| 0 <= i < (a + b).len() && (#[trigger] (a + b)[i]).0 == code;
        if i < a.len() {
            assert((a + b)[i] == a[i]);
        } else {
            assert((a + b)[i] == b[i - a.len()]);
        }
    }
    if has_manifest_code(a, code) {
        let i = choose|i: int| 0 <= i < a.len() && (#[trigger] a[i]).0 == code;
        assert((a + b)[i] == a[i]);
    }
    if has_manifest_code(b, code) {
        let i = choose|i: int| 0 <= i < b.len() && (#[trigger] b[i]).0 == code;
        assert((a + b)[a.len() + i] == b[i]);
    }
}

proof fn lemma_cross_ref_codes(m: RepoManifest, ids: Seq<String>)
    ensures
        forall|i: int| 0 <= i < cross_ref_diagnostics(m, ids).len() ==> (#[trigger] cross_ref_diagnostics(m, ids)[i]).0
            == ManifestDiagnosticCode::CrossRepoRefNotAllowed && cross_ref_diagnostics(m, ids)[i].2 == ManifestDiagnosticSeverity::Error,
    decreases ids.len(),
{
    if ids.len() > 0 {
        let init = ids.drop_last();
        lemma_cross_ref_codes(m, init);
        let rest = cross_ref_diagnostics(m, init);
        let all = cross_ref_diagnostics(m, ids);
        assert forall|i: int| 0 <= i < all.len() implies (#[trigger] all[i]).0 == ManifestDiagnosticCode::CrossRepoRefNotAllowed
            && all[i].2 == ManifestDiagnosticSeverity::Error by {
            if i < rest.len() {
                assert(all[i] == rest[i]);
            }
        }
    }
}

/// The forms of `validate_manifests`: the result is fatal exactly when a
/// diagnostic has error severity; an unknown target repo gives exactly one
/// diagnostic, an invalid target repo; otherwise a disallowed object kind, a
/// missing Dead-Ledger reference and extra artifacts in a
/// one-file-per-request repo are each reported exactly when they occur.
#[verifier::rlimit(100)]
pub proof fn lemma_manifest_forms(ms: Seq<RepoManifest>, req: AiAuthoringRequest, resp: AiAuthoringResponse, rwf: Option<RwfShortfall>)
    ensures
        ({
            let (ds, fatal) = manifest_findings(ms, req, resp, rwf);
            &&& fatal <==> exists|i: int| 0 <= i < ds.len() && (#[trigger] ds[i]).2 == ManifestDiagnosticSeverity::Error
            &&& match manifest_named(ms, resp.target_repo@) {
                None => ds.len() == 1 && ds[0].0 == ManifestDiagnosticCode::InvalidTargetRepo,
                Some(m) => {
                    &&& has_manifest_code(ds, ManifestDiagnosticCode::ObjectKindNotAllowedInRepo) <==> !allows_kind(m, req.object_kind@)
                    &&& has_manifest_code(ds, ManifestDiagnosticCode::MissingDeadledgerRef)
                        <==> (m.rules.require_deadledger_ref && resp.envelope.deadledger_ref is None)
                    &&& has_manifest_code(ds, ManifestDiagnosticCode::OneFilePerRequestViolation)
                        <==> (m.rules.one_file_per_request && resp.additional_artifacts@.len() > 0)
                },
            }
        }),
{
    let (ds, fatal) = manifest_findings(ms, req, resp, rwf);
    match manifest_named(ms, resp.target_repo@) {
        None => {
            assert(ds[0].2 == ManifestDiagnosticSeverity::Error);
        },
        Some(m) => {
            let kind = if !allows_kind(m, req.object_kind@) {
                seq![(
                    ManifestDiagnosticCode::ObjectKindNotAllowedInRepo,
                    "Object kind '"@ + req.object_kind@ + "' is not allowed in repo '"@ + m.repo_name@ + "'."@,
                    ManifestDiagnosticSeverity::Error,
                    opt_view(m.authoring_hints.tier_rationale),
                    opt_view(m.authoring_hints.default_staging_repo),
                )]
            } else {
                seq![]
            };
            let tier = match tier_policy_diagnostic(m, req) {
                Some(d) => seq![d],
                None => seq![],
            };
            let one_file = if m.rules.one_file_per_request && resp.additional_artifacts@.len() > 0 {
                seq![(
                    ManifestDiagnosticCode::OneFilePerRequestViolation,
                    "Response contains more than one artifact in a one-file-per-request repo."@,
                    ManifestDiagnosticSeverity::Error,
                    opt_view(m.authoring_hints.one_file_per_request_rationale),
                    None,
                )]
            } else {
                seq![]
            };
            let deadledger = if m.rules.require_deadledger_ref && resp.envelope.deadledger_ref is None {
                seq![(
                    ManifestDiagnosticCode::MissingDeadledgerRef,
                    "Dead-Ledger reference is required by this repo's policy but missing."@,
                    ManifestDiagnosticSeverity::Error,
                    opt_view(m.authoring_hints.deadledger_rationale),
                    None,
                )]
            } else {
                seq![]
            };
            let rwf_d = match rwf_diagnostic(m, rwf) {
                Some(d) => seq![d],
                None => seq![],
            };
            let cross = cross_ref_diagnostics(m, req.referenced_ids@);
            assert(ds == kind + tier + one_file + deadledger + rwf_d + cross);
            lemma_cross_ref_codes(m, req.referenced_ids@);
            let parts = seq![kind, tier, one_file, deadledger, rwf_d];
            let codes = seq![
                ManifestDiagnosticCode::ObjectKindNotAllowedInRepo,
                ManifestDiagnosticCode::MissingDeadledgerRef,
                ManifestDiagnosticCode::OneFilePerRequestViolation,
            ];
            assert forall|t: int| 0 <= t < 3 implies (has_manifest_code(ds, #[trigger] codes[t]) <==> has_manifest_code(kind, codes[t])
                || has_manifest_code(tier, codes[t]) || has_manifest_code(one_file, codes[t]) || has_manifest_code(deadledger, codes[t])
                || has_manifest_code(rwf_d, codes[t]) || has_manifest_code(cross, codes[t])) by {
                lemma_mcode_concat(kind + tier + one_file + deadledger + rwf_d, cross, codes[t]);
                lemma_mcode_concat(kind + tier + one_file + deadledger, rwf_d, codes[t]);
                lemma_mcode_concat(kind + tier + one_file, deadledger, codes[t]);
                lemma_mcode_concat(kind + tier, one_file, codes[t]);
                lemma_mcode_concat(kind, tier, codes[t]);
            }
            assert forall|t: int| 0 <= t < 3 implies !has_manifest_code(cross, #[trigger] codes[t]) by {
                if has_manifest_code(cross, codes[t]) {
                    let i = choose|i: int| 0 <= i < cross.len() && (#[trigger] cross[i]).0 == codes[t];
                }
            }
            assert forall|t: int| 0 <= t < 3 implies !has_manifest_code(tier, #[trigger] codes[t]) by {
                if has_manifest_code(tier, codes[t]) {
                    let i = choose|i: int| 0 <= i < tier.len() && (#[trigger] tier[i]).0 == codes[t];
                }
            }
            assert forall|t: int| 0 <= t < 3 implies !has_manifest_code(rwf_d, #[trigger] codes[t]) by {
                if has_manifest_code(rwf_d, codes[t]) {
                    let i = choose|i: int| 0 <= i < rwf_d.len() && (#[trigger] rwf_d[i]).0 == codes[t];
                }
            }
            assert forall|t: int| 0 <= t < 3 implies (has_manifest_code(kind, #[trigger] codes[t]) <==> (t == 0 && !allows_kind(m, req.object_kind@))) by {
                if kind.len() > 0 && t == 0 {
                    assert(kind[0].0 == codes[t]);
                }
            }
            assert forall|t: int| 0 <= t < 3 implies (has_manifest_code(deadledger, #[trigger] codes[t]) <==> (t == 1 && m.rules.require_deadledger_ref
                && resp.envelope.deadledger_ref is None)) by {
                if deadledger.len() > 0 && t == 1 {
                    assert(deadledger[0].0 == codes[t]);
                }
            }
            assert forall|t: int| 0 <= t < 3 implies (has_manifest_code(one_file, #[trigger] codes[t]) <==> (t == 2 && m.rules.one_file_per_request
                && resp.additional_artifacts@.len() > 0)) by {
                if one_file.len() > 0 && t == 2 {
                    assert(one_file[0].0 == codes[t]);
                }
            }
            assert forall|i: int| 0 <= i < ds.len() implies (#[trigger] ds[i]).2 == ManifestDiagnosticSeverity::Error by {
                let a = kind + tier + one_file + deadledger + rwf_d;
                if i < a.len() {
                    assert(ds[i] == a[i]);
                    let b = kind + tier + one_file + deadledger;
                    if i < b.len() {
                        assert(a[i] == b[i]);
                        let c = kind + tier + one_file;
                        if i < c.len() {
                            assert(b[i] == c[i]);
                            let e = kind + tier;
                            if i < e.len() {
                                assert(c[i] == e[i]);
                                if i < kind.len() {
                                    assert(e[i] == kind[i]);
                                } else {
                                    assert(e[i] == tier[i - kind.len()]);
                                }
                            } else {
                                assert(c[i] == one_file[i - e.len()]);
                            }
                        } else {
                            assert(b[i] == deadledger[i - c.len()]);
                        }
                    } else {
                        assert(a[i] == rwf_d[i - b.len()]);
                    }
                } else {
                    assert(ds[i] == cross[i - a.len()]);
                }
            }
            if ds.len() > 0 {
                assert(ds[0].2 == ManifestDiagnosticSeverity::Error);
            }
            assert(codes[0] == ManifestDiagnosticCode::ObjectKindNotAllowedInRepo);
            assert(codes[1] == ManifestDiagnosticCode::MissingDeadledgerRef);
            assert(codes[2] == ManifestDiagnosticCode::OneFilePerRequestViolation);
        },
    }
}


/// The id-prefix routing of referenced entities: every id of the form
/// `event.…` or `region.…` lives in HorrorPlace-Atrocity-Seeds, every
/// `bundle.…` id in HorrorPlace-Black-Archivum, and an id with none of these
/// prefixes belongs to no known repository.
pub proof fn lemma_id_routing(rest: Seq<char>, id: Seq<char>)
    ensures
        repo_for_id("event."@ + rest) == Some("HorrorPlace-Atrocity-Seeds"@),
        repo_for_id("region."@ + rest) == Some("HorrorPlace-Atrocity-Seeds"@),
        repo_for_id("bundle."@ + rest) == Some("HorrorPlace-Black-Archivum"@),
        !(id.len() >= 6 && id.subrange(0, 6) == "event."@) && !(id.len() >= 7 && id.subrange(0, 7) == "region."@)
            && !(id.len() >= 7 && id.subrange(0, 7) == "bundle."@) ==> repo_for_id(id) is None,
{
    reveal_strlit("event.");
    reveal_strlit("region.");
    reveal_strlit("bundle.");
    assert(("event."@ + rest).subrange(0, 6) =~= "event."@);
    assert(("region."@ + rest).subrange(0, 7) =~= "region."@);
    assert(("bundle."@ + rest).subrange(0, 7) =~= "bundle."@);
    assert(("bundle."@ + rest).subrange(0, 6) != "event."@) by {
        assert(("bundle."@ + rest).subrange(0, 6)[0] != "event."@[0]);
    }
    assert(("bundle."@ + rest).subrange(0, 7) != "region."@) by {
        assert(("bundle."@ + rest).subrange(0, 7)[0] != "region."@[0]);
    }
}

/// A forbidden cross-repo reference is reported: when a referenced id lives
/// in a repository that the source manifest's policy does not allow
/// references to, the cross-reference check reports it.
pub proof fn lemma_forbidden_reference_reported(m: RepoManifest, ids: Seq<String>, k: int)
    requires
        0 <= k < ids.len(),
        repo_for_id(ids[k]@) matches Some(t) && !views(m.cross_ref_policy.allows_refs_to@).contains(t),
    ensures
        has_manifest_code(cross_ref_diagnostics(m, ids), ManifestDiagnosticCode::CrossRepoRefNotAllowed),
    decreases ids.len(),
{
    let init = ids.drop_last();
    let all = cross_ref_diagnostics(m, ids);
    if k < init.len() {
        assert(init[k] == ids[k]);
        lemma_forbidden_reference_reported(m, init, k);
        let rest = cross_ref_diagnostics(m, init);
        let i = choose|i: int| 0 <= i < rest.len() && (#[trigger] rest[i]).0 == ManifestDiagnosticCode::CrossRepoRefNotAllowed;
        assert(all[i] == rest[i]);
    } else {
        assert(ids.last() == ids[k]);
        assert(all[all.len() - 1].0 == ManifestDiagnosticCode::CrossRepoRefNotAllowed);
    }
}

} // verus!
