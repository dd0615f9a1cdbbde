//! The validation pipeline: manifest policy, envelope structure, and the
//! assembly of the per-layer results into one verdict.
pub mod envelopes;
pub mod manifests;
pub mod schema;

use vstd::prelude::*;

use crate::director::chat_director::ChatDirector;
use crate::director::config::Config;
use crate::director::model::request_types::AiAuthoringRequest;
use crate::director::model::response_types::{AiAuthoringResponse, SoftDiagnostic, ValidatedFile, ValidatedProvenance, ValidationStep};
use crate::director::model::spine_types::kind_known;
use crate::director::phases::{check_phase_permission, family_for_kind, permission_of, phase_debug, ContractFamily, PhasePermission};
use crate::director::validate::envelopes::{envelope_errors, opt_error_view, rfc3339_error, validate_envelope, EnvelopeError};
use crate::director::validate::manifests::{manifest_findings, validate_manifests, ManifestContext, RwfShortfall};
use crate::director::validate::schema::{opt_text, schema_findings, schema_layer_outcome};
use crate::hashing::{hex_encode, hex_lower, sha256, sha256_digest};
use crate::text::{decimal, decimal_string, has_prefix, str_starts_with};

verus! {

/// A machine-readable remediation hint.
#[derive(Debug, Clone)]
pub struct Remediation {
    pub json_pointer: String,
    pub expected: String,
    pub suggestion: String,
}

/// The verdict of a failed validation run.
#[derive(Debug, Clone)]
pub struct ValidationError {
    pub code: String,
    pub json_pointer: String,
    pub message: String,
    pub remediation: Option<Remediation>,
}

/// Validation layer identifier.
#[derive(Debug, Clone, Copy, PartialEq, Eq, Structural)]
pub enum ValidationLayer {
    Schema,
    Invariants,
    Manifest,
    Envelope,
}

/// Diagnostic severity level.
#[derive(Debug, Clone, Copy, PartialEq, Eq, Structural)]
pub enum DiagnosticSeverity {
    Error,
    Warning,
    Info,
}

/// Cross-metric interaction effect record.
#[derive(Debug, Clone)]
pub struct InteractionEffect {
    pub rule_id: String,
    pub source_metric: String,
    pub target_metric: String,
    pub effect_type: String,
    /// The adjusted band, as JSON text.
    pub adjusted_band: String,
    pub reason: String,
}

/// Diagnostic ranked for iterative correction.
#[derive(Debug, Clone)]
pub struct RankedDiagnostic {
    pub code: String,
    pub layer: ValidationLayer,
    pub severity: DiagnosticSeverity,
    pub message: String,
    pub json_pointer: String,
    pub submitted_value: Option<String>,
    pub expected: Option<String>,
    pub remediation: Option<Remediation>,
    pub fix_order: u32,
    pub interaction_effects: Vec<InteractionEffect>,
}

/// Result of the full validation pipeline.
#[derive(Debug, Clone)]
pub struct ValidationResult {
    pub passed: bool,
    pub diagnostics: Vec<RankedDiagnostic>,
    pub validated_file: Option<ValidatedFile>,
    pub layers_executed: Vec<ValidationLayer>,
}

/// A finding of the JSON-schema layer.
#[derive(Debug, Clone)]
pub struct SchemaFinding {
    pub code: String,
    pub message: String,
    pub json_pointer: String,
    pub submitted: Option<String>,
    pub expected: Option<String>,
    pub remediation: Option<Remediation>,
}

/// A schema finding as code, message, pointer, submitted value, expected
/// value and remediation.
pub type FindingView = (Seq<char>, Seq<char>, Seq<char>, Option<Seq<char>>, Option<Seq<char>>, Option<(Seq<char>, Seq<char>, Seq<char>)>);

/// The view of an optional string.
pub open spec fn opt_string_view(o: Option<String>) -> Option<Seq<char>> {
    match o {
        Some(s) => Some(s@),
        None => None,
    }
}

/// The view of a schema finding.
pub open spec fn finding_view(f: SchemaFinding) -> FindingView {
    (f.code@, f.message@, f.json_pointer@, opt_string_view(f.submitted), opt_string_view(f.expected), match f.remediation {
        Some(r) => Some((r.json_pointer@, r.expected@, r.suggestion@)),
        None => None,
    })
}

/// A failed invariant or metric check of the numeric layer.
#[derive(Debug, Clone)]
pub struct InvariantFinding {
    pub code: String,
    pub message: String,
    pub json_pointer: String,
    pub submitted_value: Option<String>,
    pub expected: Option<String>,
    pub remediation: Option<Remediation>,
    pub interaction_effects: Vec<InteractionEffect>,
}

/// The fields of a failed validation run, remediation included.
pub type VerdictView = (Seq<char>, Seq<char>, Seq<char>, Option<(Seq<char>, Seq<char>, Seq<char>)>);

impl View for ValidationError {
    type V = VerdictView;

    open spec fn view(&self) -> VerdictView {
        (self.code@, self.json_pointer@, self.message@, match self.remediation {
            Some(r) => Some((r.json_pointer@, r.expected@, r.suggestion@)),
            None => None,
        })
    }
}

/// The verdict when the schema layer fails.
pub open spec fn schema_verdict(findings: Seq<FindingView>) -> VerdictView {
    let pointer = if findings.len() > 0 { findings[0].2 } else { Seq::<char>::empty() };
    (
        "SCHEMA_VALIDATION_FAILED"@,
        "/"@,
        "Schema validation failed; fix structural issues first"@,
        Some((pointer, "Valid JSON matching the referenced schema"@, "Check schemaref and ensure all required fields are present"@)),
    )
}

/// The verdict when a manifest policy is violated.
pub open spec fn manifest_verdict() -> VerdictView {
    (
        "MANIFEST_POLICY_VIOLATION"@,
        "/targetRepo"@,
        "Manifest policy check failed"@,
        Some(("/targetRepo"@, "A repo with compatible tier and policy"@, "Review authoringHints in the target repo's manifest"@)),
    )
}

/// The verdict when the envelope is malformed.
pub open spec fn envelope_verdict() -> VerdictView {
    (
        "ENVELOPE_VALIDATION_FAILED"@,
        "/envelope"@,
        "Envelope structural validation failed"@,
        Some(("/envelope"@, "A well-formed prism-envelope-v1 structure"@, "Use wrap_in_prism_envelope helper to ensure correct structure"@)),
    )
}

/// The codes of the findings, in order, separated by commas.
pub open spec fn joined_codes(findings: Seq<InvariantFinding>) -> Seq<char>
    decreases findings.len(),
{
    if findings.len() <= 1 {
        if findings.len() == 1 { findings[0].code@ } else { Seq::<char>::empty() }
    } else {
        joined_codes(findings.drop_last()) + ","@ + findings.last().code@
    }
}

/// The verdict when invariant checks fail: it carries the codes of the
/// failed checks, the count, and the first check's pointer and message.
pub open spec fn invariant_verdict(findings: Seq<InvariantFinding>) -> VerdictView {
    let pointer = findings[0].json_pointer@;
    (
        joined_codes(findings),
        pointer,
        decimal(findings.len()) + " validation error(s) found: "@ + findings[0].message@,
        Some((pointer, "All diagnostics addressed"@, "Fix errors in fix_order sequence; warnings are advisory"@)),
    )
}

/// The verdict of the pipeline, `None` when every layer passes. Layers run
/// in order schema, invariants, manifest, envelope; a schema failure stops
/// at once, a manifest violation and a malformed envelope stop before the
/// invariant failures are reported.
pub open spec fn pipeline_verdict(
    schema: Result<(), Seq<FindingView>>,
    invariants: Seq<InvariantFinding>,
    manifest_fatal: bool,
    envelope_failed: bool,
) -> Option<VerdictView> {
    match schema {
        Err(fs) => Some(schema_verdict(fs)),
        Ok(()) => if manifest_fatal {
            Some(manifest_verdict())
        } else if envelope_failed {
            Some(envelope_verdict())
        } else if invariants.len() > 0 {
            Some(invariant_verdict(invariants))
        } else {
            None
        },
    }
}

/// A response is accepted exactly when every layer passes, and a schema
/// failure is the verdict whatever the later layers find.
pub proof fn lemma_pipeline_accepts_only_clean_layers(
    schema: Result<(), Seq<FindingView>>,
    invariants: Seq<InvariantFinding>,
    manifest_fatal: bool,
    envelope_failed: bool,
)
    ensures
        pipeline_verdict(schema, invariants, manifest_fatal, envelope_failed) is None
            <==> (schema is Ok && invariants.len() == 0 && !manifest_fatal && !envelope_failed),
        schema matches Err(fs) ==> pipeline_verdict(schema, invariants, manifest_fatal, envelope_failed) == Some(schema_verdict(fs)),
{
}

/// The version of this validator.
pub open spec fn validator_version_text() -> Seq<char> {
    "0.1.0"@
}

/// The version of this validator.
pub fn validator_version() -> (r: &'static str)
    ensures
        r@ == validator_version_text(),
{
    "0.1.0"
}

/// The SHA-256 of the UTF-8 encoding of `text`, in lowercase hex.
pub open spec fn content_hash_of(text: Seq<char>) -> Seq<char> {
    hex_lower(sha256_digest(vstd::utf8::encode_utf8(text)))
}

/// The lowercase hex SHA-256 of the artifact's JSON text.
pub fn compute_content_hash(content: &str) -> (r: String)
    ensures
        r@ == content_hash_of(content@),
{
    let digest = sha256(content.as_bytes());
    hex_encode(digest.as_slice())
}

/// The names of the four layers, in pipeline order.
pub open spec fn layer_names() -> Seq<Seq<char>> {
    seq!["Schema"@, "Invariants"@, "Manifest"@, "Envelope"@]
}

fn trace_step(name: &str) -> (r: ValidationStep)
    ensures
        r.layer@ == name@,
        r.passed,
        r.error is None,
{
    ValidationStep { layer: String::from_str(name), passed: true, error: None }
}

fn verdict(code: &str, pointer: String, message: String, r_pointer: String, expected: &str, suggestion: &str) -> (r: ValidationError)
    ensures
        r@ == (code@, pointer@, message@, Some((r_pointer@, expected@, suggestion@))),
{
    ValidationError {
        code: String::from_str(code),
        json_pointer: pointer,
        message,
        remediation: Some(Remediation {
            json_pointer: r_pointer,
            expected: String::from_str(expected),
            suggestion: String::from_str(suggestion),
        }),
    }
}

fn coded_verdict(code: String, pointer: String, message: String, r_pointer: String, expected: &str, suggestion: &str) -> (r: ValidationError)
    ensures
        r@ == (code@, pointer@, message@, Some((r_pointer@, expected@, suggestion@))),
{
    ValidationError {
        code,
        json_pointer: pointer,
        message,
        remediation: Some(Remediation {
            json_pointer: r_pointer,
            expected: String::from_str(expected),
            suggestion: String::from_str(suggestion),
        }),
    }
}

/// The codes of the findings, separated by commas.
fn codes_of(findings: &Vec<InvariantFinding>) -> (r: String)
    ensures
        r@ == joined_codes(findings@),
{
    let mut out = String::new();
    let mut i: usize = 0;
    while i < findings.len()
        invariant
            i <= findings.len(),
            out@ == joined_codes(findings@.take(i as int)),
        decreases findings.len() - i,
    {
        proof {
            assert(findings@.take(i + 1).drop_last() =~= findings@.take(i as int));
            assert(findings@.take(i + 1).last() == findings@[i as int]);
            if i == 0 {
                assert(findings@.take(1)[0] == findings@[0]);
            }
        }
        if i > 0 {
            out.append(",");
        }
        out.append(findings[i].code.as_str());
        i = i + 1;
    }
    proof {
        assert(findings@.take(findings.len() as int) =~= findings@);
    }
    out
}

/// Validate an AI-generated response through the four layers.
///
/// The schema layer checks the artifact against `schema_json`, the text of
/// the schema that the envelope references (`None` when the constellation
/// defines none), with the `jsonschema` engine. The failed invariant and
/// metric checks (`invariant_findings`), the RWF comparison against the
/// target repo's minimum (`rwf_shortfall`) and the RWF range check of the
/// envelope (`meta_error`) are computed by the caller; the manifest and
/// envelope layers run here. On success the artifact is returned as a validated file
/// with its content hash and a passing trace of the four layers.
pub fn validate_response(
    director: &ChatDirector,
    req: &AiAuthoringRequest,
    resp: &AiAuthoringResponse,
    schema_json: Option<&str>,
    invariant_findings: Vec<InvariantFinding>,
    rwf_shortfall: Option<RwfShortfall>,
    meta_error: Option<EnvelopeError>,
) -> (r: Result<ValidatedFile, ValidationError>)
    ensures
        ({
            let schema_view = schema_layer_outcome(resp.envelope.schema_ref@, opt_text(schema_json), resp.artifact@);
            let manifest_fatal = manifest_findings(director.spec_manifests(), *req, *resp, rwf_shortfall).1;
            let envelope_failed = envelope_errors(resp.envelope, director.spec_config().spec_envelope_versions(), opt_error_view(meta_error)).len() > 0;
            match pipeline_verdict(schema_view, invariant_findings@, manifest_fatal, envelope_failed) {
                Some(v) => r matches Err(e) && e@ == v,
                None => r matches Ok(f) && {
                    &&& f.target_repo@ == resp.target_repo@
                    &&& f.target_path@ == resp.target_path@
                    &&& f.content@ == resp.artifact@
                    &&& f.content_hash@ == content_hash_of(resp.artifact@)
                    &&& f.soft_diagnostics@.len() == 0
                    &&& f.provenance.validator_version@ == validator_version_text()
                    &&& f.provenance.request_id is None
                    &&& f.provenance.validated_at@.len() > 0
                    &&& rfc3339_error(f.provenance.validated_at@) is None
                    &&& f.provenance.validation_trace@.len() == 4
                    &&& forall|i: int| 0 <= i < 4 ==> (#[trigger] f.provenance.validation_trace@[i]).layer@ == layer_names()[i]
                        && f.provenance.validation_trace@[i].passed && f.provenance.validation_trace@[i].error is None
                },
            }
        }),
{
    let schema = schema_findings(resp.envelope.schema_ref.as_str(), schema_json, resp.artifact.as_str());
    if let Err(findings) = schema {
        let pointer = if findings.len() > 0 {
            findings[0].json_pointer.clone()
        } else {
            String::new()
        };
        return Err(verdict(
            "SCHEMA_VALIDATION_FAILED",
            String::from_str("/"),
            String::from_str("Schema validation failed; fix structural issues first"),
            pointer,
            "Valid JSON matching the referenced schema",
            "Check schemaref and ensure all required fields are present",
        ));
    }
    let ctx = ManifestContext { manifests_by_repo: director.repo_manifests() };
    let manifest_result = validate_manifests(&ctx, req, resp, rwf_shortfall);
    if manifest_result.is_fatal {
        return Err(verdict(
            "MANIFEST_POLICY_VIOLATION",
            String::from_str("/targetRepo"),
            String::from_str("Manifest policy check failed"),
            String::from_str("/targetRepo"),
            "A repo with compatible tier and policy",
            "Review authoringHints in the target repo's manifest",
        ));
    }
    if let Err(_) = validate_envelope(&resp.envelope, director.config(), meta_error) {
        return Err(verdict(
            "ENVELOPE_VALIDATION_FAILED",
            String::from_str("/envelope"),
            String::from_str("Envelope structural validation failed"),
            String::from_str("/envelope"),
            "A well-formed prism-envelope-v1 structure",
            "Use wrap_in_prism_envelope helper to ensure correct structure",
        ));
    }
    if invariant_findings.len() > 0 {
        let pointer = invariant_findings[0].json_pointer.clone();
        let mut message = decimal_string(invariant_findings.len() as u64);
        message.append(" validation error(s) found: ");
        message.append(invariant_findings[0].message.as_str());
        let codes = codes_of(&invariant_findings);
        return Err(coded_verdict(
            codes,
            pointer.clone(),
            message,
            pointer,
            "All diagnostics addressed",
            "Fix errors in fix_order sequence; warnings are advisory",
        ));
    }
    let content_hash = compute_content_hash(resp.artifact.as_str());
    let trace = vec![trace_step("Schema"), trace_step("Invariants"), trace_step("Manifest"), trace_step("Envelope")];
    Ok(ValidatedFile {
        target_repo: resp.target_repo.clone(),
        target_path: resp.target_path.clone(),
        content: resp.artifact.clone(),
        content_hash,
        soft_diagnostics: Vec::new(),
        provenance: ValidatedProvenance {
            validated_at: crate::director::validate::envelopes::now_rfc3339(),
            validator_version: String::from_str(validator_version()),
            request_id: None,
            validation_trace: trace,
        },
    })
}

/// Early warning for request pre-validation.
#[derive(Debug, Clone)]
pub struct EarlyWarning {
    pub code: String,
    pub message: String,
    pub remediation: String,
    pub fix_order: u32,
}

/// Abstract value of an early warning.
pub type EarlyWarningView = (Seq<char>, Seq<char>, Seq<char>, u32);

impl View for EarlyWarning {
    type V = EarlyWarningView;

    open spec fn view(&self) -> EarlyWarningView {
        (self.code@, self.message@, self.remediation@, self.fix_order)
    }
}

/// The views of a list of early warnings.
pub open spec fn warning_views(s: Seq<EarlyWarning>) -> Seq<EarlyWarningView> {
    s.map_values(|w: EarlyWarning| w@)
}

/// Warnings for referenced ids that cannot be resolved.
pub open spec fn unresolvable_warnings(ids: Seq<String>) -> Seq<EarlyWarningView>
    decreases ids.len(),
{
    if ids.len() == 0 {
        seq![]
    } else {
        let rest = unresolvable_warnings(ids.drop_last());
        let id = ids.last()@;
        if has_prefix(id, "REF-unknown"@) {
            rest.push((
                "UNRESOLVABLE_REFERENCE"@,
                "Referenced ID '"@ + id + "' cannot be resolved"@,
                "Ensure referenced IDs exist in the registry"@,
                2u32,
            ))
        } else {
            rest
        }
    }
}

/// All early warnings of a request: a phase that does not permit its
/// contract family, an object kind the spine does not know, and referenced
/// ids that cannot be resolved.
pub open spec fn early_warnings(families: Seq<crate::director::model::spine_types::ContractFamily>, req: AiAuthoringRequest) -> Seq<EarlyWarningView> {
    let phase = match family_for_kind(req.object_kind@) {
        Some(f) => {
            let p = permission_of(req.phase, f);
            if p == PhasePermission::Allowed || p == PhasePermission::RegistryOnly {
                seq![]
            } else {
                seq![(
                    "PHASE_VIOLATION"@,
                    "Phase "@ + phase_debug(req.phase) + " does not permit "@ + req.object_kind@,
                    "Adjust phase or objectKind to match phase permission matrix"@,
                    1u32,
                )]
            }
        },
        None => seq![],
    };
    let unknown = if !kind_known(families, req.object_kind@) {
        seq![(
            "UNKNOWN_OBJECT_KIND"@,
            "Object kind '"@ + req.object_kind@ + "' not found in schema spine"@,
            "Use an objectKind defined in the schema spine"@,
            1u32,
        )]
    } else {
        seq![]
    };
    phase + unknown + unresolvable_warnings(req.referenced_ids@)
}

proof fn lemma_warning_push(s: Seq<EarlyWarning>, w: EarlyWarning)
    ensures
        warning_views(s.push(w)) == warning_views(s).push(w@),
{
    assert(warning_views(s.push(w)) =~= warning_views(s).push(w@));
}

/// Pre-validate a request before generation, catching phase violations,
/// unknown object kinds and unresolvable references early.
pub fn validate_request_early(director: &ChatDirector, req: &AiAuthoringRequest) -> (r: Vec<EarlyWarning>)
    ensures
        warning_views(r@) == early_warnings(director.spec_spine().contract_families@, *req),
{
    let mut warnings: Vec<EarlyWarning> = Vec::new();
    if let Some(family) = ContractFamily::from_object_kind(req.object_kind.as_str()) {
        if let Err(_) = check_phase_permission(req, family) {
            let mut message = String::from_str("Phase ");
            message.append(req.phase.name());
            message.append(" does not permit ");
            message.append(req.object_kind.as_str());
            let w = EarlyWarning {
                code: String::from_str("PHASE_VIOLATION"),
                message,
                remediation: String::from_str("Adjust phase or objectKind to match phase permission matrix"),
                fix_order: 1,
            };
            proof { lemma_warning_push(warnings@, w); }
            warnings.push(w);
        }
    }
    if director.spine_schema().describe_object_kind(req.object_kind.as_str()).is_none() {
        let mut message = String::from_str("Object kind '");
        message.append(req.object_kind.as_str());
        message.append("' not found in schema spine");
        let w = EarlyWarning {
            code: String::from_str("UNKNOWN_OBJECT_KIND"),
            message,
            remediation: String::from_str("Use an objectKind defined in the schema spine"),
            fix_order: 1,
        };
        proof { lemma_warning_push(warnings@, w); }
        warnings.push(w);
    }
    let ghost head = warning_views(warnings@);
    let ids = &req.referenced_ids;
    let mut j: usize = 0;
    while j < ids.len()
        invariant
            j <= ids.len(),
            ids@ == req.referenced_ids@,
            warning_views(warnings@) == head + unresolvable_warnings(ids@.take(j as int)),
        decreases ids.len() - j,
    {
        proof {
            assert(ids@.take(j + 1).drop_last() =~= ids@.take(j as int));
        }
        let id = &ids[j];
        if str_starts_with(id.as_str(), "REF-unknown") {
            let mut message = String::from_str("Referenced ID '");
            message.append(id.as_str());
            message.append("' cannot be resolved");
            let w = EarlyWarning {
                code: String::from_str("UNRESOLVABLE_REFERENCE"),
                message,
                remediation: String::from_str("Ensure referenced IDs exist in the registry"),
                fix_order: 2,
            };
            proof { lemma_warning_push(warnings@, w); }
            warnings.push(w);
        }
        j = j + 1;
    }
    proof {
        assert(ids@.take(ids.len() as int) =~= ids@);
        assert(warning_views(warnings@) =~= early_warnings(director.spec_spine().contract_families@, *req));
    }
    warnings
}

} // verus!
