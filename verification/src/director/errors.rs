//! Error and diagnostic types, the deterministic exit-code mapping, and the
//! CLI error envelope.
use vstd::prelude::*;

pub use crate::director::phases::{PhaseDiagnostic, PhaseError, PhasePermission, PhaseUpgradeSuggestion, PromotionFailure};

verus! {

/// Top-level error of director operations.
#[derive(Debug)]
pub enum Error {
    Config { message: String, path: String },
    Io { message: String, path: String },
    Parse { message: String, path: String },
    SpineLoad { message: String, path: String },
    SpineParse { message: String, path: String },
    ManifestLoad { message: String, path: String },
    ManifestParse { message: String, path: String },
    Phase(PhaseError),
    Validation { code: String, inner: ValidationError },
    Cli { exit_code: u8, message: String },
    Internal { message: String },
    /// A JSON serialization failure, with its message.
    Json { message: String },
}

/// The CLI exit code of an error.
pub open spec fn error_exit_code(e: Error) -> u8 {
    match e {
        Error::Config { .. } | Error::Io { .. } | Error::Parse { .. } | Error::SpineLoad { .. }
        | Error::SpineParse { .. } | Error::ManifestLoad { .. } | Error::ManifestParse { .. } => 2,
        Error::Phase(_) => 3,
        Error::Validation { .. } => 1,
        Error::Cli { exit_code, .. } => exit_code,
        Error::Internal { .. } => 10,
        Error::Json { .. } => 2,
    }
}

impl Error {
    /// The CLI exit code: 2 for configuration, I/O, parse, spine, manifest
    /// and JSON errors, 3 for phase violations, 1 for validation failures,
    /// the carried code for CLI errors and 10 for internal errors.
    pub fn exit_code(&self) -> (r: u8)
        ensures
            r == error_exit_code(*self),
    {
        match self {
            Error::Config { .. } => 2,
            Error::Io { .. } => 2,
            Error::Parse { .. } => 2,
            Error::SpineLoad { .. } | Error::SpineParse { .. } => 2,
            Error::ManifestLoad { .. } | Error::ManifestParse { .. } => 2,
            Error::Phase(_) => 3,
            Error::Validation { .. } => 1,
            Error::Cli { exit_code, .. } => *exit_code,
            Error::Internal { .. } => 10,
            Error::Json { .. } => 2,
        }
    }
}

/// The machine-readable code of an error.
pub open spec fn error_code(e: Error) -> Seq<char> {
    match e {
        Error::Config { .. } => "CONFIG_ERROR"@,
        Error::Io { .. } => "IO_ERROR"@,
        Error::Parse { .. } => "PARSE_ERROR"@,
        Error::SpineLoad { .. } => "SPINE_LOAD_ERROR"@,
        Error::SpineParse { .. } => "SPINE_PARSE_ERROR"@,
        Error::ManifestLoad { .. } => "MANIFEST_LOAD_ERROR"@,
        Error::ManifestParse { .. } => "MANIFEST_PARSE_ERROR"@,
        Error::Phase(PhaseError::PhaseForbidden { .. }) => "PHASE_FORBIDDEN"@,
        Error::Phase(PhaseError::PromotionBlocked { .. }) => "PROMOTION_BLOCKED"@,
        Error::Validation { code, .. } => code@,
        Error::Cli { .. } => "CLI_ERROR"@,
        Error::Internal { .. } => "INTERNAL_ERROR"@,
        Error::Json { .. } => "JSON_ERROR"@,
    }
}

/// The layer an error is reported under.
pub open spec fn error_layer(e: Error) -> Seq<char> {
    match e {
        Error::Phase(_) => "phase"@,
        Error::Validation { .. } => "validation"@,
        _ => "config"@,
    }
}

/// Map an error to its machine-readable code.
pub fn error_code_for(err: &Error) -> (r: String)
    ensures
        r@ == error_code(*err),
{
    match err {
        Error::Config { .. } => String::from_str("CONFIG_ERROR"),
        Error::Io { .. } => String::from_str("IO_ERROR"),
        Error::Parse { .. } => String::from_str("PARSE_ERROR"),
        Error::SpineLoad { .. } => String::from_str("SPINE_LOAD_ERROR"),
        Error::SpineParse { .. } => String::from_str("SPINE_PARSE_ERROR"),
        Error::ManifestLoad { .. } => String::from_str("MANIFEST_LOAD_ERROR"),
        Error::ManifestParse { .. } => String::from_str("MANIFEST_PARSE_ERROR"),
        Error::Phase(pe) => match pe {
            PhaseError::PhaseForbidden { .. } => String::from_str("PHASE_FORBIDDEN"),
            PhaseError::PromotionBlocked { .. } => String::from_str("PROMOTION_BLOCKED"),
        },
        Error::Validation { code, .. } => code.clone(),
        Error::Cli { .. } => String::from_str("CLI_ERROR"),
        Error::Internal { .. } => String::from_str("INTERNAL_ERROR"),
        Error::Json { .. } => String::from_str("JSON_ERROR"),
    }
}

/// Map an error to the layer it is reported under: phase errors under
/// `phase`, validation errors under `validation`, all others under `config`.
pub fn error_layer_for(err: &Error) -> (r: String)
    ensures
        r@ == error_layer(*err),
{
    match err {
        Error::Phase(_) => String::from_str("phase"),
        Error::Validation { .. } => String::from_str("validation"),
        _ => String::from_str("config"),
    }
}

/// Validation layer of a diagnostic.
#[derive(Debug, Clone, Copy, PartialEq, Eq, Structural)]
pub enum ValidationLayer {
    Schema,
    Phase,
    Invariant,
    Manifest,
    Envelope,
}

/// Severity of a diagnostic.
#[derive(Debug, Clone, Copy, PartialEq, Eq, Structural)]
pub enum Severity {
    Error,
    Warning,
    Info,
}

/// Cross-metric interaction explanation.
#[derive(Debug, Clone)]
pub struct InteractionEffect {
    pub interaction_id: String,
    pub description: String,
}

/// The unified diagnostic of schema, invariant, manifest, envelope and phase checks.
#[derive(Debug)]
pub struct ValidationError {
    pub code: String,
    pub layer: ValidationLayer,
    pub severity: Severity,
    pub json_pointer: String,
    /// The submitted value, as JSON text.
    pub submitted_value: Option<String>,
    pub expected: String,
    pub remediation: String,
    pub fix_order: u32,
    pub interaction_effects: Vec<InteractionEffect>,
}

/// Per-diagnostic payload for CLI consumers.
#[derive(Debug)]
pub struct CliDiagnostic {
    pub code: String,
    pub layer: ValidationLayer,
    pub severity: Severity,
    pub json_pointer: String,
    pub submitted_value: Option<String>,
    pub expected: String,
    pub remediation: String,
    pub fix_order: u32,
    pub interaction_effects: Vec<InteractionEffect>,
}

/// Metadata of a CLI error envelope.
#[derive(Debug)]
pub struct CliErrorMetadata {
    pub spine_version: Option<String>,
    pub object_kind: Option<String>,
    pub tier: Option<String>,
    pub phase: Option<i32>,
    pub timestamp_utc: String,
}

/// CLI-facing error envelope.
#[derive(Debug)]
pub struct CliErrorSchema {
    pub schema_version: String,
    pub exit_code: i32,
    pub error_count: usize,
    pub warning_count: usize,
    pub diagnostics: Vec<CliDiagnostic>,
    pub metadata: CliErrorMetadata,
}

/// Position of a layer, from most fundamental (schema) to least (envelope).
pub open spec fn layer_index(l: ValidationLayer) -> nat {
    match l {
        ValidationLayer::Schema => 0,
        ValidationLayer::Phase => 1,
        ValidationLayer::Invariant => 2,
        ValidationLayer::Manifest => 3,
        ValidationLayer::Envelope => 4,
    }
}

/// Of two layers, the more fundamental one (the first on a tie).
pub open spec fn more_fundamental(a: ValidationLayer, b: ValidationLayer) -> ValidationLayer {
    if layer_index(a) <= layer_index(b) {
        a
    } else {
        b
    }
}

/// Of two layers, the more fundamental one.
pub fn rank_layer(a: ValidationLayer, b: ValidationLayer) -> (r: ValidationLayer)
    ensures
        r == more_fundamental(a, b),
{
    let ia: u8 = match a {
        ValidationLayer::Schema => 0,
        ValidationLayer::Phase => 1,
        ValidationLayer::Invariant => 2,
        ValidationLayer::Manifest => 3,
        ValidationLayer::Envelope => 4,
    };
    let ib: u8 = match b {
        ValidationLayer::Schema => 0,
        ValidationLayer::Phase => 1,
        ValidationLayer::Invariant => 2,
        ValidationLayer::Manifest => 3,
        ValidationLayer::Envelope => 4,
    };
    if ia <= ib {
        a
    } else {
        b
    }
}

/// Ranking layers is commutative and associative, so the worst layer of a
/// diagnostic list does not depend on the order of the diagnostics.
pub proof fn lemma_rank_layer_order_free(a: ValidationLayer, b: ValidationLayer, c: ValidationLayer)
    ensures
        more_fundamental(a, b) == more_fundamental(b, a),
        more_fundamental(more_fundamental(a, b), c) == more_fundamental(a, more_fundamental(b, c)),
{
}

/// Some error-severity diagnostic of `diags` is in `layer`.
pub open spec fn error_in(diags: Seq<ValidationError>, layer: ValidationLayer) -> bool {
    exists|i: int| 0 <= i < diags.len() && (#[trigger] diags[i]).severity == Severity::Error && diags[i].layer == layer
}

/// Some diagnostic of `diags` is an error.
pub open spec fn any_error(diags: Seq<ValidationError>) -> bool {
    exists|i: int| 0 <= i < diags.len() && (#[trigger] diags[i]).severity == Severity::Error
}

/// The exit code of a diagnostic list: 0 without errors, otherwise the code of
/// the most fundamental layer that has an error (schema or invariant 1,
/// phase 3, manifest 4, envelope 5).
pub open spec fn exit_code_for(diags: Seq<ValidationError>) -> i32 {
    if !any_error(diags) {
        0
    } else if error_in(diags, ValidationLayer::Schema) {
        1
    } else if error_in(diags, ValidationLayer::Phase) {
        3
    } else if error_in(diags, ValidationLayer::Invariant) {
        1
    } else if error_in(diags, ValidationLayer::Manifest) {
        4
    } else {
        5
    }
}

/// Deterministic mapping from a diagnostic list to an exit code.
pub fn exit_code_for_diagnostics(diags: &[ValidationError]) -> (r: i32)
    ensures
        r == exit_code_for(diags@),
{
    let mut worst: Option<ValidationLayer> = None;
    let mut i: usize = 0;
    while i < diags.len()
        invariant
            i <= diags@.len(),
            match worst {
                None => forall|k: int| 0 <= k < i ==> (#[trigger] diags@[k]).severity != Severity::Error,
                Some(w) => (exists|k: int| 0 <= k < i && (#[trigger] diags@[k]).severity == Severity::Error
                    && diags@[k].layer == w) && (forall|k: int| 0 <= k < i && (#[trigger] diags@[k]).severity
                    == Severity::Error ==> layer_index(w) <= layer_index(diags@[k].layer)),
            },
        decreases diags@.len() - i,
    {
        if diags[i].severity == Severity::Error {
            let l = diags[i].layer;
            worst = Some(match worst {
                None => l,
                Some(current) => rank_layer(current, l),
            });
        }
        i = i + 1;
    }
    match worst {
        None => 0,
        Some(w) => {
            proof {
                let k = choose|k: int| 0 <= k < diags@.len() && (#[trigger] diags@[k]).severity == Severity::Error
                    && diags@[k].layer == w;
                assert(any_error(diags@));
                assert(error_in(diags@, w));
            }
            match w {
                ValidationLayer::Schema | ValidationLayer::Invariant => 1,
                ValidationLayer::Phase => 3,
                ValidationLayer::Manifest => 4,
                ValidationLayer::Envelope => 5,
            }
        },
    }
}

/// Number of diagnostics of severity `s`.
pub open spec fn count_severity(diags: Seq<ValidationError>, s: Severity) -> nat
    decreases diags.len(),
{
    if diags.len() == 0 {
        0
    } else {
        count_severity(diags.drop_last(), s) + if diags.last().severity == s { 1nat } else { 0nat }
    }
}

/// The CLI diagnostic carries exactly the fields of the validation error.
pub open spec fn same_diagnostic(c: CliDiagnostic, d: ValidationError) -> bool {
    &&& c.code == d.code
    &&& c.layer == d.layer
    &&& c.severity == d.severity
    &&& c.json_pointer == d.json_pointer
    &&& c.submitted_value == d.submitted_value
    &&& c.expected == d.expected
    &&& c.remediation == d.remediation
    &&& c.fix_order == d.fix_order
    &&& c.interaction_effects == d.interaction_effects
}

/// Convert a diagnostic list into a CLI error envelope (`cli-error-v1`).
pub fn to_cli_error_schema(
    diags: Vec<ValidationError>,
    spine_version: Option<String>,
    object_kind: Option<String>,
    tier: Option<String>,
    phase: Option<i32>,
    timestamp_utc: String,
) -> (r: CliErrorSchema)
    ensures
        r.schema_version@ == "cli-error-v1"@,
        r.exit_code == exit_code_for(diags@),
        r.error_count == count_severity(diags@, Severity::Error),
        r.warning_count == count_severity(diags@, Severity::Warning),
        r.diagnostics@.len() == diags@.len(),
        forall|i: int| 0 <= i < diags@.len() ==> same_diagnostic(#[trigger] r.diagnostics@[i], diags@[i]),
        r.metadata.spine_version == spine_version,
        r.metadata.object_kind == object_kind,
        r.metadata.tier == tier,
        r.metadata.phase == phase,
        r.metadata.timestamp_utc == timestamp_utc,
{
    let exit_code = exit_code_for_diagnostics(diags.as_slice());
    let mut error_count: usize = 0;
    let mut warning_count: usize = 0;
    let mut i: usize = 0;
    while i < diags.len()
        invariant
            i <= diags.len(),
            error_count == count_severity(diags@.take(i as int), Severity::Error),
            warning_count == count_severity(diags@.take(i as int), Severity::Warning),
            error_count <= i,
            warning_count <= i,
        decreases diags.len() - i,
    {
        proof {
            assert(diags@.take(i + 1).drop_last() =~= diags@.take(i as int));
        }
        if diags[i].severity == Severity::Error {
            error_count = error_count + 1;
        } else if diags[i].severity == Severity::Warning {
            warning_count = warning_count + 1;
        }
        i = i + 1;
    }
    proof {
        assert(diags@.take(diags.len() as int) =~= diags@);
    }
    let ghost original = diags@;
    let mut rest = diags;
    let mut out: Vec<CliDiagnostic> = Vec::new();
    while rest.len() > 0
        invariant
            out@.len() + rest@.len() == original.len(),
            rest@ == original.skip(out@.len() as int),
            forall|k: int| 0 <= k < out@.len() ==> same_diagnostic(#[trigger] out@[k], original[k]),
        decreases rest@.len(),
    {
        let d = rest.remove(0);
        proof {
            assert(original.skip(out@.len() as int + 1) =~= original.skip(out@.len() as int).drop_first());
        }
        out.push(CliDiagnostic {
            code: d.code,
            layer: d.layer,
            severity: d.severity,
            json_pointer: d.json_pointer,
            submitted_value: d.submitted_value,
            expected: d.expected,
            remediation: d.remediation,
            fix_order: d.fix_order,
            interaction_effects: d.interaction_effects,
        });
    }
    CliErrorSchema {
        schema_version: String::from_str("cli-error-v1"),
        exit_code,
        error_count,
        warning_count,
        diagnostics: out,
        metadata: CliErrorMetadata { spine_version, object_kind, tier, phase, timestamp_utc },
    }
}

impl From<ValidationError> for Error {
    fn from(inner: ValidationError) -> (r: Self) {
        let code = inner.code.clone();
        Error::Validation { code, inner }
    }
}

impl vstd::std_specs::convert::FromSpecImpl<ValidationError> for Error {
    open spec fn obeys_from_spec() -> bool {
        true
    }

    open spec fn from_spec(inner: ValidationError) -> Error {
        Error::Validation { code: inner.code, inner }
    }
}


/// The exit code of a failing layer: schema and invariant 1, phase 3,
/// manifest 4, envelope 5.
pub open spec fn layer_exit_code(l: ValidationLayer) -> i32 {
    match l {
        ValidationLayer::Schema => 1,
        ValidationLayer::Phase => 3,
        ValidationLayer::Invariant => 1,
        ValidationLayer::Manifest => 4,
        ValidationLayer::Envelope => 5,
    }
}

/// Exit code by most fundamental layer: without errors the exit code is 0;
/// otherwise it is the code of the most fundamental layer that has an error
/// (lowest in the order schema, phase, invariant, manifest, envelope).
pub proof fn lemma_exit_code_by_layer(diags: Seq<ValidationError>)
    ensures
        !any_error(diags) ==> exit_code_for(diags) == 0,
        any_error(diags) ==> exists|i: int| 0 <= i < diags.len() && (#[trigger] diags[i]).severity == Severity::Error
            && exit_code_for(diags) == layer_exit_code(diags[i].layer)
            && forall|j: int| 0 <= j < diags.len() && (#[trigger] diags[j]).severity == Severity::Error
                ==> layer_index(diags[i].layer) <= layer_index(diags[j].layer),
{
    if any_error(diags) {
        let layers = seq![ValidationLayer::Schema, ValidationLayer::Phase, ValidationLayer::Invariant, ValidationLayer::Manifest, ValidationLayer::Envelope];
        let w = if error_in(diags, ValidationLayer::Schema) {
            ValidationLayer::Schema
        } else if error_in(diags, ValidationLayer::Phase) {
            ValidationLayer::Phase
        } else if error_in(diags, ValidationLayer::Invariant) {
            ValidationLayer::Invariant
        } else if error_in(diags, ValidationLayer::Manifest) {
            ValidationLayer::Manifest
        } else {
            ValidationLayer::Envelope
        };
        if w == ValidationLayer::Envelope {
            let i = choose|i: int| 0 <= i < diags.len() && (#[trigger] diags[i]).severity == Severity::Error;
            assert(diags[i].layer == ValidationLayer::Envelope) by {
                if diags[i].layer != ValidationLayer::Envelope {
                    assert(error_in(diags, diags[i].layer));
                }
            }
        }
        let i = choose|i: int| 0 <= i < diags.len() && (#[trigger] diags[i]).severity == Severity::Error && diags[i].layer == w;
        assert forall|j: int| 0 <= j < diags.len() && (#[trigger] diags[j]).severity == Severity::Error
            implies layer_index(diags[i].layer) <= layer_index(diags[j].layer) by {
            assert(error_in(diags, diags[j].layer));
        }
    }
}


proof fn lemma_count_severity_zero(diags: Seq<ValidationError>, s: Severity)
    ensures
        count_severity(diags, s) == 0 <==> forall|i: int| 0 <= i < diags.len() ==> (#[trigger] diags[i]).severity != s,
    decreases diags.len(),
{
    if diags.len() > 0 {
        let init = diags.drop_last();
        lemma_count_severity_zero(init, s);
        assert(diags[diags.len() - 1] == diags.last());
        assert forall|i: int| 0 <= i < init.len() implies init[i] == diags[i] by {}
    }
}

proof fn lemma_count_severity_total(diags: Seq<ValidationError>)
    ensures
        count_severity(diags, Severity::Error) + count_severity(diags, Severity::Warning) + count_severity(diags, Severity::Info) == diags.len(),
    decreases diags.len(),
{
    if diags.len() > 0 {
        lemma_count_severity_total(diags.drop_last());
    }
}

/// The CLI envelope law: every diagnostic is counted once as an error, a
/// warning or an info, and the exit code is 0 exactly when none is an error.
pub proof fn lemma_cli_envelope_counts(diags: Seq<ValidationError>)
    ensures
        count_severity(diags, Severity::Error) + count_severity(diags, Severity::Warning) + count_severity(diags, Severity::Info) == diags.len(),
        exit_code_for(diags) == 0 <==> count_severity(diags, Severity::Error) == 0,
{
    lemma_count_severity_total(diags);
    lemma_count_severity_zero(diags, Severity::Error);
    if any_error(diags) {
        lemma_exit_code_by_layer(diags);
        let i = choose|i: int| 0 <= i < diags.len() && (#[trigger] diags[i]).severity == Severity::Error;
    }
}

} // verus!
