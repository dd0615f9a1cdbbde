//! The JSON-schema layer: the artifact is checked against the schema that
//! its envelope references with the `jsonschema` engine, and engine errors,
//! unknown schemas and missing required fields become findings.
use vstd::prelude::*;

use crate::director::validate::{finding_view, FindingView, Remediation, SchemaFinding};
use crate::text::{contains_string, views};

verus! {

/// Soft warning of the quick-check mode.
#[derive(Debug, Clone)]
pub struct SoftWarning {
    pub code: String,
    pub message: String,
    pub json_pointer: String,
}

/// Human/AI-readable schema description.
#[derive(Debug, Clone)]
pub struct SchemaDescription {
    pub uri: String,
    pub title: String,
    pub description: String,
    pub required_fields: Vec<String>,
    pub optional_fields: Vec<String>,
    /// Field descriptions, by field name.
    pub field_descriptions: Vec<(String, String)>,
}

/// A remediation as pointer, expectation and suggestion.
pub open spec fn remediation_view(r: Remediation) -> (Seq<char>, Seq<char>, Seq<char>) {
    (r.json_pointer@, r.expected@, r.suggestion@)
}

/// The finding for one error of the schema engine at `instance_path`, whose
/// error kind renders as `kind_debug` (`{:?}`) and `kind_display` (`{}`).
pub fn schema_violation(instance_path: &str, message: &str, kind_debug: &str, kind_display: &str) -> (r: SchemaFinding)
    ensures
        r.code@ == "SCHEMA_VALIDATION_ERROR"@,
        r.json_pointer@ == instance_path@,
        r.message@ == message@,
        r.expected is None,
        r.submitted is None,
        r.remediation matches Some(rem) && remediation_view(rem)
            == (instance_path@, kind_debug@, "Ensure field matches schema constraint: "@ + kind_display@),
{
    let mut suggestion = String::from_str("Ensure field matches schema constraint: ");
    suggestion.append(kind_display);
    SchemaFinding {
        code: String::from_str("SCHEMA_VALIDATION_ERROR"),
        message: String::from_str(message),
        json_pointer: String::from_str(instance_path),
        submitted: None,
        expected: None,
        remediation: Some(Remediation {
            json_pointer: String::from_str(instance_path),
            expected: String::from_str(kind_debug),
            suggestion,
        }),
    }
}

/// The finding for a schema URI that the spine does not define.
pub fn schema_not_found(uri: &str) -> (r: SchemaFinding)
    ensures
        r.code@ == "SCHEMA_NOT_FOUND"@,
        r.json_pointer@ == "/$schema"@,
        r.message@ == "Schema '"@ + uri@ + "' not found in spine"@,
        r.expected is None,
        r.submitted is None,
        r.remediation matches Some(rem) && remediation_view(rem)
            == ("/$schema"@, "A schema URI defined in the schema spine"@, "Use schemaref from spine.describe_object_kind()"@),
{
    let mut message = String::from_str("Schema '");
    message.append(uri);
    message.append("' not found in spine");
    SchemaFinding {
        code: String::from_str("SCHEMA_NOT_FOUND"),
        message,
        json_pointer: String::from_str("/$schema"),
        submitted: None,
        expected: None,
        remediation: Some(Remediation {
            json_pointer: String::from_str("/$schema"),
            expected: String::from_str("A schema URI defined in the schema spine"),
            suggestion: String::from_str("Use schemaref from spine.describe_object_kind()"),
        }),
    }
}

/// The finding for a schema that the engine could not compile, with the
/// engine's message.
pub fn schema_compile_failure(detail: &str) -> (r: SchemaFinding)
    ensures
        r.code@ == "SCHEMA_COMPILE_ERROR"@,
        r.json_pointer@ == "/$schema"@,
        r.message@ == "Failed to compile schema: "@ + detail@,
        r.expected is None,
        r.submitted is None,
        r.remediation matches Some(rem) && remediation_view(rem)
            == ("/$schema"@, "A valid JSON Schema"@, "Check schema syntax and references"@),
{
    let mut message = String::from_str("Failed to compile schema: ");
    message.append(detail);
    SchemaFinding {
        code: String::from_str("SCHEMA_COMPILE_ERROR"),
        message,
        json_pointer: String::from_str("/$schema"),
        submitted: None,
        expected: None,
        remediation: Some(Remediation {
            json_pointer: String::from_str("/$schema"),
            expected: String::from_str("A valid JSON Schema"),
            suggestion: String::from_str("Check schema syntax and references"),
        }),
    }
}

/// A soft warning as code, message and pointer.
pub open spec fn warning_view(w: SoftWarning) -> (Seq<char>, Seq<char>, Seq<char>) {
    (w.code@, w.message@, w.json_pointer@)
}

/// The warnings for the required fields that are not present, in the
/// order of the required fields.
pub open spec fn missing_field_warnings(required: Seq<Seq<char>>, present: Seq<Seq<char>>) -> Seq<(Seq<char>, Seq<char>, Seq<char>)>
    decreases required.len(),
{
    if required.len() == 0 {
        Seq::empty()
    } else {
        let f = required.last();
        missing_field_warnings(required.drop_last(), present) + if present.contains(f) {
            Seq::empty()
        } else {
            seq![("MISSING_REQUIRED_FIELD"@, "Required field '"@ + f + "' missing"@, "/"@ + f)]
        }
    }
}

/// Quick check of a payload whose top-level fields are `present`: a warning
/// for each required field that is missing; `Ok` when none is.
pub fn quick_check(required_fields: &Vec<String>, present: &Vec<String>) -> (r: Result<(), Vec<SoftWarning>>)
    ensures
        ({
            let expected = missing_field_warnings(views(required_fields@), views(present@));
            match r {
                Ok(()) => expected.len() == 0,
                Err(ws) => expected.len() > 0 && ws@.map_values(|w: SoftWarning| warning_view(w)) == expected,
            }
        }),
{
    let ghost rv = views(required_fields@);
    let ghost pv = views(present@);
    let mut warnings: Vec<SoftWarning> = Vec::new();
    let mut i: usize = 0;
    assert(rv.take(0) =~= Seq::<Seq<char>>::empty());
    while i < required_fields.len()
        invariant
            i <= required_fields@.len(),
            rv == views(required_fields@),
            pv == views(present@),
            warnings@.map_values(|w: SoftWarning| warning_view(w)) == missing_field_warnings(rv.take(i as int), pv),
        decreases required_fields@.len() - i,
    {
        let f = &required_fields[i];
        let ghost before = warnings@.map_values(|w: SoftWarning| warning_view(w));
        if !contains_string(present, f.as_str()) {
            let mut message = String::from_str("Required field '");
            message.append(f.as_str());
            message.append("' missing");
            let mut pointer = String::from_str("/");
            pointer.append(f.as_str());
            warnings.push(SoftWarning { code: String::from_str("MISSING_REQUIRED_FIELD"), message, json_pointer: pointer });
            assert(warnings@.map_values(|w: SoftWarning| warning_view(w)) =~= before.push(
                ("MISSING_REQUIRED_FIELD"@, "Required field '"@ + f@ + "' missing"@, "/"@ + f@)));
        }
        proof {
            let ri = rv.take(i + 1);
            assert(ri.drop_last() =~= rv.take(i as int));
            assert(ri.last() == f@);
            assert(warnings@.map_values(|w: SoftWarning| warning_view(w)) =~= missing_field_warnings(ri, pv));
        }
        i = i + 1;
    }
    assert(rv.take(required_fields@.len() as int) =~= rv);
    if warnings.len() == 0 {
        Ok(())
    } else {
        Err(warnings)
    }
}

/// One error of the schema engine: instance path, message, the error kind
/// rendered with `{:?}`, and the error's own message again (the error kind
/// has no `Display` rendering of its own).
pub type ViolationView = (Seq<char>, Seq<char>, Seq<char>, Seq<char>);

/// What the `jsonschema` engine reports when the JSON text `instance_json`
/// is validated against the JSON text `schema_json`: the errors in the
/// engine's order, or the message of the failure when a text is not JSON or
/// the schema does not compile.
pub uninterp spec fn jsonschema_outcome(schema_json: Seq<char>, instance_json: Seq<char>) -> Result<Seq<ViolationView>, Seq<char>>;

/// The views of the engine's errors.
pub open spec fn violation_views(v: Seq<(String, String, String, String)>) -> Seq<ViolationView> {
    v.map_values(|t: (String, String, String, String)| (t.0@, t.1@, t.2@, t.3@))
}

/// The view of an engine outcome.
pub open spec fn outcome_view(r: Result<Vec<(String, String, String, String)>, String>) -> Result<Seq<ViolationView>, Seq<char>> {
    match r {
        Ok(v) => Ok(violation_views(v@)),
        Err(m) => Err(m@),
    }
}

/// `jsonschema::validator_for` on the parsed schema, then
/// `Validator::iter_errors` on the parsed instance (both parsed with
/// `serde_json::from_str`). The contract names the result
/// `jsonschema_outcome`; the engine is built without its remote and file
/// reference resolvers, so the result depends on the two texts alone.
#[verifier::external_body]
fn jsonschema_errors(schema_json: &str, instance_json: &str) -> (r: Result<Vec<(String, String, String, String)>, String>)
    ensures
        outcome_view(r) == jsonschema_outcome(schema_json@, instance_json@),
{
    let schema: serde_json::Value = serde_json::from_str(schema_json).map_err(|e| e.to_string())?;
    let instance: serde_json::Value = serde_json::from_str(instance_json).map_err(|e| e.to_string())?;
    let validator = jsonschema::validator_for(&schema).map_err(|e| e.to_string())?;
    let errors = validator.iter_errors(&instance);
    Ok(errors.map(|e| (e.instance_path().as_str().to_string(), e.to_string(), format!("{:?}", e.kind()), e.to_string())).collect())
}

/// The finding for one engine error.
pub open spec fn violation_finding(v: ViolationView) -> FindingView {
    ("SCHEMA_VALIDATION_ERROR"@, v.1, v.0, None, None, Some((v.0, v.2, "Ensure field matches schema constraint: "@ + v.3)))
}

/// The finding for a schema URI that the constellation does not define.
pub open spec fn not_found_finding(uri: Seq<char>) -> FindingView {
    ("SCHEMA_NOT_FOUND"@, "Schema '"@ + uri + "' not found in spine"@, "/$schema"@, None, None,
        Some(("/$schema"@, "A schema URI defined in the schema spine"@, "Use schemaref from spine.describe_object_kind()"@)))
}

/// The finding for a schema that the engine could not compile.
pub open spec fn compile_finding(detail: Seq<char>) -> FindingView {
    ("SCHEMA_COMPILE_ERROR"@, "Failed to compile schema: "@ + detail, "/$schema"@, None, None,
        Some(("/$schema"@, "A valid JSON Schema"@, "Check schema syntax and references"@)))
}

/// The outcome of the schema layer for schema URI `uri`, given the engine's
/// outcome (`None` when no schema text was found for the URI): no schema is
/// a not-found finding, an engine failure a compile finding, and each engine
/// error a violation finding; `Ok` when the engine reports no error.
pub open spec fn schema_outcome_of(uri: Seq<char>, outcome: Option<Result<Seq<ViolationView>, Seq<char>>>) -> Result<(), Seq<FindingView>> {
    match outcome {
        None => Err(seq![not_found_finding(uri)]),
        Some(Err(d)) => Err(seq![compile_finding(d)]),
        Some(Ok(vs)) => if vs.len() == 0 {
            Ok(())
        } else {
            Err(vs.map_values(|v: ViolationView| violation_finding(v)))
        },
    }
}

/// The optional text of an optional string slice.
pub open spec fn opt_text(o: Option<&str>) -> Option<Seq<char>> {
    match o {
        Some(s) => Some(s@),
        None => None,
    }
}

/// The outcome of the schema layer for the artifact text `artifact` whose
/// envelope references `uri`, `schema_json` being the text of that schema
/// if one was found.
pub open spec fn schema_layer_outcome(uri: Seq<char>, schema_json: Option<Seq<char>>, artifact: Seq<char>) -> Result<(), Seq<FindingView>> {
    match schema_json {
        None => schema_outcome_of(uri, None),
        Some(t) => schema_outcome_of(uri, Some(jsonschema_outcome(t, artifact))),
    }
}

/// The view of a schema-layer result.
pub open spec fn findings_result_view(r: Result<(), Vec<SchemaFinding>>) -> Result<(), Seq<FindingView>> {
    match r {
        Ok(()) => Ok(()),
        Err(fs) => Err(fs@.map_values(|f: SchemaFinding| finding_view(f))),
    }
}

/// The view of an optional engine outcome.
pub open spec fn opt_outcome_view(o: Option<Result<Vec<(String, String, String, String)>, String>>) -> Option<Result<Seq<ViolationView>, Seq<char>>> {
    match o {
        Some(r) => Some(outcome_view(r)),
        None => None,
    }
}

/// The schema-layer result for `uri` from the engine's outcome (`None` when
/// no schema was found for the URI); see `schema_outcome_of`.
pub fn findings_from_outcome(uri: &str, outcome: Option<Result<Vec<(String, String, String, String)>, String>>) -> (r: Result<(), Vec<SchemaFinding>>)
    ensures
        findings_result_view(r) == schema_outcome_of(uri@, opt_outcome_view(outcome)),
{
    match outcome {
        None => {
            let f = schema_not_found(uri);
            let v = vec![f];
            proof {
                assert(v@.map_values(|f: SchemaFinding| finding_view(f)) =~= seq![not_found_finding(uri@)]);
            }
            Err(v)
        },
        Some(Err(detail)) => {
            let f = schema_compile_failure(detail.as_str());
            let v = vec![f];
            proof {
                assert(v@.map_values(|f: SchemaFinding| finding_view(f)) =~= seq![compile_finding(detail@)]);
            }
            Err(v)
        },
        Some(Ok(errors)) => {
            if errors.len() == 0 {
                return Ok(());
            }
            let ghost vs = violation_views(errors@);
            let mut out: Vec<SchemaFinding> = Vec::new();
            let mut i: usize = 0;
            while i < errors.len()
                invariant
                    i <= errors.len(),
                    vs == violation_views(errors@),
                    out@.map_values(|f: SchemaFinding| finding_view(f)) == vs.take(i as int).map_values(|v: ViolationView| violation_finding(v)),
                decreases errors.len() - i,
            {
                let e = &errors[i];
                let f = schema_violation(e.0.as_str(), e.1.as_str(), e.2.as_str(), e.3.as_str());
                let ghost before = out@;
                out.push(f);
                proof {
                    assert(vs[i as int] == (e.0@, e.1@, e.2@, e.3@));
                    assert(vs.take(i + 1) =~= vs.take(i as int).push(vs[i as int]));
                    assert(out@.map_values(|f: SchemaFinding| finding_view(f)) =~= before.map_values(|f: SchemaFinding| finding_view(f)).push(violation_finding(vs[i as int])));
                    assert(vs.take(i + 1).map_values(|v: ViolationView| violation_finding(v)) =~= vs.take(i as int).map_values(|v: ViolationView| violation_finding(v)).push(violation_finding(vs[i as int])));
                }
                i = i + 1;
            }
            proof {
                assert(vs.take(errors.len() as int) =~= vs);
            }
            Err(out)
        },
    }
}

/// The schema layer: the artifact text is checked with the `jsonschema`
/// engine against `schema_json`, the text of the schema that `uri` names
/// (`None` when the constellation defines no such schema); see
/// `schema_layer_outcome`.
pub fn schema_findings(uri: &str, schema_json: Option<&str>, artifact_json: &str) -> (r: Result<(), Vec<SchemaFinding>>)
    ensures
        findings_result_view(r) == schema_layer_outcome(uri@, opt_text(schema_json), artifact_json@),
{
    let outcome = match schema_json {
        Some(text) => Some(jsonschema_errors(text, artifact_json)),
        None => None,
    };
    findings_from_outcome(uri, outcome)
}

} // verus!
