//! Structural validation of prism envelopes: accepted version, required
//! fields, timestamp format, Dead-Ledger reference, and the shape of the
//! cryptographic placeholders.
use vstd::prelude::*;

use crate::director::config::Config;
use crate::director::model::response_types::{DeadLedgerRef, PrismEnvelope, PrismMeta};
use crate::json::{json_array_text, json_string, json_string_array, json_string_text};
use crate::text::{contains_string, debug_list, debug_string_list, views};

verus! {

/// Result of envelope validation.
#[derive(Debug)]
pub struct EnvelopeValidationResult {
    pub passed: bool,
    pub errors: Vec<EnvelopeError>,
}

/// Structured envelope validation error; values are JSON text.
#[derive(Debug, Clone)]
pub struct EnvelopeError {
    pub code: String,
    pub message: String,
    pub json_pointer: String,
    pub submitted_value: Option<String>,
    pub expected: Option<String>,
    pub remediation: String,
}

/// Abstract value of an envelope error.
pub type EnvelopeErrorView = (Seq<char>, Seq<char>, Seq<char>, Option<Seq<char>>, Option<Seq<char>>, Seq<char>);

/// The character view of an optional string.
pub open spec fn opt_chars(o: Option<String>) -> Option<Seq<char>> {
    match o {
        Some(s) => Some(s@),
        None => None,
    }
}

impl View for EnvelopeError {
    type V = EnvelopeErrorView;

    open spec fn view(&self) -> EnvelopeErrorView {
        (self.code@, self.message@, self.json_pointer@, opt_chars(self.submitted_value), opt_chars(self.expected), self.remediation@)
    }
}

/// The views of a list of envelope errors.
pub open spec fn envelope_error_views(s: Seq<EnvelopeError>) -> Seq<EnvelopeErrorView> {
    s.map_values(|e: EnvelopeError| e@)
}

/// The error message chrono gives when `s` is not an RFC 3339 timestamp,
/// `None` when it is one.
pub uninterp spec fn rfc3339_error(s: Seq<char>) -> Option<Seq<char>>;

/// `chrono::DateTime::parse_from_rfc3339`: `None` when `s` parses, otherwise
/// the parse error's message.
#[verifier::external_body]
fn check_rfc3339(s: &str) -> (r: Option<String>)
    ensures
        opt_chars(r) == rfc3339_error(s@),
{
    match chrono::DateTime::parse_from_rfc3339(s) {
        Ok(_) => None,
        Err(e) => Some(e.to_string()),
    }
}

/// `c` is an ASCII hexadecimal digit.
pub open spec fn is_hex_char(c: char) -> bool {
    ('0' <= c && c <= '9') || ('a' <= c && c <= 'f') || ('A' <= c && c <= 'F')
}

/// Every character of `s` is an ASCII hexadecimal digit.
pub open spec fn all_hex(s: Seq<char>) -> bool {
    forall|i: int| 0 <= i < s.len() ==> is_hex_char(#[trigger] s[i])
}

fn all_hex_chars(s: &str) -> (r: bool)
    ensures
        r == all_hex(s@),
{
    let n = s.unicode_len();
    let mut i: usize = 0;
    while i < n
        invariant
            n == s@.len(),
            i <= n,
            forall|k: int| 0 <= k < i ==> is_hex_char(#[trigger] s@[k]),
        decreases n - i,
    {
        let c = s.get_char(i);
        if !(('0' <= c && c <= '9') || ('a' <= c && c <= 'f') || ('A' <= c && c <= 'F')) {
            return false;
        }
        i = i + 1;
    }
    true
}

/// A signature placeholder: at least 64 hexadecimal digits.
pub fn is_valid_hex_signature(s: &str) -> (r: bool)
    ensures
        r == (s@.len() >= 64 && all_hex(s@)),
{
    s.unicode_len() >= 64 && all_hex_chars(s)
}

/// A ZKP commitment placeholder: exactly 64 hexadecimal digits.
pub fn is_valid_hex_commitment(s: &str) -> (r: bool)
    ensures
        r == (s@.len() == 64 && all_hex(s@)),
{
    s.unicode_len() == 64 && all_hex_chars(s)
}

/// The structural error of a Dead-Ledger reference, if any.
pub open spec fn deadledger_error(d: DeadLedgerRef) -> Option<EnvelopeErrorView> {
    if d.proof_envelope_id@.len() == 0 {
        Some((
            "DEADLEDGER_MISSING_PROOF_ID"@,
            "Dead-Ledger reference missing proof_envelope_id"@,
            "/deadledgerRef/proofEnvelopeId"@,
            None,
            Some(json_string_text("A non-empty proof envelope ID"@)),
            "Set proof_envelope_id to a valid Dead-Ledger proof ID"@,
        ))
    } else if d.verifier_ref@.len() == 0 {
        Some((
            "DEADLEDGER_MISSING_VERIFIER"@,
            "Dead-Ledger reference missing verifier_ref"@,
            "/deadledgerRef/verifierRef"@,
            None,
            Some(json_string_text("A non-empty verifier reference"@)),
            "Set verifier_ref to a valid verifier ID from Dead-Ledger registry"@,
        ))
    } else {
        None
    }
}

fn envelope_error(code: &str, message: String, pointer: &str, submitted: Option<String>, expected: Option<String>, remediation: String) -> (r: EnvelopeError)
    ensures
        r@ == (code@, message@, pointer@, opt_chars(submitted), opt_chars(expected), remediation@),
{
    EnvelopeError {
        code: String::from_str(code),
        message,
        json_pointer: String::from_str(pointer),
        submitted_value: submitted,
        expected,
        remediation,
    }
}

/// Checks a Dead-Ledger reference: both ids must be non-empty.
pub fn validate_deadledger_ref(dl_ref: &DeadLedgerRef) -> (r: Result<(), EnvelopeError>)
    ensures
        match deadledger_error(*dl_ref) {
            None => r is Ok,
            Some(v) => r matches Err(e) && e@ == v,
        },
{
    if dl_ref.proof_envelope_id.unicode_len() == 0 {
        return Err(envelope_error(
            "DEADLEDGER_MISSING_PROOF_ID",
            String::from_str("Dead-Ledger reference missing proof_envelope_id"),
            "/deadledgerRef/proofEnvelopeId",
            None,
            Some(json_string("A non-empty proof envelope ID")),
            String::from_str("Set proof_envelope_id to a valid Dead-Ledger proof ID"),
        ));
    }
    if dl_ref.verifier_ref.unicode_len() == 0 {
        return Err(envelope_error(
            "DEADLEDGER_MISSING_VERIFIER",
            String::from_str("Dead-Ledger reference missing verifier_ref"),
            "/deadledgerRef/verifierRef",
            None,
            Some(json_string("A non-empty verifier reference")),
            String::from_str("Set verifier_ref to a valid verifier ID from Dead-Ledger registry"),
        ));
    }
    Ok(())
}

pub open spec fn version_errors(env: PrismEnvelope, versions: Seq<Seq<char>>) -> Seq<EnvelopeErrorView> {
    if !versions.contains(env.envelope_version@) {
        seq![(
            "ENVELOPE_VERSION_UNSUPPORTED"@,
            "Envelope version '"@ + env.envelope_version@ + "' not in accepted versions: "@ + debug_list(versions),
            "/envelopeVersion"@,
            Some(json_string_text(env.envelope_version@)),
            Some(json_array_text(versions)),
            "Use an envelope version from the accepted list: "@ + debug_list(versions),
        )]
    } else {
        seq![]
    }
}

pub open spec fn schema_ref_errors(env: PrismEnvelope) -> Seq<EnvelopeErrorView> {
    if env.schema_ref@.len() == 0 {
        seq![(
            "MISSING_SCHEMA_REF"@,
            "Required field 'schema_ref' is empty"@,
            "/schemaRef"@,
            Some(json_string_text(env.schema_ref@)),
            Some(json_string_text("A non-empty canonical schema URI"@)),
            "Set schema_ref to the canonical schema URI for the payload"@,
        )]
    } else {
        seq![]
    }
}

pub open spec fn timestamp_errors(env: PrismEnvelope) -> Seq<EnvelopeErrorView> {
    if env.timestamp@.len() == 0 {
        seq![(
            "MISSING_TIMESTAMP"@,
            "Required field 'timestamp' is empty"@,
            "/timestamp"@,
            None,
            Some(json_string_text("An ISO 8601 timestamp"@)),
            "Set timestamp to the current time in ISO 8601 format"@,
        )]
    } else {
        match rfc3339_error(env.timestamp@) {
            Some(e) => seq![(
                "INVALID_TIMESTAMP_FORMAT"@,
                "Timestamp is not valid RFC3339: "@ + e,
                "/timestamp"@,
                Some(json_string_text(env.timestamp@)),
                Some(json_string_text("YYYY-MM-DDTHH:MM:SSZ format"@)),
                "Use chrono::Utc::now().to_rfc3339() to generate valid timestamps"@,
            )],
            None => seq![],
        }
    }
}

pub open spec fn reference_errors(env: PrismEnvelope, meta_error: Option<EnvelopeErrorView>) -> Seq<EnvelopeErrorView> {
    let deadledger = match env.deadledger_ref {
        Some(d) => match deadledger_error(d) {
            Some(e) => seq![e],
            None => seq![],
        },
        None => seq![],
    };
    let meta = match env.prisma_meta {
        Some(_) => match meta_error {
            Some(e) => seq![e],
            None => seq![],
        },
        None => seq![],
    };
    deadledger + meta
}

pub open spec fn placeholder_errors(env: PrismEnvelope) -> Seq<EnvelopeErrorView> {
    let signature = match env.signature {
        Some(s) => if !(s@.len() >= 64 && all_hex(s@)) {
            seq![(
                "INVALID_SIGNATURE_FORMAT"@,
                "Signature must be a valid hex string"@,
                "/signature"@,
                Some(json_string_text(s@)),
                Some(json_string_text("A hex string of appropriate length"@)),
                "Use a cryptographic library to generate valid signatures"@,
            )]
        } else {
            seq![]
        },
        None => seq![],
    };
    let zkp = match env.zkp_commitment {
        Some(z) => if !(z@.len() == 64 && all_hex(z@)) {
            seq![(
                "INVALID_ZKP_COMMITMENT_FORMAT"@,
                "ZKP commitment must be a valid hex string"@,
                "/zkpCommitment"@,
                Some(json_string_text(z@)),
                Some(json_string_text("A hex string of 64 characters"@)),
                "Use Dead-Ledger tooling to generate valid ZKP commitments"@,
            )]
        } else {
            seq![]
        },
        None => seq![],
    };
    signature + zkp
}

/// All structural errors of `env`, in check order. `versions` are the
/// accepted envelope versions and `meta_error` is the outcome of the RWF
/// range check of the envelope's prism metadata.
pub open spec fn envelope_errors(env: PrismEnvelope, versions: Seq<Seq<char>>, meta_error: Option<EnvelopeErrorView>) -> Seq<EnvelopeErrorView> {
    version_errors(env, versions) + schema_ref_errors(env) + timestamp_errors(env) + reference_errors(env, meta_error)
        + placeholder_errors(env)
}

/// The optional view of an optional envelope error.
pub open spec fn opt_error_view(e: Option<EnvelopeError>) -> Option<EnvelopeErrorView> {
    match e {
        Some(x) => Some(x@),
        None => None,
    }
}

proof fn lemma_views_append(a: Seq<EnvelopeError>, b: Seq<EnvelopeError>)
    ensures
        envelope_error_views(a + b) == envelope_error_views(a) + envelope_error_views(b),
{
    assert(envelope_error_views(a + b) =~= envelope_error_views(a) + envelope_error_views(b));
}

fn single(e: EnvelopeError) -> (r: Vec<EnvelopeError>)
    ensures
        envelope_error_views(r@) == seq![e@],
{
    let r = vec![e];
    proof {
        assert(envelope_error_views(r@) =~= seq![e@]);
    }
    r
}

fn none_errors() -> (r: Vec<EnvelopeError>)
    ensures
        envelope_error_views(r@) == Seq::<EnvelopeErrorView>::empty(),
{
    let r: Vec<EnvelopeError> = Vec::new();
    proof {
        assert(envelope_error_views(r@) =~= Seq::<EnvelopeErrorView>::empty());
    }
    r
}

/// Whether `items` holds a string equal to `s`.
fn slice_contains(items: &[String], s: &str) -> (r: bool)
    ensures
        r == views(items@).contains(s@),
{
    let mut i: usize = 0;
    while i < items.len()
        invariant
            i <= items@.len(),
            forall|k: int| 0 <= k < i ==> items@[k]@ != s@,
        decreases items@.len() - i,
    {
        if crate::text::str_eq(items[i].as_str(), s) {
            proof {
                assert(views(items@)[i as int] == s@);
            }
            return true;
        }
        i = i + 1;
    }
    proof {
        if views(items@).contains(s@) {
            let k = choose|k: int| 0 <= k < views(items@).len() && views(items@)[k] == s@;
            assert(items@[k]@ == s@);
        }
    }
    false
}

fn check_version(envelope: &PrismEnvelope, config: &Config) -> (r: Vec<EnvelopeError>)
    ensures
        envelope_error_views(r@) == version_errors(*envelope, config.spec_envelope_versions()),
{
    let versions = config.envelope_versions();
    if !slice_contains(versions, envelope.envelope_version.as_str()) {
        let list = debug_list_of(versions);
        let mut message = String::from_str("Envelope version '");
        message.append(envelope.envelope_version.as_str());
        message.append("' not in accepted versions: ");
        message.append(list.as_str());
        let mut remediation = String::from_str("Use an envelope version from the accepted list: ");
        remediation.append(list.as_str());
        single(envelope_error(
            "ENVELOPE_VERSION_UNSUPPORTED",
            message,
            "/envelopeVersion",
            Some(json_string(envelope.envelope_version.as_str())),
            Some(json_array_of(versions)),
            remediation,
        ))
    } else {
        none_errors()
    }
}

fn check_schema_ref(envelope: &PrismEnvelope) -> (r: Vec<EnvelopeError>)
    ensures
        envelope_error_views(r@) == schema_ref_errors(*envelope),
{
    if envelope.schema_ref.unicode_len() == 0 {
        single(envelope_error(
            "MISSING_SCHEMA_REF",
            String::from_str("Required field 'schema_ref' is empty"),
            "/schemaRef",
            Some(json_string(envelope.schema_ref.as_str())),
            Some(json_string("A non-empty canonical schema URI")),
            String::from_str("Set schema_ref to the canonical schema URI for the payload"),
        ))
    } else {
        none_errors()
    }
}

fn check_timestamp(envelope: &PrismEnvelope) -> (r: Vec<EnvelopeError>)
    ensures
        envelope_error_views(r@) == timestamp_errors(*envelope),
{
    if envelope.timestamp.unicode_len() == 0 {
        single(envelope_error(
            "MISSING_TIMESTAMP",
            String::from_str("Required field 'timestamp' is empty"),
            "/timestamp",
            None,
            Some(json_string("An ISO 8601 timestamp")),
            String::from_str("Set timestamp to the current time in ISO 8601 format"),
        ))
    } else {
        match check_rfc3339(envelope.timestamp.as_str()) {
            Some(err) => {
                let mut message = String::from_str("Timestamp is not valid RFC3339: ");
                message.append(err.as_str());
                single(envelope_error(
                    "INVALID_TIMESTAMP_FORMAT",
                    message,
                    "/timestamp",
                    Some(json_string(envelope.timestamp.as_str())),
                    Some(json_string("YYYY-MM-DDTHH:MM:SSZ format")),
                    String::from_str("Use chrono::Utc::now().to_rfc3339() to generate valid timestamps"),
                ))
            },
            None => none_errors(),
        }
    }
}

fn check_references(envelope: &PrismEnvelope, meta_error: Option<EnvelopeError>) -> (r: Vec<EnvelopeError>)
    ensures
        envelope_error_views(r@) == reference_errors(*envelope, opt_error_view(meta_error)),
{
    let mut a = match &envelope.deadledger_ref {
        Some(dl_ref) => match validate_deadledger_ref(dl_ref) {
            Err(e) => single(e),
            Ok(()) => none_errors(),
        },
        None => none_errors(),
    };
    let mut b = if envelope.prisma_meta.is_some() {
        match meta_error {
            Some(e) => single(e),
            None => none_errors(),
        }
    } else {
        none_errors()
    };
    let ghost va = a@;
    let ghost vb = b@;
    a.append(&mut b);
    proof {
        lemma_views_append(va, vb);
    }
    a
}

fn check_placeholders(envelope: &PrismEnvelope) -> (r: Vec<EnvelopeError>)
    ensures
        envelope_error_views(r@) == placeholder_errors(*envelope),
{
    let mut a = match &envelope.signature {
        Some(sig) => if !is_valid_hex_signature(sig.as_str()) {
            single(envelope_error(
                "INVALID_SIGNATURE_FORMAT",
                String::from_str("Signature must be a valid hex string"),
                "/signature",
                Some(json_string(sig.as_str())),
                Some(json_string("A hex string of appropriate length")),
                String::from_str("Use a cryptographic library to generate valid signatures"),
            ))
        } else {
            none_errors()
        },
        None => none_errors(),
    };
    let mut b = match &envelope.zkp_commitment {
        Some(zkp) => if !is_valid_hex_commitment(zkp.as_str()) {
            single(envelope_error(
                "INVALID_ZKP_COMMITMENT_FORMAT",
                String::from_str("ZKP commitment must be a valid hex string"),
                "/zkpCommitment",
                Some(json_string(zkp.as_str())),
                Some(json_string("A hex string of 64 characters")),
                String::from_str("Use Dead-Ledger tooling to generate valid ZKP commitments"),
            ))
        } else {
            none_errors()
        },
        None => none_errors(),
    };
    let ghost va = a@;
    let ghost vb = b@;
    a.append(&mut b);
    proof {
        lemma_views_append(va, vb);
    }
    a
}

/// Validate the structure of `envelope` against `config`.
///
/// `meta_error` is the outcome of the RWF range check (`[0.0, 1.0]`) of the
/// envelope's prism metadata; it is reported only when the envelope has
/// prism metadata. Succeeds exactly when no check fails; otherwise every
/// failing check is reported, in order.
pub fn validate_envelope(envelope: &PrismEnvelope, config: &Config, meta_error: Option<EnvelopeError>) -> (r: Result<(), Vec<EnvelopeError>>)
    ensures
        ({
            let all = envelope_errors(*envelope, config.spec_envelope_versions(), opt_error_view(meta_error));
            &&& r is Ok <==> all.len() == 0
            &&& r matches Err(es) ==> envelope_error_views(es@) == all
        }),
{
    let ghost me = opt_error_view(meta_error);
    let mut errors = check_version(envelope, config);
    let mut part = check_schema_ref(envelope);
    let ghost v0 = errors@;
    let ghost v1 = part@;
    errors.append(&mut part);
    proof { lemma_views_append(v0, v1); }
    let mut part = check_timestamp(envelope);
    let ghost v0 = errors@;
    let ghost v1 = part@;
    errors.append(&mut part);
    proof { lemma_views_append(v0, v1); }
    let mut part = check_references(envelope, meta_error);
    let ghost v0 = errors@;
    let ghost v1 = part@;
    errors.append(&mut part);
    proof { lemma_views_append(v0, v1); }
    let mut part = check_placeholders(envelope);
    let ghost v0 = errors@;
    let ghost v1 = part@;
    errors.append(&mut part);
    proof {
        lemma_views_append(v0, v1);
        assert(envelope_error_views(errors@) == envelope_errors(*envelope, config.spec_envelope_versions(), me));
    }
    if errors.len() == 0 {
        Ok(())
    } else {
        Err(errors)
    }
}

/// `Debug` rendering of a slice of strings.
fn debug_list_of(items: &[String]) -> (r: String)
    ensures
        r@ == debug_list(views(items@)),
{
    let v = copy_strings(items);
    debug_string_list(&v)
}

/// JSON array text of a slice of strings.
fn json_array_of(items: &[String]) -> (r: String)
    ensures
        r@ == json_array_text(views(items@)),
{
    let v = copy_strings(items);
    json_string_array(&v)
}

fn copy_strings(items: &[String]) -> (r: Vec<String>)
    ensures
        r@ == items@,
{
    let mut r: Vec<String> = Vec::new();
    let mut i: usize = 0;
    while i < items.len()
        invariant
            i <= items@.len(),
            r@ == items@.take(i as int),
        decreases items@.len() - i,
    {
        r.push(items[i].clone());
        i = i + 1;
        proof {
            assert(r@ =~= items@.take(i as int));
        }
    }
    proof {
        assert(items@.take(items@.len() as int) =~= items@);
    }
    r
}

/// The time now, as RFC 3339 text (`chrono::Utc::now().to_rfc3339()`).
/// Which time it is depends on the clock and is not stated. What is stated
/// is that the text is non-empty and that `DateTime::parse_from_rfc3339`
/// accepts it: chrono writes `YYYY-MM-DDTHH:MM:SS[.fraction]+00:00` for the
/// years 0 to 9999, which every clock from 1970 (before which `Utc::now`
/// panics) to the year 9999 gives.
#[verifier::external_body]
pub(crate) fn now_rfc3339() -> (r: String)
    ensures
        r@.len() > 0,
        rfc3339_error(r@) is None,
{
    chrono::Utc::now().to_rfc3339()
}

/// Wrap a payload in a prism envelope with minimal metadata: the first
/// accepted envelope version (`v1` when none is configured), the current
/// time, the given schema reference and empty prism metadata.
pub fn wrap_in_prism_envelope(payload: &str, generated_by: &str, schema_ref: &str, config: &Config) -> (r: PrismEnvelope)
    ensures
        r.envelope_version@ == if config.spec_envelope_versions().len() > 0 {
            config.spec_envelope_versions()[0]
        } else {
            "v1"@
        },
        r.schema_ref@ == schema_ref@,
        r.timestamp@.len() > 0,
        rfc3339_error(r.timestamp@) is None,
        r.deadledger_ref is None,
        r.zkp_commitment is None,
        r.signature is None,
        r.prisma_meta matches Some(m) && m.rwf is None && m.review_status is None && m.generation_phase is None
            && m.telemetry_hooks@.len() == 0,
{
    let versions = config.envelope_versions();
    let envelope_version = if versions.len() > 0 {
        versions[0].clone()
    } else {
        String::from_str("v1")
    };
    PrismEnvelope {
        envelope_version,
        timestamp: now_rfc3339(),
        schema_ref: String::from_str(schema_ref),
        deadledger_ref: None,
        zkp_commitment: None,
        prisma_meta: Some(PrismMeta { rwf: None, review_status: None, generation_phase: None, telemetry_hooks: Vec::new() }),
        signature: None,
    }
}

/// An envelope built by `wrap_in_prism_envelope` passes the structural
/// checks: when its version is the first accepted one and its schema
/// reference is non-empty, and the RWF check reports nothing, no check fails.
pub proof fn lemma_wrapped_envelope_validates(env: PrismEnvelope, versions: Seq<Seq<char>>)
    requires
        versions.len() > 0,
        env.envelope_version@ == versions[0],
        env.schema_ref@.len() > 0,
        env.timestamp@.len() > 0,
        rfc3339_error(env.timestamp@) is None,
        env.deadledger_ref is None,
        env.zkp_commitment is None,
        env.signature is None,
    ensures
        envelope_errors(env, versions, None).len() == 0,
{
    assert(versions.contains(versions[0]));
    assert(envelope_errors(env, versions, None) =~= Seq::<EnvelopeErrorView>::empty());
}


/// When an envelope passes: `validate_envelope` succeeds exactly when the
/// version is accepted, the schema reference is non-empty, the timestamp is
/// non-empty RFC 3339, a Dead-Ledger reference (if any) has a proof id and
/// a verifier, the RWF range check of present prism metadata reports
/// nothing (that check compares floating-point values and is made by the
/// caller, who hands in its outcome as `meta_error`), a signature (if any)
/// is at least 64 hex digits and a ZKP commitment (if any) exactly 64.
pub proof fn lemma_envelope_passes_iff(env: PrismEnvelope, versions: Seq<Seq<char>>, meta_error: Option<EnvelopeErrorView>)
    ensures
        envelope_errors(env, versions, meta_error).len() == 0 <==> {
            &&& versions.contains(env.envelope_version@)
            &&& env.schema_ref@.len() > 0
            &&& env.timestamp@.len() > 0 && rfc3339_error(env.timestamp@) is None
            &&& env.deadledger_ref matches Some(d) ==> d.proof_envelope_id@.len() > 0 && d.verifier_ref@.len() > 0
            &&& env.prisma_meta is Some ==> meta_error is None
            &&& env.signature matches Some(s) ==> s@.len() >= 64 && all_hex(s@)
            &&& env.zkp_commitment matches Some(z) ==> z@.len() == 64 && all_hex(z@)
        },
{
    let a = version_errors(env, versions);
    let b = schema_ref_errors(env);
    let c = timestamp_errors(env);
    let d = reference_errors(env, meta_error);
    let e = placeholder_errors(env);
    assert(envelope_errors(env, versions, meta_error).len() == a.len() + b.len() + c.len() + d.len() + e.len());
    if let Some(dl) = env.deadledger_ref {
        if dl.proof_envelope_id@.len() == 0 {
            assert(deadledger_error(dl) is Some);
        } else if dl.verifier_ref@.len() == 0 {
            assert(deadledger_error(dl) is Some);
        }
    }
}

} // verus!
