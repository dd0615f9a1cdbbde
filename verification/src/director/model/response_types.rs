//! Typed representation of AI authoring responses, prism envelopes and
//! validated files.
//!
//! JSON payloads (the artifact, registry entries) are carried as their
//! compact JSON text.
use vstd::prelude::*;

verus! {

/// Dead-Ledger reference for attestation.
#[derive(Debug, Clone)]
pub struct DeadLedgerRef {
    pub proof_envelope_id: String,
    pub verifier_ref: String,
    pub circuit_type: String,
    pub required_proofs: Vec<String>,
}

/// Review status for governance tracking.
#[derive(Debug, Clone, Copy, PartialEq, Eq, Structural)]
pub enum ReviewStatus {
    Draft,
    UnderReview,
    Approved,
    Rejected,
}

/// Prism metadata for telemetry and governance.
#[derive(Debug, Clone)]
pub struct PrismMeta {
    /// Reliability weighting factor (binary64 bit pattern).
    pub rwf: Option<u64>,
    pub review_status: Option<ReviewStatus>,
    pub generation_phase: Option<u8>,
    pub telemetry_hooks: Vec<String>,
}

/// Envelope metadata for artifact provenance.
#[derive(Debug, Clone)]
pub struct PrismEnvelope {
    pub envelope_version: String,
    pub timestamp: String,
    pub schema_ref: String,
    pub deadledger_ref: Option<DeadLedgerRef>,
    pub zkp_commitment: Option<String>,
    pub prisma_meta: Option<PrismMeta>,
    pub signature: Option<String>,
}

/// Agent identification for provenance.
#[derive(Debug, Clone)]
pub struct GeneratedBy {
    pub agent_id: String,
    pub model_version: Option<String>,
    pub session_id: Option<String>,
}

/// Registry modification action.
#[derive(Debug, Clone, Copy, PartialEq, Eq, Structural)]
pub enum RegistryAction {
    Add,
    Update,
    Remove,
}

/// Registry update for discovery surfaces.
#[derive(Debug, Clone)]
pub struct RegistryDiff {
    pub registry_path: String,
    pub action: RegistryAction,
    pub entry_id: String,
    /// New entry content (JSON text) when adding or updating.
    pub entry: Option<String>,
}

/// Wrapper for an AI-generated artifact.
#[derive(Debug, Clone)]
pub struct AiAuthoringResponse {
    pub schema_ref: String,
    /// The primary artifact, as compact JSON text.
    pub artifact: String,
    pub envelope: PrismEnvelope,
    pub target_repo: String,
    pub target_path: String,
    pub registry_diffs: Vec<RegistryDiff>,
    /// Additional artifacts, each as compact JSON text.
    pub additional_artifacts: Vec<String>,
    pub generated_by: GeneratedBy,
}

impl AiAuthoringResponse {
    /// Number of artifacts beyond the primary one.
    pub fn additional_artifacts_count(&self) -> (r: usize)
        ensures
            r == self.additional_artifacts@.len(),
    {
        self.additional_artifacts.len()
    }

    /// Whether the envelope carries a Dead-Ledger reference.
    pub fn has_deadledger_ref(&self) -> (r: bool)
        ensures
            r == self.envelope.deadledger_ref is Some,
    {
        self.envelope.deadledger_ref.is_some()
    }

    /// The RWF score (binary64 bit pattern), if the envelope has one.
    pub fn rwf_score(&self) -> (r: Option<u64>)
        ensures
            r == match self.envelope.prisma_meta {
                Some(m) => m.rwf,
                None => None,
            },
    {
        match &self.envelope.prisma_meta {
            Some(m) => m.rwf,
            None => None,
        }
    }
}

/// Warning that passed validation but flags a quality issue.
#[derive(Debug, Clone)]
pub struct SoftDiagnostic {
    pub code: String,
    pub message: String,
    pub json_pointer: String,
    pub suggestion: Option<String>,
}

/// Step of the validation pipeline.
#[derive(Debug, Clone)]
pub struct ValidationStep {
    pub layer: String,
    pub passed: bool,
    pub error: Option<String>,
}

/// Provenance of a validated artifact.
#[derive(Debug, Clone)]
pub struct ValidatedProvenance {
    pub validated_at: String,
    pub validator_version: String,
    pub request_id: Option<String>,
    pub validation_trace: Vec<ValidationStep>,
}

/// Validated artifact ready to apply.
#[derive(Debug, Clone)]
pub struct ValidatedFile {
    pub target_repo: String,
    pub target_path: String,
    /// Validated content, as compact JSON text.
    pub content: String,
    /// Lowercase hex SHA-256 of the content text.
    pub content_hash: String,
    pub soft_diagnostics: Vec<SoftDiagnostic>,
    pub provenance: ValidatedProvenance,
}

} // verus!
