//! The AI-safe authoring contract and the discovery contract.
use vstd::prelude::*;

verus! {

#[derive(Debug, Clone)]
pub struct AgentBlock {
    pub agentId: String,
    pub agentProfileId: String,
    pub roles: Vec<String>,
}

#[derive(Debug, Clone)]
pub struct ProfileBlock {
    pub profileId: String,
    pub tiers: Vec<String>,
    pub repos: Vec<String>,
}

#[derive(Debug, Clone)]
pub struct DiscoverySources {
    pub spineIndexRef: Option<String>,
    pub manifestRefs: Vec<String>,
    pub registryRefs: Vec<String>,
}

#[derive(Debug, Clone)]
pub struct DiscoveryBlock {
    pub spineLoaded: bool,
    pub manifestsLoaded: bool,
    pub registriesLoaded: bool,
    pub sources: Option<DiscoverySources>,
}

#[derive(Debug, Clone)]
pub struct PlannedArtifact {
    pub objectKind: String,
    pub targetRepo: String,
    pub targetPath: String,
    pub schemaRef: String,
    pub tier: String,
    pub invariantsTouched: Vec<String>,
    pub metricsTouched: Vec<String>,
    pub maxFilesInBundle: u32,
}

#[derive(Debug, Clone)]
pub struct PlanBlock {
    pub artifacts: Vec<PlannedArtifact>,
}

#[derive(Debug, Clone)]
pub struct SafetyBlock {
    pub consentTier: String,
    pub maxIntensityBand: u32,
    pub deadLedgerSurfaces: Vec<String>,
}

/// Telemetry targets; values are binary32 bit patterns.
#[derive(Debug, Clone)]
pub struct TelemetryBlock {
    pub sessionId: String,
    pub uecTarget: Option<u32>,
    pub arrTarget: Option<u32>,
}

#[derive(Debug, Clone)]
pub struct AiSafeAuthoringContract {
    pub id: String,
    pub schemaVersion: String,
    pub agent: AgentBlock,
    pub profile: ProfileBlock,
    pub discovery: DiscoveryBlock,
    pub plan: PlanBlock,
    pub safety: SafetyBlock,
    pub telemetry: TelemetryBlock,
}

#[derive(Debug, Clone)]
pub struct SpineRefs {
    pub invariantsSpineId: String,
    pub entertainmentMetricsSpineId: String,
    pub schemaSpineIndexId: String,
}

#[derive(Debug, Clone)]
pub struct DiscoveryContract {
    pub id: String,
    pub schemaVersion: String,
    pub agentProfileId: String,
    pub generatedAt: String,
    pub spineRefs: SpineRefs,
    pub manifestRefs: Vec<String>,
    pub registryRefs: Vec<String>,
    pub capabilitySpineRef: Option<String>,
}

} // verus!
