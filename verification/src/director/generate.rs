//! Skeleton generation: which generator serves an object kind, the hints
//! that tell an AI which skeleton fields to fill, and bundle naming. The
//! numeric bands of the skeletons themselves are floating-point data built
//! outside this library.
use vstd::prelude::*;

use crate::director::errors::Error;
use crate::text::str_eq;

verus! {

/// Hint for a skeleton field.
#[derive(Debug, Clone, Copy, PartialEq, Eq, Structural)]
pub enum FieldHint {
    /// AI should fill this field with creative content.
    AiFill,
    /// Structural field; do not modify.
    DoNotModify,
    /// New field in this schema version; optional.
    NewInVersion,
}

/// Telemetry of one generation.
#[derive(Debug, Clone)]
pub struct GenerationMetrics {
    pub object_kind: String,
    pub skeleton_used: bool,
    pub validation_passed: bool,
    pub failure_codes: Vec<String>,
    pub timestamp: String,
}

/// The contract families that have a skeleton generator.
#[derive(Debug, Clone, Copy, PartialEq, Eq, Structural)]
pub enum SkeletonFamily {
    Region,
    Seed,
    Mood,
    Event,
}

/// The generator family of an object kind, if it has one.
pub open spec fn family_for_kind(kind: Seq<char>) -> Option<SkeletonFamily> {
    if kind == "regionContractCard"@ {
        Some(SkeletonFamily::Region)
    } else if kind == "seedContractCard"@ {
        Some(SkeletonFamily::Seed)
    } else if kind == "moodContract"@ {
        Some(SkeletonFamily::Mood)
    } else if kind == "eventContract"@ {
        Some(SkeletonFamily::Event)
    } else {
        None
    }
}

/// Choose the skeleton generator for `object_kind`; an unknown kind is an
/// internal error naming it.
pub fn skeleton_family(object_kind: &str) -> (r: Result<SkeletonFamily, Error>)
    ensures
        match family_for_kind(object_kind@) {
            Some(f) => r == Ok::<SkeletonFamily, Error>(f),
            None => r matches Err(Error::Internal { message })
                && message@ == "Unknown objectKind for skeleton generation: "@ + object_kind@,
        },
{
    if str_eq(object_kind, "regionContractCard") {
        Ok(SkeletonFamily::Region)
    } else if str_eq(object_kind, "seedContractCard") {
        Ok(SkeletonFamily::Seed)
    } else if str_eq(object_kind, "moodContract") {
        Ok(SkeletonFamily::Mood)
    } else if str_eq(object_kind, "eventContract") {
        Ok(SkeletonFamily::Event)
    } else {
        let mut message = String::from_str("Unknown objectKind for skeleton generation: ");
        message.append(object_kind);
        Err(Error::Internal { message })
    }
}

/// The object kind a family generates.
pub open spec fn family_kind(f: SkeletonFamily) -> Seq<char> {
    match f {
        SkeletonFamily::Region => "regionContractCard"@,
        SkeletonFamily::Seed => "seedContractCard"@,
        SkeletonFamily::Mood => "moodContract"@,
        SkeletonFamily::Event => "eventContract"@,
    }
}

/// The object kind a family generates.
pub fn family_object_kind(f: SkeletonFamily) -> (r: String)
    ensures
        r@ == family_kind(f),
{
    match f {
        SkeletonFamily::Region => String::from_str("regionContractCard"),
        SkeletonFamily::Seed => String::from_str("seedContractCard"),
        SkeletonFamily::Mood => String::from_str("moodContract"),
        SkeletonFamily::Event => String::from_str("eventContract"),
    }
}

/// The field hints of a family's skeleton, in field order.
pub open spec fn hints_of(f: SkeletonFamily) -> Seq<(Seq<char>, FieldHint)> {
    match f {
        SkeletonFamily::Region => seq![("id"@, FieldHint::AiFill), ("regionName"@, FieldHint::AiFill), ("topology"@, FieldHint::AiFill), ("tileClass"@, FieldHint::AiFill), ("invariants"@, FieldHint::DoNotModify), ("metricTargets"@, FieldHint::AiFill), ("spatialGradients"@, FieldHint::AiFill), ("registryReady"@, FieldHint::DoNotModify)],
        SkeletonFamily::Seed => seq![("id"@, FieldHint::AiFill), ("bundleref"@, FieldHint::AiFill), ("archetype"@, FieldHint::AiFill), ("intensityBand"@, FieldHint::AiFill), ("safetyTier"@, FieldHint::AiFill), ("invariants"@, FieldHint::DoNotModify), ("metricsIntent"@, FieldHint::AiFill), ("pacingTemplate"@, FieldHint::AiFill), ("telemetryHooks"@, FieldHint::AiFill), ("registryReady"@, FieldHint::DoNotModify)],
        SkeletonFamily::Mood => seq![("id"@, FieldHint::AiFill), ("moodName"@, FieldHint::AiFill), ("tileClass"@, FieldHint::DoNotModify), ("archetype"@, FieldHint::AiFill), ("invariants"@, FieldHint::DoNotModify), ("metricsIntent"@, FieldHint::AiFill), ("requiredHooks"@, FieldHint::AiFill), ("dreadForgePattern"@, FieldHint::AiFill), ("registryReady"@, FieldHint::DoNotModify)],
        SkeletonFamily::Event => seq![("id"@, FieldHint::AiFill), ("eventName"@, FieldHint::AiFill), ("archetype"@, FieldHint::AiFill), ("preconditions"@, FieldHint::AiFill), ("intensityBand"@, FieldHint::AiFill), ("safetyTier"@, FieldHint::AiFill), ("invariants"@, FieldHint::DoNotModify), ("stageModulation"@, FieldHint::AiFill), ("metricsIntent"@, FieldHint::AiFill), ("registryReady"@, FieldHint::DoNotModify)],
    }
}

/// The field hints of a family's skeleton.
pub fn field_hints(f: SkeletonFamily) -> (r: Vec<(String, FieldHint)>)
    ensures
        r@.map_values(|h: (String, FieldHint)| (h.0@, h.1)) == hints_of(f),
{
    let r: Vec<(String, FieldHint)> = match f {
            SkeletonFamily::Region => vec![(String::from_str("id"), FieldHint::AiFill), (String::from_str("regionName"), FieldHint::AiFill), (String::from_str("topology"), FieldHint::AiFill), (String::from_str("tileClass"), FieldHint::AiFill), (String::from_str("invariants"), FieldHint::DoNotModify), (String::from_str("metricTargets"), FieldHint::AiFill), (String::from_str("spatialGradients"), FieldHint::AiFill), (String::from_str("registryReady"), FieldHint::DoNotModify)],
            SkeletonFamily::Seed => vec![(String::from_str("id"), FieldHint::AiFill), (String::from_str("bundleref"), FieldHint::AiFill), (String::from_str("archetype"), FieldHint::AiFill), (String::from_str("intensityBand"), FieldHint::AiFill), (String::from_str("safetyTier"), FieldHint::AiFill), (String::from_str("invariants"), FieldHint::DoNotModify), (String::from_str("metricsIntent"), FieldHint::AiFill), (String::from_str("pacingTemplate"), FieldHint::AiFill), (String::from_str("telemetryHooks"), FieldHint::AiFill), (String::from_str("registryReady"), FieldHint::DoNotModify)],
            SkeletonFamily::Mood => vec![(String::from_str("id"), FieldHint::AiFill), (String::from_str("moodName"), FieldHint::AiFill), (String::from_str("tileClass"), FieldHint::DoNotModify), (String::from_str("archetype"), FieldHint::AiFill), (String::from_str("invariants"), FieldHint::DoNotModify), (String::from_str("metricsIntent"), FieldHint::AiFill), (String::from_str("requiredHooks"), FieldHint::AiFill), (String::from_str("dreadForgePattern"), FieldHint::AiFill), (String::from_str("registryReady"), FieldHint::DoNotModify)],
            SkeletonFamily::Event => vec![(String::from_str("id"), FieldHint::AiFill), (String::from_str("eventName"), FieldHint::AiFill), (String::from_str("archetype"), FieldHint::AiFill), (String::from_str("preconditions"), FieldHint::AiFill), (String::from_str("intensityBand"), FieldHint::AiFill), (String::from_str("safetyTier"), FieldHint::AiFill), (String::from_str("invariants"), FieldHint::DoNotModify), (String::from_str("stageModulation"), FieldHint::AiFill), (String::from_str("metricsIntent"), FieldHint::AiFill), (String::from_str("registryReady"), FieldHint::DoNotModify)],
    };
    assert(r@.map_values(|h: (String, FieldHint)| (h.0@, h.1)) =~= hints_of(f));
    r
}

/// The id of a bundle of related skeletons:
/// `bundle.<region>.<seed>.<mood>.<event>`.
pub fn bundle_id(region_id: &str, seed_id: &str, mood_id: &str, event_id: &str) -> (r: String)
    ensures
        r@ == "bundle."@ + region_id@ + "."@ + seed_id@ + "."@ + mood_id@ + "."@ + event_id@,
{
    let mut r = String::from_str("bundle.");
    r.append(region_id);
    r.append(".");
    r.append(seed_id);
    r.append(".");
    r.append(mood_id);
    r.append(".");
    r.append(event_id);
    r
}

/// The tile class and archetype of a mood skeleton: `spawn` and
/// `sanctuary` unless given.
pub fn mood_defaults(archetype: Option<&str>, tile_class: Option<&str>) -> (r: (String, String))
    ensures
        r.0@ == (match tile_class { Some(t) => t@, None => "spawn"@ }),
        r.1@ == (match archetype { Some(a) => a@, None => "sanctuary"@ }),
{
    let tc = match tile_class {
        Some(t) => String::from_str(t),
        None => String::from_str("spawn"),
    };
    let arch = match archetype {
        Some(a) => String::from_str(a),
        None => String::from_str("sanctuary"),
    };
    (tc, arch)
}

} // verus!
