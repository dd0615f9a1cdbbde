use hpc_constellation::director::model::spine_types::{
    ContractFamily, DefaultBands, DriftMode, EffectType, InteractionCondition, InteractionRule, InvariantSpec, MetricSpec,
    NumericRange, Phase, SchemaSpine, Tier, TierDefaultBands,
};
use hpc_constellation::director::spine::SpineIndex;

fn band(min: f64, max: f64) -> NumericRange {
    NumericRange { min: min.to_bits(), max: max.to_bits() }
}

fn strings(items: &[&str]) -> Vec<String> {
    items.iter().map(|s| s.to_string()).collect()
}

fn inv_spec(name: &str, max: f64, t1: Option<f64>, drift: DriftMode, compatible: &[&str], description: &str, required_by: &[&str]) -> (String, InvariantSpec) {
    (
        name.to_string(),
        InvariantSpec {
            name: name.to_string(),
            canonical_range: band(0.0, max),
            tier_overrides: t1.map(|m| vec![(Tier::T1, band(0.0, m))]).unwrap_or_default(),
            drift_mode: drift,
            compatible_with: strings(compatible),
            description: description.to_string(),
            required_by: strings(required_by),
        },
    )
}

fn metric(name: &str, min: f64, hook: Option<&str>, description: &str) -> (String, MetricSpec) {
    (
        name.to_string(),
        MetricSpec {
            name: name.to_string(),
            target_band: band(min, 1.0),
            tier_adjustments: vec![],
            telemetry_hook: hook.map(|h| h.to_string()),
            description: description.to_string(),
            required_by: strings(&["mood", "event", "region", "seed"]),
        },
    )
}

fn family(name: &str, kind: &str, invariants: &[&str], metrics: &[&str], optional_metrics: &[&str], phases: Vec<Phase>) -> ContractFamily {
    ContractFamily {
        name: name.to_string(),
        kinds: vec![kind.to_string()],
        required_invariants: strings(invariants),
        optional_invariants: vec![],
        required_metrics: strings(metrics),
        optional_metrics: strings(optional_metrics),
        allowed_phases: phases,
        tier_restrictions: vec![],
    }
}

fn load_test_spine() -> SchemaSpine {
    let all = &["mood", "event", "region", "seed"];
    let p123 = vec![Phase::Registry1, Phase::Bundles2, Phase::LuaPolicy3];
    let p12 = vec![Phase::Registry1, Phase::Bundles2];
    SchemaSpine {
        version: "v1".to_string(),
        id: "schema://HorrorPlace-Constellation-Contracts/schema-spine-index-v1.json".to_string(),
        title: "Test Schema Spine".to_string(),
        description: "Test spine for unit tests".to_string(),
        invariants: vec![
            inv_spec("CIC", 1.0, None, DriftMode::Static, &["ARR", "SHCI"], "Contextual Integrity Coefficient", all),
            inv_spec("AOS", 1.0, None, DriftMode::SlowlyVarying, &["EMD"], "Ambient Oscillation Score", all),
            inv_spec("MDI", 1.0, None, DriftMode::Static, &[], "Mood Drift Index", &["mood", "region", "seed"]),
            inv_spec("DET", 10.0, Some(7.0), DriftMode::Static, &["CDL", "ARR"], "Dread Entropy Threshold", &["mood", "event"]),
        ],
        metrics: vec![
            metric("UEC", 0.0, None, "Unnamed Entertainment Coefficient"),
            metric("ARR", 0.3, Some("session_end"), "Audience Retention Rating"),
        ],
        contract_families: vec![
            family("mood", "moodContract", &["CIC", "MDI", "AOS", "DET", "LSG", "HVF", "SHCI"], &["UEC", "EMD", "CDL", "ARR"], &["STCI"], p123.clone()),
            family("event", "eventContract", &["CIC", "LSG", "DET", "SHCI", "RWF"], &["UEC", "EMD", "STCI", "CDL", "ARR"], &[], p123),
            family("region", "regionContractCard", &["CIC", "MDI", "AOS", "SHCI", "LSG", "HVF"], &["UEC", "ARR"], &[], p12.clone()),
            family("seed", "seedContractCard", &["CIC", "MDI", "AOS", "LSG", "HVF", "SHCI"], &["UEC", "ARR"], &[], p12),
        ],
        interaction_rules: vec![InteractionRule {
            id: "XMIT_001".to_string(),
            source_metric: "DET".to_string(),
            target_metric: "CDL".to_string(),
            effect_type: EffectType::Amplify,
            condition: InteractionCondition { source_threshold: Some(8.0f64.to_bits()), source_max: None, archetypes: vec![], tile_classes: vec![] },
            description: "High DET raises CDL floor".to_string(),
        }],
        safe_defaults: vec![(
            "moodContract".to_string(),
            TierDefaultBands {
                by_tier: vec![(
                    Tier::T1,
                    DefaultBands {
                        invariants: vec![("CIC".to_string(), band(0.3, 0.7)), ("DET".to_string(), band(0.0, 7.0))],
                        metrics: vec![("ARR".to_string(), band(0.5, 1.0))],
                    },
                )],
            },
        )],
    }
}

#[test]
fn test_invariant_ranges() {
    let spine = load_test_spine();
    let cic = spine.find_invariant("CIC").unwrap();
    assert_eq!(f64::from_bits(cic.canonical_range.min), 0.0);
    assert_eq!(f64::from_bits(cic.canonical_range.max), 1.0);
}

#[test]
fn test_metric_targets() {
    let spine = load_test_spine();
    if let Some(uec) = spine.find_metric("UEC") {
        assert_eq!(f64::from_bits(uec.target_band.min), 0.0);
        assert_eq!(f64::from_bits(uec.target_band.max), 1.0);
    }
}

#[test]
fn test_contract_families() {
    let spine = load_test_spine();
    let mood_family = spine.contract_families.iter().find(|f| f.name == "mood").expect("mood contract family not found");
    assert!(mood_family.kinds.contains(&"moodContract".to_string()));
    assert!(mood_family.required_invariants.contains(&"CIC".to_string()));
}

#[test]
fn test_safe_defaults() {
    let spine = SpineIndex::new("/constellation".to_string(), load_test_spine());
    let defaults = spine.safe_defaults("moodContract", Tier::T1);
    assert!(defaults.is_some());
    let defaults = defaults.unwrap();
    assert!(defaults.invariants.iter().any(|(k, _)| k == "CIC"));
}

#[test]
fn test_describe_object_kind() {
    let spine = SpineIndex::new("/constellation".to_string(), load_test_spine());
    let profile = spine.describe_object_kind("moodContract");
    assert!(profile.is_some());
    let profile = profile.unwrap();
    assert_eq!(profile.object_kind, "moodContract");
    assert!(!profile.required_invariants.is_empty());
}

#[test]
fn safe_defaults_absent_for_other_tiers_and_kinds() {
    let spine = SpineIndex::new("/constellation".to_string(), load_test_spine());
    assert!(spine.safe_defaults("moodContract", Tier::T2).is_none());
    assert!(spine.safe_defaults("eventContract", Tier::T1).is_none());
    assert!(spine.describe_object_kind("fictionalContract").is_none());
    assert_eq!(spine.version(), "v1");
    assert_eq!(spine.root(), "/constellation");
}

#[test]
fn describe_lists_family_requirements() {
    let spine = load_test_spine();
    let profile = spine.describe_object_kind("eventContract").unwrap();
    assert_eq!(profile.required_invariants, strings(&["CIC", "LSG", "DET", "SHCI", "RWF"]));
    assert_eq!(profile.required_metrics, strings(&["UEC", "EMD", "STCI", "CDL", "ARR"]));
    assert_eq!(profile.allowed_phases, vec![Phase::Registry1, Phase::Bundles2, Phase::LuaPolicy3]);
    assert!(spine.find_invariant("LSG").is_none());
}
