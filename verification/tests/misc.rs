use hpc_constellation::energy::{BciSummary, EnergyCostFeatures, PatternId};
use hpc_constellation::hashing::{hex_encode, sha256};
use hpc_constellation::indexer::{build_constellation_index, verify_or_migrate_schema, ConstellationConfig, RepoConfig};
use hpc_constellation::json::{json_string, json_string_array};
use hpc_constellation::reachability::{compute_reachability_prob, escape_double_quotes, has_nul, reachability_output, reachability_response};
use hpc_constellation::routing::{is_manifest_file_name, parse_tier, Tier};

fn bci() -> BciSummary {
    BciSummary {
        stress_score: 0.5f32.to_bits(),
        visual_overload_index: 0.2f32.to_bits(),
        startle_spike: 0.0f32.to_bits(),
        signal_quality: 0.9f32.to_bits(),
        stress_band: "mid".to_string(),
        attention_band: "high".to_string(),
    }
}

#[test]
fn energy_features_per_pattern() {
    let z = EnergyCostFeatures::extract_from_pattern(PatternId::ZombieVomit, &bci());
    assert_eq!((z.simd_lanes_active, z.cache_misses_estimated, z.branch_count, z.float_ops, z.memory_reads), (4, 12, 2, 28, 6));
    let t = EnergyCostFeatures::extract_from_pattern(PatternId::ToxicSmear, &bci());
    assert_eq!(t.cache_misses_estimated, 10);
    assert_eq!(t.float_ops, 26);
    assert_eq!(EnergyCostFeatures::extract_from_pattern(PatternId::Other, &bci()), EnergyCostFeatures::default());
}

#[test]
fn reachability_reports_not_implemented() {
    assert_eq!(compute_reachability_prob("{}", "[]", "{}").unwrap_err(), "compute_reachability_prob not yet implemented");
    assert_eq!(
        reachability_response("{}", "[]", "{}"),
        "{\"ok\":false,\"error\":{\"code\":\"INTERNAL\",\"message\":\"compute_reachability_prob not yet implemented\"},\"data\":null}"
    );
    assert_eq!(escape_double_quotes("say \"hi\""), "say \\\"hi\\\"");
    assert!(has_nul("a\0b"));
    assert!(!has_nul("ab"));
}

#[test]
fn reachability_output_codes() {
    assert_eq!(reachability_output("a\0b", 100), Err(-4));
    assert_eq!(reachability_output("abcd", 4), Err(-5));
    assert_eq!(reachability_output("abc", 4), Ok(vec![b'a', b'b', b'c', 0]));
    assert_eq!(reachability_output("abc", -1), Err(-5));
    assert_eq!(reachability_output("", 0), Err(-5));
    assert_eq!(reachability_output("", 1), Ok(vec![0]));
}

#[test]
fn sha256_and_hex() {
    let d = sha256(b"abc");
    assert_eq!(d.len(), 32);
    assert_eq!(hex_encode(&d), "ba7816bf8f01cfea414140de5dae2223b00361a396177a9cb410ff61f20015ad");
    assert_eq!(hex_encode(&[0x00, 0xff, 0x10]), "00ff10");
}

#[test]
fn json_strings() {
    assert_eq!(json_string("a\"b\n"), "\"a\\\"b\\n\"");
    assert_eq!(json_string_array(&vec!["x".to_string(), "y".to_string()]), "[\"x\",\"y\"]");
    assert_eq!(json_string_array(&vec![]), "[]");
    assert_eq!(json_string("\u{1}\u{1f}\t\\/é"), "\"\\u0001\\u001f\\t\\\\/é\"");
}

#[test]
fn indexer_entry_points_report_missing_build() {
    let config = ConstellationConfig {
        repos: vec![RepoConfig {
            name: "Horror.Place".to_string(),
            git_url: None,
            local_path: "repos/Horror.Place".to_string(),
            tier: 1,
            visibility: "public".to_string(),
        }],
        output_db_path: "output/constellation.db".to_string(),
    };
    assert_eq!(build_constellation_index(&config).unwrap_err().message, "not implemented");
    assert_eq!(verify_or_migrate_schema("output/constellation.db").unwrap_err().message, "not implemented");
}

#[test]
fn tiers_and_manifest_file_names() {
    assert_eq!(parse_tier("T2-vault").unwrap(), Tier::T2Vault);
    assert_eq!(parse_tier("T4").unwrap_err(), "Unknown tier string: T4");
    assert!(is_manifest_file_name("repo-manifest.hpc.horror-place.json"));
    assert!(!is_manifest_file_name("repo-manifest.hpc.horror-place.yaml"));
    assert!(!is_manifest_file_name("notes.json"));
}
