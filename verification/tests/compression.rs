use hpc_constellation::compression::{CompactInput, CompactValue, CompressionDict};
use hpc_constellation::schema_compression::{SchemaCompressor, VisualParams};

fn number(x: f64) -> CompactValue {
    CompactValue::Number(format!("{:.2}", x))
}

fn as_f64(v: &CompactValue) -> f64 {
    match v {
        CompactValue::Number(t) => t.parse::<f64>().unwrap(),
        other => panic!("not a number: {:?}", other),
    }
}

#[test]
fn test_roundtrip() {
    let dict = CompressionDict::bci_standard();
    let original = CompactInput::Object(vec![
        ("maskRadius".to_string(), number(0.55)),
        ("maskFeather".to_string(), number(0.30)),
        ("decayGrain".to_string(), number(0.90)),
    ]);
    let compressed = dict.compress_json(&original).unwrap();
    assert_eq!(compressed, "{mR:0.55,mF:0.30,dG:0.90}");
    let decompressed = dict.decompress_to_json(&compressed).unwrap();
    let keys: Vec<&str> = decompressed.iter().map(|(k, _)| k.as_str()).collect();
    assert_eq!(keys, vec!["maskRadius", "maskFeather", "decayGrain"]);
    let values: Vec<f64> = decompressed.iter().map(|(_, v)| as_f64(v)).collect();
    assert_eq!(values, vec![0.55, 0.30, 0.90]);
}

#[test]
fn compress_strings_and_lists() {
    let dict = CompressionDict::bci_standard();
    let doc = CompactInput::Object(vec![
        ("stressBand".to_string(), CompactValue::Text("high".to_string())),
        ("paletteHex".to_string(), CompactValue::List(vec!["#112233".to_string(), "#445566".to_string()])),
    ]);
    assert_eq!(dict.compress_json(&doc).unwrap(), "{SB:'high',pH:[#112233,#445566]}");
}

#[test]
fn compress_errors() {
    let dict = CompressionDict::bci_standard();
    assert_eq!(dict.compress_json(&CompactInput::NotObject).unwrap_err(), "Expected JSON object");
    let unknown = CompactInput::Object(vec![("mystery".to_string(), number(1.0))]);
    assert_eq!(dict.compress_json(&unknown).unwrap_err(), "Unknown field: mystery");
    let unsupported = CompactInput::Object(vec![("CIC".to_string(), CompactValue::Unsupported)]);
    assert_eq!(dict.compress_json(&unsupported).unwrap_err(), "Unsupported JSON type");
}

#[test]
fn decompress_strings_and_errors() {
    let dict = CompressionDict::bci_standard();
    let entries = dict.decompress_to_json("{SB:'high', C:0.25}").unwrap();
    assert_eq!(entries.len(), 2);
    assert_eq!(entries[0].0, "stressBand");
    assert!(matches!(&entries[0].1, CompactValue::Text(t) if t == "high"));
    assert_eq!(entries[1].0, "CIC");
    assert!(matches!(&entries[1].1, CompactValue::Number(t) if t == "0.25"));
    assert_eq!(dict.decompress_to_json("{X:1}").unwrap_err(), "Unknown short key: X");
    assert_eq!(dict.decompress_to_json("{C}").unwrap_err(), "Invalid pair: C");
    assert_eq!(dict.decompress_to_json("{}").unwrap_err(), "Invalid pair: ");
}

fn params(values: [f64; 6]) -> VisualParams {
    VisualParams {
        mask_radius: format!("{:.2}", values[0]),
        mask_feather: format!("{:.2}", values[1]),
        decay_grain: format!("{:.2}", values[2]),
        color_desat: format!("{:.2}", values[3]),
        vein_overlay: format!("{:.2}", values[4]),
        motion_smear: format!("{:.2}", values[5]),
    }
}

#[test]
fn visual_params_roundtrip() {
    let c = SchemaCompressor::new();
    let p = params([0.55, 0.3, 0.9, 0.1, 0.25, 1.0]);
    let text = c.compress_visual_params(&p);
    assert_eq!(text, "vp:{mR:0.55,mF:0.30,dG:0.90,cD:0.10,vO:0.25,mS:1.00}");
    let back = c.decompress_visual_params(&text).unwrap();
    assert_eq!(back.mask_radius, "0.55");
    assert_eq!(back.motion_smear, "1.00");
    assert_eq!(back.color_desat, p.color_desat);
}

#[test]
fn visual_params_malformed() {
    let c = SchemaCompressor::new();
    assert_eq!(c.decompress_visual_params("vp:{mR:0.5}").unwrap_err(), "Invalid visual params: vp:{mR:0.5}");
    assert!(c.decompress_visual_params("").is_err());
}

#[test]
fn visual_params_values_must_be_numbers() {
    let c = SchemaCompressor::new();
    let bad = "vp:{mR:abc,mF:0.30,dG:0.90,cD:0.10,vO:0.25,mS:1.00}";
    assert_eq!(c.decompress_visual_params(bad).unwrap_err(), format!("Invalid visual params: {}", bad));
    assert!(c.decompress_visual_params("vp:{mR:1..0,mF:0.30,dG:0.90,cD:0.10,vO:0.25,mS:1.00}").is_err());
    assert!(c.decompress_visual_params("vp:{mR:,mF:0.30,dG:0.90,cD:0.10,vO:0.25,mS:1.00}").is_err());
    let back = c.decompress_visual_params("vp:{mR:-0.50,mF:3,dG:0.90,cD:0.10,vO:0.25,mS:12.5}").unwrap();
    assert_eq!(back.mask_radius, "-0.50");
    assert_eq!(back.motion_smear, "12.5");
}
