use fractals::decimal::{format_fixed, parse_fixed};
use fractals::filename::{generate, FileFilter};
use fractals::fractals::FractalType;
use fractals::ifs::serialization as ifs_codec;
use fractals::ifs::state::IfsState;
use fractals::ifs::validation::ValidationError;
use fractals::lsystem::serialization as lsystem_codec;
use fractals::lsystem::state::LSystemState;

fn text(chars: &[char]) -> String {
    chars.iter().collect()
}

#[test]
fn decimal_rendering_is_exact() {
    assert_eq!(text(&format_fixed(400_000)), "0.400000");
    assert_eq!(text(&format_fixed(-150_000)), "-0.150000");
    assert_eq!(text(&format_fixed(0)), "0.000000");
    assert_eq!(text(&format_fixed(5_401_953)), "5.401953");
    assert_eq!(text(&format_fixed(-6_721_654)), "-6.721654");
}

#[test]
fn decimal_parsing_accepts_short_fractions() {
    let s: Vec<char> = "0.4".chars().collect();
    assert_eq!(parse_fixed(&s, 0), Some((400_000, 3)));
    let s: Vec<char> = "-0.15".chars().collect();
    assert_eq!(parse_fixed(&s, 0), Some((-150_000, 5)));
    let s: Vec<char> = "12".chars().collect();
    assert_eq!(parse_fixed(&s, 0), Some((12_000_000, 2)));
    let s: Vec<char> = "x".chars().collect();
    assert_eq!(parse_fixed(&s, 0), None);
}

#[test]
fn decimal_parsing_truncates_long_fractions() {
    // the shortest round-trip text an f32 writer produces can exceed six
    // fraction digits; the digits below the micro-unit are dropped
    let s: Vec<char> = "0.30769232".chars().collect();
    assert_eq!(parse_fixed(&s, 0), Some((307_692, 10)));
    let s: Vec<char> = "1.9999999".chars().collect();
    assert_eq!(parse_fixed(&s, 0), Some((1_999_999, 9)));
    let doc = "{\"Systems\":[[0.30769232,0.0,0.0,0.0,0.0,0.0,1.0]]}";
    let dto = ifs_codec::deserialize(doc.to_string()).expect("long fractions accepted");
    assert_eq!(dto.systems[0][0], 307_692);
}

#[test]
fn decimal_round_trips_through_text() {
    for v in [0i64, 1, -1, 400_000, -150_000, 1_000_001, 8_655_175, -4_893_637, 123_456_789] {
        let rendered = format_fixed(v);
        let parsed = parse_fixed(&rendered, 0).expect("rendered text parses");
        assert_eq!(parsed, (v, rendered.len()));
    }
}

#[test]
fn ifs_serialization_round_trips() {
    let mut state = IfsState::default();
    state.systems = vec![
        [307_692, -531_469, -461_538, -293_706, 5_401_953, 8_655_175, 400_000],
        [0, 545_455, 692_308, -195_804, -4_893_637, 7_269_794, 450_000],
    ];
    let json = ifs_codec::serialize(&state);
    let dto = ifs_codec::deserialize(json).expect("rendered document parses");
    assert_eq!(dto.systems, state.systems);
}

#[test]
fn ifs_serialization_matches_the_json_shape() {
    let mut state = IfsState::default();
    state.systems = vec![[0, 0, 0, 0, 0, 0, 400_000]];
    let json = ifs_codec::serialize(&state);
    let value: serde_json::Value = serde_json::from_str(&json).expect("valid JSON");
    let rows = value["Systems"].as_array().expect("array of rows");
    assert_eq!(rows.len(), 1);
    let row = rows[0].as_array().expect("seven numbers");
    assert_eq!(row.len(), 7);
    assert_eq!(row[6].as_f64(), Some(0.4));
}

#[test]
fn ifs_deserialization_accepts_whitespace_and_both_keys() {
    let pretty = "{\n  \"Systems\": [\n    [0.5, 0.0, 0.0, 0.5, 1.0, 2.0, 1.0]\n  ]\n}";
    let dto = ifs_codec::deserialize(pretty.to_string()).expect("pretty document parses");
    assert_eq!(dto.systems, vec![[500_000, 0, 0, 500_000, 1_000_000, 2_000_000, 1_000_000]]);

    let lower = "{\"systems\":[[0.0,0.0,0.0,0.0,0.0,0.0,1.0]]}";
    let dto = ifs_codec::parse(lower.to_string()).expect("older key accepted");
    assert_eq!(dto.systems, vec![[0, 0, 0, 0, 0, 0, 1_000_000]]);
}

#[test]
fn ifs_deserialization_rejects_malformed_documents() {
    for bad in [
        "",
        "{}",
        "{\"Systems\":}",
        "{\"Systems\":[[1,2,3]]}",
        "{\"Systems\":[[1,2,3,4,5,6,7]",
        "not json at all",
    ] {
        assert!(ifs_codec::deserialize(bad.to_string()).is_err(), "accepted: {}", bad);
    }
}

#[test]
fn ifs_load_replaces_the_map_set_and_validates() {
    let json = "{\"Systems\":[[0.0,0.0,0.0,0.0,0.0,0.0,0.4],[0.0,0.0,0.0,0.0,0.0,0.0,0.6]]}";
    let dto = ifs_codec::deserialize(json.to_string()).unwrap();
    let mut state = IfsState::default();
    assert!(dto.load(&mut state).is_ok());
    assert!(state.is_initialized());
    assert_eq!(state.systems.len(), 2);
    assert_eq!(state.color_schemas.len(), 2);
}

#[test]
fn ifs_load_resets_on_failed_validation() {
    let json = "{\"Systems\":[[0.0,0.0,0.0,0.0,0.0,0.0,2.0]]}";
    let dto = ifs_codec::deserialize(json.to_string()).unwrap();
    let mut state = IfsState::default();
    let result = dto.load(&mut state);
    assert!(matches!(result, Err(ValidationError::BadProbability(_))));
    assert!(!state.is_initialized());
    assert_eq!(state.systems, vec![[0, 0, 0, 0, 0, 0, 1_000_000]]);
}

#[test]
fn lsystem_serialization_round_trips() {
    let mut state = LSystemState::default();
    state.initiator = "FX".to_string();
    state.angle = 90_000_000;
    state.initial_angle = 45_000_000;
    state.iterations = 4;
    state.rules = vec![String::from("X -> X+YF"), String::from("Y -> -FX")];
    let json = lsystem_codec::serialize(&state);
    let dto = lsystem_codec::deserialize(json).expect("rendered document parses");
    assert_eq!(dto.initiator, "FX");
    assert_eq!(dto.angle, 90_000_000);
    assert_eq!(dto.initial_angle, 45_000_000);
    assert_eq!(dto.iterations, 4);
    assert_eq!(dto.rules, state.rules);
}

#[test]
fn lsystem_serialization_escapes_quotes_and_backslashes() {
    // a quote or backslash is a legal declared symbol; the document stays
    // well-formed JSON and round-trips exactly
    let mut state = LSystemState::default();
    state.initiator = "\"".to_string();
    state.rules = vec![String::from("\" -> F\\F\"")];
    let json = lsystem_codec::serialize(&state);
    let value: serde_json::Value = serde_json::from_str(&json).expect("escaped JSON is valid");
    assert_eq!(value["Axiom"].as_str(), Some("\""));
    assert_eq!(value["Rules"][0].as_str(), Some("\" -> F\\F\""));
    let dto = lsystem_codec::deserialize(json).expect("rendered document parses");
    assert_eq!(dto.initiator, "\"");
    assert_eq!(dto.rules, state.rules);
}

#[test]
fn lsystem_serialization_matches_the_json_shape() {
    let mut state = LSystemState::default();
    state.initiator = "F".to_string();
    state.angle = 22_500_000;
    state.iterations = 3;
    state.rules = vec![String::from("F -> F+F")];
    let json = lsystem_codec::serialize(&state);
    let value: serde_json::Value = serde_json::from_str(&json).expect("valid JSON");
    assert_eq!(value["Axiom"].as_str(), Some("F"));
    assert_eq!(value["Angle"].as_f64(), Some(22.5));
    assert_eq!(value["Iterations"].as_u64(), Some(3));
    assert_eq!(value["Rules"].as_array().map(|a| a.len()), Some(1));
}

#[test]
fn lsystem_load_applies_and_validates() {
    let json = "{\"Axiom\":\"F\",\"Angle\":90.0,\"Initial Angle\":0.0,\"Iterations\":2,\"Rules\":[\"F -> FF\"]}";
    let dto = lsystem_codec::deserialize(json.to_string()).expect("document parses");
    let mut state = LSystemState::default();
    assert!(dto.load(&mut state).is_ok());
    assert!(state.is_initialized());
    assert_eq!(state.initiator, "F");
    assert_eq!(state.angle, 90_000_000);
    assert_eq!(state.iterations, 2);
}

#[test]
fn lsystem_load_resets_on_failed_validation() {
    let json = "{\"Axiom\":\"\",\"Angle\":90.0,\"Initial Angle\":0.0,\"Iterations\":2,\"Rules\":[\"F -> FF\"]}";
    let dto = lsystem_codec::deserialize(json.to_string()).expect("document parses");
    let mut state = LSystemState::default();
    assert!(dto.load(&mut state).is_err());
    assert!(!state.is_initialized());
    assert_eq!(state.initiator, "");
    assert_eq!(state.iterations, 1);
}

#[test]
fn edits_reset_the_initialized_flag() {
    let mut state = IfsState::default();
    assert!(state.initialize().is_ok());
    state.push_system([0, 0, 0, 0, 0, 0, 0]);
    assert!(!state.is_initialized());
    assert!(state.initialize().is_ok());
    state.empty_systems();
    assert!(!state.is_initialized());
}

#[test]
fn generated_file_names_carry_the_extension() {
    let filter = FileFilter::json();
    assert_eq!(filter.name, "JSON");
    let name = generate(12, &filter.file_extensions);
    assert_eq!(name.len(), 12 + ".json".len());
    assert!(name.ends_with(".json"));
    assert!(name[..12].chars().all(|c| c.is_ascii_alphanumeric()));

    let png = FileFilter::png();
    assert_eq!(png.name, "PNG");
    let name = generate(8, &png.file_extensions);
    assert!(name.ends_with(".png"));

    let none: Vec<&'static str> = vec![];
    let bare = generate(5, &none);
    assert_eq!(bare.len(), 5);
}

#[test]
fn fractal_type_titles() {
    assert_eq!(FractalType::Ifs.title(), "Iterated Function System (IFS)");
    assert_eq!(FractalType::LSystem.title(), "L-System");
    assert_eq!(FractalType::default(), FractalType::Ifs);
}
