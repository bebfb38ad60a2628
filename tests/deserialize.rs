use cogwheel::document::{leaf_fits, Leaf, LeafType};
use cogwheel::{Configuration, ConfigurationVariant, Document, Schema};
use serde_json::Value;

struct SomeBasicConfig;

fn path(segments: &[&str]) -> Vec<String> {
    segments.iter().map(|s| s.to_string()).collect()
}

impl Configuration for SomeBasicConfig {
    fn schema() -> Schema {
        Schema {
            fields: vec![
                Leaf { path: path(&["some_string"]), ty: LeafType::Text, default: Value::from("") },
                Leaf { path: path(&["some_bool"]), ty: LeafType::Bool, default: Value::from(false) },
                Leaf { path: path(&["some_nest", "some_int"]), ty: LeafType::I32, default: Value::from(0) },
                Leaf { path: path(&["some_nest", "some_float"]), ty: LeafType::Float, default: Value::from(0.0) },
                Leaf { path: path(&["some_nest", "some_unsigned"]), ty: LeafType::U32, default: Value::from(0u32) },
            ],
        }
    }
}

fn check(config: &Document) {
    assert_eq!(config.get(&path(&["some_string"])).unwrap().as_str(), Some("Hello, world!"));
    assert!(config.get(&path(&["some_bool"])).unwrap().as_bool().unwrap());
    assert_eq!(config.get(&path(&["some_nest", "some_int"])).unwrap().as_i64(), Some(-4_i64));
    let float = config.get(&path(&["some_nest", "some_float"])).unwrap().as_f64().unwrap() as f32;
    assert_eq!(float, 3.14_159_265_f32);
    assert_eq!(
        config.get(&path(&["some_nest", "some_unsigned"])).unwrap().as_u64(),
        Some(2_147_483_648_u64)
    );
}

#[test]
fn deserialize_configuration_toml() {
    let file: &str = r#"
    some_string = "Hello, world!"
    some_bool = true

    [some_nest]
    some_int = -4
    some_float = 3.14159265
    some_unsigned = 2147483648
    "#;

    let config: Document = SomeBasicConfig::builder()
        .use_str(file, ConfigurationVariant::Toml)
        .unwrap()
        .build()
        .unwrap();
    check(&config);
}

#[test]
fn deserialize_configuration_json() {
    let file: &str = r#"
    {
        "some_string": "Hello, world!",
        "some_bool": true,
        "some_nest": {
            "some_int": -4,
            "some_float": 3.14159265,
            "some_unsigned": 2147483648
        }
    }
    "#;

    let config: Document = SomeBasicConfig::builder()
        .use_str(file, ConfigurationVariant::Json)
        .unwrap()
        .build()
        .unwrap();
    check(&config);
}

#[test]
fn deserialize_configuration_yaml() {
    let file: &str = r#"
    some_string: "Hello, world!"
    some_bool: true

    some_nest:
        some_int: -4
        some_float: 3.14159265
        some_unsigned: 2147483648
    "#;

    let config: Document = SomeBasicConfig::builder()
        .use_str(file, ConfigurationVariant::Yaml)
        .unwrap()
        .build()
        .unwrap();
    check(&config);
}

#[test]
fn missing_field_is_a_decode_error() {
    let file: &str = "some_string = \"x\"\n[some_nest]\nsome_int = 1\nsome_float = 1.0\nsome_unsigned = 1";
    match SomeBasicConfig::builder().use_str(file, ConfigurationVariant::Toml) {
        Err(cogwheel::ConfigError::TomlDeError(e)) => assert!(e.to_string().contains("some_bool")),
        _ => panic!("expected a TOML decode error"),
    }
}

#[test]
fn missing_field_of_a_decoded_tree_is_named() {
    let v: Value = serde_json::from_str(r#"{"some_string": "x"}"#).unwrap();
    match SomeBasicConfig::builder().use_value(&v) {
        Err(cogwheel::ConfigError::MissingField(p)) => assert_eq!(p, path(&["some_bool"])),
        _ => panic!("expected a missing field"),
    }
}

#[test]
fn unsigned_overflow_is_a_decode_error() {
    let file: &str = "some_string = \"x\"\nsome_bool = true\n[some_nest]\nsome_int = -4\nsome_float = 1.0\nsome_unsigned = 4294967296";
    assert!(matches!(
        SomeBasicConfig::builder().use_str(file, ConfigurationVariant::Toml),
        Err(cogwheel::ConfigError::TomlDeError(_))
    ));
}

#[test]
fn negative_unsigned_and_float_integer_are_decode_errors() {
    let negative = r#"{"some_string": "x", "some_bool": true,
        "some_nest": {"some_int": 1, "some_float": 1.0, "some_unsigned": -1}}"#;
    assert!(matches!(
        SomeBasicConfig::builder().use_str(negative, ConfigurationVariant::Json),
        Err(cogwheel::ConfigError::JsonError(_))
    ));
    let float = r#"{"some_string": "x", "some_bool": true,
        "some_nest": {"some_int": 1.5, "some_float": 1.0, "some_unsigned": 1}}"#;
    assert!(matches!(
        SomeBasicConfig::builder().use_str(float, ConfigurationVariant::Json),
        Err(cogwheel::ConfigError::JsonError(_))
    ));
    let too_big = "some_string: x\nsome_bool: true\nsome_nest:\n  some_int: 2147483648\n  some_float: 1.0\n  some_unsigned: 1\n";
    assert!(matches!(
        SomeBasicConfig::builder().use_str(too_big, ConfigurationVariant::Yaml),
        Err(cogwheel::ConfigError::YamlError(_))
    ));
}

#[test]
fn integer_bounds_are_accepted() {
    let file = r#"{"some_string": "x", "some_bool": false,
        "some_nest": {"some_int": -2147483648, "some_float": 7, "some_unsigned": 4294967295}}"#;
    let config = SomeBasicConfig::builder().use_str(file, ConfigurationVariant::Json).unwrap().build().unwrap();
    assert_eq!(config.get(&path(&["some_nest", "some_unsigned"])).unwrap().as_u64(), Some(4294967295));
}

#[test]
fn malformed_text_gives_the_format_error() {
    assert!(matches!(
        SomeBasicConfig::builder().use_str("{ not json", ConfigurationVariant::Json),
        Err(cogwheel::ConfigError::JsonError(_))
    ));
    assert!(matches!(
        SomeBasicConfig::builder().use_str("= = =", ConfigurationVariant::Toml),
        Err(cogwheel::ConfigError::TomlDeError(_))
    ));
    assert!(matches!(
        SomeBasicConfig::builder().use_str("a: [unclosed", ConfigurationVariant::Yaml),
        Err(cogwheel::ConfigError::YamlError(_))
    ));
}

#[test]
fn build_without_establishing_fails() {
    assert!(matches!(
        SomeBasicConfig::builder().build(),
        Err(cogwheel::ConfigError::NoConfigurationSpecified)
    ));
}

#[test]
fn leaf_of_wrong_kind_is_a_decode_error() {
    let file: &str = r#"{"some_string":"x","some_bool":"yes","some_nest":{"some_int":1,"some_float":1.0,"some_unsigned":1}}"#;
    assert!(matches!(
        SomeBasicConfig::builder().use_str(file, ConfigurationVariant::Json),
        Err(cogwheel::ConfigError::JsonError(_))
    ));
    let v: Value = serde_json::from_str(file).unwrap();
    match SomeBasicConfig::builder().use_value(&v) {
        Err(cogwheel::ConfigError::MismatchedField(p)) => assert_eq!(p, path(&["some_bool"])),
        _ => panic!("expected a mismatched field"),
    }
}

#[test]
fn record_where_a_leaf_is_expected_is_reported() {
    let file: &str = r#"{"some_string": {"a": 1}, "some_bool": true,
        "some_nest": {"some_int": 4, "some_float": 1.0, "some_unsigned": 1}}"#;
    assert!(matches!(
        SomeBasicConfig::builder().use_str(file, ConfigurationVariant::Json),
        Err(cogwheel::ConfigError::JsonError(_))
    ));
}

#[test]
fn leaf_type_bounds() {
    assert!(leaf_fits(&Value::from(127), LeafType::I8));
    assert!(!leaf_fits(&Value::from(128), LeafType::I8));
    assert!(leaf_fits(&Value::from(-128), LeafType::I8));
    assert!(!leaf_fits(&Value::from(-129), LeafType::I8));
    assert!(leaf_fits(&Value::from(255), LeafType::U8));
    assert!(!leaf_fits(&Value::from(256), LeafType::U8));
    assert!(!leaf_fits(&Value::from(-1), LeafType::U64));
    assert!(leaf_fits(&Value::from(u64::MAX), LeafType::U64));
    assert!(!leaf_fits(&Value::from(u64::MAX), LeafType::I64));
    assert!(!leaf_fits(&Value::from(1.5), LeafType::I32));
    assert!(leaf_fits(&Value::from(3), LeafType::Float));
    assert!(!leaf_fits(&Value::from("3"), LeafType::Float));
    assert!(leaf_fits(&Value::from(65535), LeafType::U16));
    assert!(!leaf_fits(&Value::from(32768), LeafType::I16));
    assert!(leaf_fits(&Value::from(true), LeafType::Bool));
    assert!(!leaf_fits(&Value::from(1), LeafType::Bool));
    assert!(leaf_fits(&Value::from("t"), LeafType::Text));
}
