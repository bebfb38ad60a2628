use cogwheel::document::merge;
use cogwheel::document::{Leaf, LeafType};
use cogwheel::{ConfigError, Configuration, ConfigurationVariant, Document, Schema, Sparse};
use serde_json::Value;

struct SomeBasicConfig;

fn path(segments: &[&str]) -> Vec<String> {
    segments.iter().map(|s| s.to_string()).collect()
}

impl Configuration for SomeBasicConfig {
    fn schema() -> Schema {
        Schema {
            fields: vec![
                Leaf { path: path(&["some_string"]), ty: LeafType::Text, default: Value::from("") },
                Leaf { path: path(&["some_bool"]), ty: LeafType::Bool, default: Value::from(false) },
                Leaf { path: path(&["some_nest", "some_int"]), ty: LeafType::I32, default: Value::from(0) },
                Leaf { path: path(&["some_nest", "some_float"]), ty: LeafType::Float, default: Value::from(0.0) },
                Leaf { path: path(&["some_nest", "some_unsigned"]), ty: LeafType::U32, default: Value::from(0u32) },
            ],
        }
    }
}

const FILE: &str = r#"
    some_string = "Hello, world!"
    some_bool = true

    [some_nest]
    some_int = -4
    some_float = 3.14159265
    some_unsigned = 2147483648
    "#;

fn get(config: &Document, segments: &[&str]) -> Value {
    config.get(&path(segments)).unwrap()
}

fn check_rest(config: &Document) {
    assert!(get(config, &["some_bool"]).as_bool().unwrap());
    assert_eq!(get(config, &["some_nest", "some_int"]).as_i64(), Some(-4_i64));
    assert_eq!(get(config, &["some_nest", "some_float"]).as_f64().unwrap() as f32, 3.14_159_265_f32);
    assert_eq!(get(config, &["some_nest", "some_unsigned"]).as_u64(), Some(2_147_483_648_u64));
}

fn base() -> Document {
    SomeBasicConfig::builder().use_str(FILE, ConfigurationVariant::Toml).unwrap().build().unwrap()
}

fn overlay(text: &str) -> Sparse {
    let v: Value = toml::from_str(text).unwrap();
    Sparse::from_value(&SomeBasicConfig::schema(), &v).unwrap()
}

#[test]
fn using_sparse() {
    let file_replacement: &str = r#"some_string = "Goodbye, world!""#;

    let config: Document = SomeBasicConfig::builder()
        .use_str(FILE, ConfigurationVariant::Toml)
        .unwrap()
        .replace(file_replacement, vec!["some_string".to_string()], ConfigurationVariant::Toml)
        .unwrap()
        .build()
        .unwrap();

    assert_eq!(get(&config, &["some_string"]).as_str(), Some("Goodbye, world!"));
    check_rest(&config);
}

#[test]
fn replace_without_field_paths_changes_nothing() {
    let config: Document = SomeBasicConfig::builder()
        .use_str(FILE, ConfigurationVariant::Toml)
        .unwrap()
        .replace(r#"some_string = "Goodbye, world!""#, vec![], ConfigurationVariant::Toml)
        .unwrap()
        .build()
        .unwrap();

    assert_eq!(get(&config, &["some_string"]).as_str(), Some("Hello, world!"));
    check_rest(&config);
}

#[test]
fn replace_before_establishing_fails() {
    let r = SomeBasicConfig::builder().replace(
        r#"some_string = "Goodbye, world!""#,
        vec!["some_string".to_string()],
        ConfigurationVariant::Toml,
    );
    assert!(matches!(r, Err(ConfigError::NoConfigurationSpecified)));
    let r = SomeBasicConfig::builder().merge_sparse(&overlay("some_bool = false"), &vec![path(&["some_bool"])]);
    assert!(matches!(r, Err(ConfigError::NoConfigurationSpecified)));
}

#[test]
fn replace_nested_dotted_path() {
    let config: Document = SomeBasicConfig::builder()
        .use_str(FILE, ConfigurationVariant::Toml)
        .unwrap()
        .replace(
            "some_string = \"Goodbye, world!\"\n[some_nest]\nsome_int = 7\nsome_unsigned = 9\n",
            vec!["some_nest.some_int".to_string()],
            ConfigurationVariant::Toml,
        )
        .unwrap()
        .build()
        .unwrap();

    assert_eq!(get(&config, &["some_string"]).as_str(), Some("Hello, world!"));
    assert_eq!(get(&config, &["some_nest", "some_int"]).as_i64(), Some(7));
    assert_eq!(get(&config, &["some_nest", "some_unsigned"]).as_u64(), Some(2_147_483_648_u64));
}

#[test]
fn record_path_applies_every_supplied_leaf_beneath_it() {
    let o = overlay("[some_nest]\nsome_int = 7\nsome_unsigned = 9\n");
    let merged = merge(&base(), &o, &vec![path(&["some_nest"])]).unwrap();
    assert_eq!(get(&merged, &["some_nest", "some_int"]).as_i64(), Some(7));
    assert_eq!(get(&merged, &["some_nest", "some_unsigned"]).as_u64(), Some(9));
    assert_eq!(get(&merged, &["some_nest", "some_float"]).as_f64().unwrap() as f32, 3.14_159_265_f32);
    assert_eq!(get(&merged, &["some_string"]).as_str(), Some("Hello, world!"));
}

#[test]
fn unlisted_field_keeps_its_value() {
    let o = overlay("some_string = \"Goodbye, world!\"\nsome_bool = false\n");
    let merged = merge(&base(), &o, &vec![path(&["some_bool"])]).unwrap();
    assert_eq!(get(&merged, &["some_string"]).as_str(), Some("Hello, world!"));
    assert_eq!(get(&merged, &["some_bool"]).as_bool(), Some(false));
}

#[test]
fn listed_field_absent_from_overlay_is_skipped() {
    let o = overlay("some_bool = false\n");
    let merged = merge(&base(), &o, &vec![path(&["some_string"]), path(&["some_bool"])]).unwrap();
    assert_eq!(get(&merged, &["some_string"]).as_str(), Some("Hello, world!"));
    assert_eq!(get(&merged, &["some_bool"]).as_bool(), Some(false));
}

#[test]
fn empty_merge_is_identity() {
    let o = overlay("some_string = \"Goodbye, world!\"\nsome_bool = false\n[some_nest]\nsome_int = 1\n");
    let merged = merge(&base(), &o, &vec![]).unwrap();
    assert_eq!(get(&merged, &["some_string"]).as_str(), Some("Hello, world!"));
    check_rest(&merged);
}

#[test]
fn unknown_field_path_is_refused() {
    let o = overlay("some_bool = false\n");
    match merge(&base(), &o, &vec![path(&["some_nest", "no_such_field"])]) {
        Err(ConfigError::UnknownField(p)) => assert_eq!(p, path(&["some_nest", "no_such_field"])),
        _ => panic!("expected an unknown field"),
    }
    let r = SomeBasicConfig::builder()
        .use_str(FILE, ConfigurationVariant::Toml)
        .unwrap()
        .replace("some_bool = false", vec!["Some_Bool".to_string()], ConfigurationVariant::Toml);
    assert!(matches!(r, Err(ConfigError::UnknownField(_))));
}

#[test]
fn sparse_overlay_holds_only_supplied_leaves() {
    let o = overlay("some_bool = false\nunrelated = 3\n[some_nest]\nsome_float = 1.5\n");
    assert_eq!(o.fields.len(), 2);
    assert_eq!(o.get(&path(&["some_bool"])), Some(Value::from(false)));
    assert_eq!(o.get(&path(&["some_nest", "some_float"])), Some(Value::from(1.5)));
    assert_eq!(o.get(&path(&["some_string"])), None);
}

#[test]
fn overlay_leaf_of_wrong_kind_is_refused() {
    let r = SomeBasicConfig::builder().use_str(FILE, ConfigurationVariant::Toml).unwrap().replace(
        "some_bool = \"yes\"",
        vec!["some_bool".to_string()],
        ConfigurationVariant::Toml,
    );
    assert!(matches!(r, Err(ConfigError::TomlDeError(_))));
}

#[test]
fn failed_establish_leaves_builder_as_it_was() {
    let mut b = SomeBasicConfig::builder();
    b.establish_from_str(FILE, ConfigurationVariant::Toml).unwrap();
    assert!(matches!(
        b.establish_from_str("some_string = \"only\"", ConfigurationVariant::Toml),
        Err(ConfigError::TomlDeError(_))
    ));
    let config = b.build().unwrap();
    assert_eq!(get(&config, &["some_string"]).as_str(), Some("Hello, world!"));
    check_rest(&config);
}

#[test]
fn failed_merge_leaves_builder_as_it_was() {
    let mut b = SomeBasicConfig::builder();
    b.establish_from_str(FILE, ConfigurationVariant::Toml).unwrap();
    let r = b.merge_from_str("some_string = \"Bye\"", &vec!["nope".to_string()], ConfigurationVariant::Toml);
    assert!(matches!(r, Err(ConfigError::UnknownField(_))));
    b.merge_from_str("some_string = \"Bye\"", &vec!["some_string".to_string()], ConfigurationVariant::Toml)
        .unwrap();
    let config = b.build().unwrap();
    assert_eq!(get(&config, &["some_string"]).as_str(), Some("Bye"));
    check_rest(&config);
}

#[test]
fn use_value_establishes_from_a_decoded_tree() {
    let v: Value = serde_json::from_str(
        r#"{"some_string": "s", "some_bool": false,
            "some_nest": {"some_int": 1, "some_float": 2.5, "some_unsigned": 3}}"#,
    )
    .unwrap();
    let config = SomeBasicConfig::builder().use_value(&v).unwrap().build().unwrap();
    assert_eq!(get(&config, &["some_nest", "some_float"]).as_f64(), Some(2.5));
    assert_eq!(get(&config, &["some_string"]).as_str(), Some("s"));
}

#[test]
fn overlay_that_does_not_decode_is_a_decode_error() {
    let r = SomeBasicConfig::builder().use_str(FILE, ConfigurationVariant::Toml).unwrap().replace(
        "= = =",
        vec!["no_such_field".to_string()],
        ConfigurationVariant::Toml,
    );
    assert!(matches!(r, Err(ConfigError::TomlDeError(_))));
}
