//! The bridge to the outside codecs: text in each format is decoded into a
//! `serde_json::Value` tree and encoded back from one. The library looks into
//! such a tree only through member lookup, member insertion and the kind of a
//! value, each stated here over the names `json_member`, `json_is_object` and
//! `json_kind`.

use vstd::prelude::*;

use crate::config::ConfigurationVariant;
use crate::error::ConfigError;

verus! {

/// The member named `key` of a JSON value: present only when the value is an
/// object that has such a member.
pub uninterp spec fn json_member(v: serde_json::Value, key: Seq<char>) -> Option<serde_json::Value>;

/// The value reached from `v` by following the member names of `path` in turn.
pub open spec fn json_at(v: serde_json::Value, path: Seq<Seq<char>>) -> Option<serde_json::Value>
    decreases path.len(),
{
    if path.len() == 0 {
        Some(v)
    } else {
        match json_at(v, path.drop_last()) {
            Some(parent) => json_member(parent, path.last()),
            None => None,
        }
    }
}

/// Following a non-empty path is following its first member, then the rest.
pub proof fn lemma_json_at_first(v: serde_json::Value, p: Seq<Seq<char>>)
    requires
        p.len() > 0,
    ensures
        json_at(v, p) == match json_member(v, p[0]) {
            Some(c) => json_at(c, p.drop_first()),
            None => None,
        },
    decreases p.len(),
{
    if p.len() == 1 {
        assert(p.drop_last().len() == 0);
        assert(p.drop_first().len() == 0);
        assert(json_at(v, p.drop_last()) == Some(v));
        assert(p.last() == p[0]);
        assert forall|c: serde_json::Value| json_at(c, p.drop_first()) == Some(c) by {}
    } else {
        lemma_json_at_first(v, p.drop_last());
        assert(p.drop_last().drop_first() =~= p.drop_first().drop_last());
        assert(p.drop_last()[0] == p[0]);
        assert(p.drop_first().last() == p.last());
    }
}

/// Relies on `serde_json::Value::get` with a string key, which looks the key
/// up among an object's members and gives `None` for any other value.
#[verifier::external_body]
pub(crate) fn member(v: &serde_json::Value, key: &String) -> (r: Option<serde_json::Value>)
    ensures
        r == json_member(*v, key@),
{
    v.get(key.as_str()).cloned()
}

/// Relies on the derived `Clone` of `serde_json::Value`, a deep copy.
#[verifier::external_body]
pub(crate) fn copy_value(v: &serde_json::Value) -> (r: serde_json::Value)
    ensures
        r == *v,
{
    v.clone()
}

/// The kind of a JSON value, which decides what a leaf may hold.
#[derive(Debug, Clone, Copy, PartialEq, Eq, Structural)]
pub enum JsonKind {
    Null,
    Bool,
    Number,
    Text,
    List,
    Object,
}

/// The kind of a JSON value.
pub uninterp spec fn json_kind(v: serde_json::Value) -> JsonKind;

/// Relies on the variants of `serde_json::Value`, one kind for each.
#[verifier::external_body]
pub(crate) fn kind_of(v: &serde_json::Value) -> (r: JsonKind)
    ensures
        r == json_kind(*v),
        (r == JsonKind::Object) == json_is_object(*v),
{
    match v {
        serde_json::Value::Null => JsonKind::Null,
        serde_json::Value::Bool(_) => JsonKind::Bool,
        serde_json::Value::Number(_) => JsonKind::Number,
        serde_json::Value::String(_) => JsonKind::Text,
        serde_json::Value::Array(_) => JsonKind::List,
        serde_json::Value::Object(_) => JsonKind::Object,
    }
}

/// The value as an `i64`, when it is an integer in that range.
pub uninterp spec fn json_as_i64(v: serde_json::Value) -> Option<i64>;

/// The value as a `u64`, when it is an integer in that range.
pub uninterp spec fn json_as_u64(v: serde_json::Value) -> Option<u64>;

/// Relies on `serde_json::Value::as_i64`: `Some` only for an integer number
/// that fits `i64`; never for a float or a value of another kind.
pub assume_specification[ serde_json::Value::as_i64 ](v: &serde_json::Value) -> (r: Option<i64>)
    ensures
        r == json_as_i64(*v),
;

/// Relies on `serde_json::Value::as_u64`: `Some` only for a non-negative
/// integer number that fits `u64`; never for a float or a value of another kind.
pub assume_specification[ serde_json::Value::as_u64 ](v: &serde_json::Value) -> (r: Option<u64>)
    ensures
        r == json_as_u64(*v),
;

/// Whether a JSON value is an object.
pub uninterp spec fn json_is_object(v: serde_json::Value) -> bool;

/// The value that JSON text decodes to, when it is well-formed.
pub uninterp spec fn json_decoded(text: Seq<char>) -> Option<serde_json::Value>;

/// The value that TOML text decodes to, when it is well-formed.
pub uninterp spec fn toml_decoded(text: Seq<char>) -> Option<serde_json::Value>;

/// The value that YAML text decodes to, when it is well-formed.
pub uninterp spec fn yaml_decoded(text: Seq<char>) -> Option<serde_json::Value>;

/// The pretty-printed JSON text of a value, when it can be written.
pub uninterp spec fn json_encoded(v: serde_json::Value) -> Option<Seq<char>>;

/// The pretty-printed TOML text of a value, when it can be written.
pub uninterp spec fn toml_encoded(v: serde_json::Value) -> Option<Seq<char>>;

/// The YAML text of a value, when it can be written.
pub uninterp spec fn yaml_encoded(v: serde_json::Value) -> Option<Seq<char>>;

/// The value that `text` decodes to in the format `variant`.
pub open spec fn decoded(text: Seq<char>, variant: ConfigurationVariant) -> Option<serde_json::Value> {
    match variant {
        ConfigurationVariant::Json => json_decoded(text),
        ConfigurationVariant::Toml => toml_decoded(text),
        ConfigurationVariant::Yaml => yaml_decoded(text),
    }
}

/// The text of `v` in the format `variant`.
pub open spec fn encoded(v: serde_json::Value, variant: ConfigurationVariant) -> Option<Seq<char>> {
    match variant {
        ConfigurationVariant::Json => json_encoded(v),
        ConfigurationVariant::Toml => toml_encoded(v),
        ConfigurationVariant::Yaml => yaml_encoded(v),
    }
}

/// The error that a failed decode or encode in the format `variant` reports.
pub open spec fn codec_error(e: ConfigError, variant: ConfigurationVariant, decoding: bool) -> bool {
    match variant {
        ConfigurationVariant::Json => e is JsonError,
        ConfigurationVariant::Toml => if decoding {
            e is TomlDeError
        } else {
            e is TomlSerError
        },
        ConfigurationVariant::Yaml => e is YamlError,
    }
}

/// Relies on `serde_json::Value::is_object`.
pub assume_specification[ serde_json::Value::is_object ](v: &serde_json::Value) -> (r: bool)
    ensures
        r == json_is_object(*v),
;

/// Relies on `serde_json::Map::new` inside `Value::Object`: an object with no members.
#[verifier::external_body]
pub(crate) fn empty_object() -> (r: serde_json::Value)
    ensures
        json_is_object(r),
        forall|k: Seq<char>| #[trigger] json_member(r, k) is None,
{
    serde_json::Value::Object(serde_json::Map::new())
}

/// Relies on `serde_json::Map::insert` on an object's members: the key then
/// holds `child` and the other members stay; a value that is no object is left as it is.
#[verifier::external_body]
pub(crate) fn set_member(v: &mut serde_json::Value, key: String, child: serde_json::Value)
    ensures
        json_is_object(*old(v)) ==> json_is_object(*final(v)),
        json_is_object(*old(v)) ==> json_member(*final(v), key@) == Some(child),
        json_is_object(*old(v)) ==> forall|k: Seq<char>|
            k != key@ ==> #[trigger] json_member(*final(v), k) == json_member(*old(v), k),
        !json_is_object(*old(v)) ==> *final(v) == *old(v),
{
    if let serde_json::Value::Object(m) = v {
        m.insert(key, child);
    }
}

/// Relies on `serde_json::from_str` into a `serde_json::Value`.
#[verifier::external_body]
fn decode_json(text: &str) -> (r: Result<serde_json::Value, serde_json::Error>)
    ensures
        r is Ok <==> json_decoded(text@) is Some,
        r matches Ok(v) ==> json_decoded(text@) == Some(v),
{
    serde_json::from_str::<serde_json::Value>(text)
}

/// Relies on `toml::from_str` into a `serde_json::Value`.
#[verifier::external_body]
fn decode_toml(text: &str) -> (r: Result<serde_json::Value, toml::de::Error>)
    ensures
        r is Ok <==> toml_decoded(text@) is Some,
        r matches Ok(v) ==> toml_decoded(text@) == Some(v),
{
    toml::from_str::<serde_json::Value>(text)
}

/// Relies on `serde_yml::from_str` into a `serde_json::Value`.
#[verifier::external_body]
fn decode_yaml(text: &str) -> (r: Result<serde_json::Value, serde_yml::Error>)
    ensures
        r is Ok <==> yaml_decoded(text@) is Some,
        r matches Ok(v) ==> yaml_decoded(text@) == Some(v),
{
    serde_yml::from_str::<serde_json::Value>(text)
}

/// Relies on `serde_json::to_string_pretty`.
#[verifier::external_body]
fn encode_json(v: &serde_json::Value) -> (r: Result<String, serde_json::Error>)
    ensures
        r is Ok <==> json_encoded(*v) is Some,
        r matches Ok(s) ==> json_encoded(*v) == Some(s@),
{
    serde_json::to_string_pretty(v)
}

/// Relies on `toml::to_string_pretty`.
#[verifier::external_body]
fn encode_toml(v: &serde_json::Value) -> (r: Result<String, toml::ser::Error>)
    ensures
        r is Ok <==> toml_encoded(*v) is Some,
        r matches Ok(s) ==> toml_encoded(*v) == Some(s@),
{
    toml::to_string_pretty(v)
}

/// Relies on `serde_yml::to_string`.
#[verifier::external_body]
fn encode_yaml(v: &serde_json::Value) -> (r: Result<String, serde_yml::Error>)
    ensures
        r is Ok <==> yaml_encoded(*v) is Some,
        r matches Ok(s) ==> yaml_encoded(*v) == Some(s@),
{
    serde_yml::to_string(v)
}

/// Relies on serde's `de::Error::custom` for `serde_json::Error`: a data
/// error carrying the message and the dotted path.
#[verifier::external_body]
fn json_data_error(msg: String, path: &Vec<String>) -> (r: serde_json::Error) {
    <serde_json::Error as serde::de::Error>::custom(format!("{} `{}`", msg, path.join(".")))
}

/// Relies on serde's `de::Error::custom` for `toml::de::Error`.
#[verifier::external_body]
fn toml_data_error(msg: String, path: &Vec<String>) -> (r: toml::de::Error) {
    <toml::de::Error as serde::de::Error>::custom(format!("{} `{}`", msg, path.join(".")))
}

/// Relies on serde's `de::Error::custom` for `serde_yml::Error`.
#[verifier::external_body]
fn yaml_data_error(msg: String, path: &Vec<String>) -> (r: serde_yml::Error) {
    <serde_yml::Error as serde::de::Error>::custom(format!("{} `{}`", msg, path.join(".")))
}

/// The decode error of the format `variant` for a decoded text whose leaf at
/// `path` is missing or holds a value the layout does not accept.
pub fn data_error(msg: String, path: &Vec<String>, variant: ConfigurationVariant) -> (r: ConfigError)
    ensures
        codec_error(r, variant, true),
{
    match variant {
        ConfigurationVariant::Json => ConfigError::JsonError(json_data_error(msg, path)),
        ConfigurationVariant::Toml => ConfigError::TomlDeError(toml_data_error(msg, path)),
        ConfigurationVariant::Yaml => ConfigError::YamlError(yaml_data_error(msg, path)),
    }
}

/// Decodes `text` in the format `variant`.
pub fn decode(text: &str, variant: ConfigurationVariant) -> (r: Result<serde_json::Value, ConfigError>)
    ensures
        r is Ok <==> decoded(text@, variant) is Some,
        r matches Ok(v) ==> decoded(text@, variant) == Some(v),
        r matches Err(e) ==> codec_error(e, variant, true),
{
    match variant {
        ConfigurationVariant::Json => match decode_json(text) {
            Ok(v) => Ok(v),
            Err(e) => Err(ConfigError::JsonError(e)),
        },
        ConfigurationVariant::Toml => match decode_toml(text) {
            Ok(v) => Ok(v),
            Err(e) => Err(ConfigError::TomlDeError(e)),
        },
        ConfigurationVariant::Yaml => match decode_yaml(text) {
            Ok(v) => Ok(v),
            Err(e) => Err(ConfigError::YamlError(e)),
        },
    }
}

/// Encodes `v` as text in the format `variant`.
pub fn encode(v: &serde_json::Value, variant: ConfigurationVariant) -> (r: Result<String, ConfigError>)
    ensures
        r is Ok <==> encoded(*v, variant) is Some,
        r matches Ok(s) ==> encoded(*v, variant) == Some(s@),
        r matches Err(e) ==> codec_error(e, variant, false),
{
    match variant {
        ConfigurationVariant::Json => match encode_json(v) {
            Ok(s) => Ok(s),
            Err(e) => Err(ConfigError::JsonError(e)),
        },
        ConfigurationVariant::Toml => match encode_toml(v) {
            Ok(s) => Ok(s),
            Err(e) => Err(ConfigError::TomlSerError(e)),
        },
        ConfigurationVariant::Yaml => match encode_yaml(v) {
            Ok(s) => Ok(s),
            Err(e) => Err(ConfigError::YamlError(e)),
        },
    }
}

} // verus!
