//! JSON, TOML and YAML texts, as `serde_json`, `toml` and `serde_yaml_ng`
//! parse them, seen as `DataValue`s.

use vstd::prelude::*;

use crate::data::DataValue;

verus! {

/// `serde_json::Value`, opaque.
#[verifier::external_type_specification]
#[verifier::external_body]
pub struct ExJsonValue(serde_json::Value);

/// `toml::Value`, opaque.
#[verifier::external_type_specification]
#[verifier::external_body]
pub struct ExTomlValue(toml::Value);

/// `serde_yaml_ng::Value`, opaque.
#[verifier::external_type_specification]
#[verifier::external_body]
pub struct ExYamlValue(serde_yaml_ng::Value);

/// The document that `serde_json::from_str` reads from `text` (as a
/// `serde_json::Value`, seen as a `DataValue`), or the message of its error.
pub uninterp spec fn json_document(text: Seq<char>) -> Result<DataValue, Seq<char>>;

/// The table that `str::parse::<toml::Table>` reads from `text` (seen as a
/// `DataValue` mapping), or the message of its error.
pub uninterp spec fn toml_document(text: Seq<char>) -> Result<DataValue, Seq<char>>;

/// The document that `serde_yaml_ng::from_str` reads from `text` (as a
/// `serde_yaml_ng::Value`, seen as a `DataValue`), or the message of its
/// error.
pub uninterp spec fn yaml_document(text: Seq<char>) -> Result<DataValue, Seq<char>>;

/// A `serde_json::Value` seen as a `DataValue`, variant by variant (a number
/// by its `Display`, an object's entries in the map's order).
#[verifier::external_body]
fn data_from_json(value: serde_json::Value) -> DataValue {
    match value {
        serde_json::Value::Null => DataValue::Null,
        serde_json::Value::Bool(b) => DataValue::Bool(b),
        serde_json::Value::Number(n) => DataValue::Number(n.to_string()),
        serde_json::Value::String(s) => DataValue::Text(s),
        serde_json::Value::Array(a) => DataValue::Sequence(a.into_iter().map(data_from_json).collect()),
        serde_json::Value::Object(m) => DataValue::Mapping(
            m.into_iter().map(|(k, v)| (DataValue::Text(k), data_from_json(v))).collect(),
        ),
    }
}

/// A `toml::Value` seen as a `DataValue`, variant by variant (a number by
/// its `Display`, a date or time as `Other` by its `Display`, a table's
/// entries in the map's order).
#[verifier::external_body]
fn data_from_toml(value: toml::Value) -> DataValue {
    match value {
        toml::Value::String(s) => DataValue::Text(s),
        toml::Value::Integer(i) => DataValue::Number(i.to_string()),
        toml::Value::Float(f) => DataValue::Number(f.to_string()),
        toml::Value::Boolean(b) => DataValue::Bool(b),
        toml::Value::Datetime(d) => DataValue::Other(d.to_string()),
        toml::Value::Array(a) => DataValue::Sequence(a.into_iter().map(data_from_toml).collect()),
        toml::Value::Table(t) => DataValue::Mapping(
            t.into_iter().map(|(k, v)| (DataValue::Text(k), data_from_toml(v))).collect(),
        ),
    }
}

/// A `serde_yaml_ng::Value` seen as a `DataValue`, variant by variant (a
/// number by its `Display`, a mapping's entries in order, a tag by its
/// `Display`).
#[verifier::external_body]
fn data_from_yaml(value: serde_yaml_ng::Value) -> DataValue {
    match value {
        serde_yaml_ng::Value::Null => DataValue::Null,
        serde_yaml_ng::Value::Bool(b) => DataValue::Bool(b),
        serde_yaml_ng::Value::Number(n) => DataValue::Number(n.to_string()),
        serde_yaml_ng::Value::String(s) => DataValue::Text(s),
        serde_yaml_ng::Value::Sequence(a) => DataValue::Sequence(a.into_iter().map(data_from_yaml).collect()),
        serde_yaml_ng::Value::Mapping(m) => DataValue::Mapping(
            m.into_iter().map(|(k, v)| (data_from_yaml(k), data_from_yaml(v))).collect(),
        ),
        serde_yaml_ng::Value::Tagged(t) => DataValue::Tagged(t.tag.to_string(), Box::new(data_from_yaml(t.value))),
    }
}

/// `serde_json::from_str::<serde_json::Value>`. Claimed: the document, or the
/// message of the error, depends on the text alone.
#[verifier::external_body]
pub fn parse_json_document(text: &str) -> (r: Result<DataValue, String>)
    ensures
        match r {
            Ok(v) => json_document(text@) == Ok::<DataValue, Seq<char>>(v),
            Err(m) => json_document(text@) == Err::<DataValue, Seq<char>>(m@),
        },
{
    match serde_json::from_str::<serde_json::Value>(text) {
        Ok(value) => Ok(data_from_json(value)),
        Err(error) => Err(error.to_string()),
    }
}

/// `str::parse::<toml::Table>`. Claimed: the table, or the message of the
/// error, depends on the text alone.
#[verifier::external_body]
pub fn parse_toml_document(text: &str) -> (r: Result<DataValue, String>)
    ensures
        match r {
            Ok(v) => toml_document(text@) == Ok::<DataValue, Seq<char>>(v),
            Err(m) => toml_document(text@) == Err::<DataValue, Seq<char>>(m@),
        },
{
    match text.parse::<toml::Table>() {
        Ok(table) => Ok(data_from_toml(toml::Value::Table(table))),
        Err(error) => Err(error.to_string()),
    }
}

/// `serde_yaml_ng::from_str::<serde_yaml_ng::Value>`. Claimed: the document,
/// or the message of the error, depends on the text alone.
#[verifier::external_body]
pub fn parse_yaml_document(text: &str) -> (r: Result<DataValue, String>)
    ensures
        match r {
            Ok(v) => yaml_document(text@) == Ok::<DataValue, Seq<char>>(v),
            Err(m) => yaml_document(text@) == Err::<DataValue, Seq<char>>(m@),
        },
{
    match serde_yaml_ng::from_str::<serde_yaml_ng::Value>(text) {
        Ok(value) => Ok(data_from_yaml(value)),
        Err(error) => Err(error.to_string()),
    }
}

} // verus!
