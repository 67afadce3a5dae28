//! Reading YAML documents: the few accessors of `serde_yaml` the readers
//! walk documents with.

use vstd::prelude::*;

verus! {

#[verifier::external_type_specification]
#[verifier::external_body]
pub struct ExYamlValue(serde_yaml::Value);

/// Relies on `serde_yaml::from_str`: the document as a YAML value, `None`
/// where the text is no valid YAML.
#[verifier::external_body]
pub(crate) fn parse_yaml(content: &str) -> (r: Option<serde_yaml::Value>) {
    serde_yaml::from_str::<serde_yaml::Value>(content).ok()
}

/// Relies on `serde_yaml::Value::get`: the value under `key` of a mapping.
#[verifier::external_body]
pub(crate) fn yaml_entry<'a>(v: &'a serde_yaml::Value, key: &str) -> (r: Option<&'a serde_yaml::Value>) {
    v.get(key)
}

/// Relies on `serde_yaml::Value::as_sequence`: the items of a sequence.
#[verifier::external_body]
pub(crate) fn yaml_items<'a>(v: &'a serde_yaml::Value) -> (r: Option<&'a Vec<serde_yaml::Value>>) {
    v.as_sequence()
}

/// Relies on `serde_yaml::Value::as_str`: the text of a string value.
#[verifier::external_body]
pub(crate) fn yaml_text<'a>(v: &'a serde_yaml::Value) -> (r: Option<&'a str>) {
    v.as_str()
}

/// Relies on `serde_yaml::Value::is_mapping`: whether the value is a mapping.
#[verifier::external_body]
pub(crate) fn yaml_is_mapping(v: &serde_yaml::Value) -> (r: bool) {
    v.is_mapping()
}

/// Relies on `serde_yaml::Value::as_mapping`: the keys of a mapping, in
/// the mapping's order.
#[verifier::external_body]
pub(crate) fn yaml_keys<'a>(v: &'a serde_yaml::Value) -> (r: Option<Vec<&'a serde_yaml::Value>>) {
    v.as_mapping().map(|m| m.keys().collect())
}

} // verus!
