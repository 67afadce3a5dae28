//! Reading TOML documents: the few accessors of the `toml` crate the
//! parsers walk documents with.

use vstd::prelude::*;

verus! {

#[verifier::external_type_specification]
#[verifier::external_body]
pub struct ExTomlValue(toml::Value);

/// Relies on `toml::from_str`: the document as a TOML value, `None` where
/// the text is no valid TOML.
#[verifier::external_body]
pub(crate) fn parse_document(content: &str) -> (r: Option<toml::Value>) {
    toml::from_str::<toml::Value>(content).ok()
}

/// Relies on `toml::Value::get`: the value under `key` of a table.
#[verifier::external_body]
pub(crate) fn entry<'a>(v: &'a toml::Value, key: &str) -> (r: Option<&'a toml::Value>) {
    v.get(key)
}

/// Relies on `toml::Value::as_str`: the text of a string value.
#[verifier::external_body]
pub(crate) fn text_of<'a>(v: &'a toml::Value) -> (r: Option<&'a str>) {
    v.as_str()
}

/// Relies on `toml::Value::as_array`: the items of an array value.
#[verifier::external_body]
pub(crate) fn items_of<'a>(v: &'a toml::Value) -> (r: Option<&'a Vec<toml::Value>>) {
    v.as_array()
}

/// Relies on `toml::Value::as_table`: the entries of a table value, in
/// the table's order.
#[verifier::external_body]
pub(crate) fn entries_of<'a>(v: &'a toml::Value) -> (r: Option<Vec<(&'a str, &'a toml::Value)>>) {
    v.as_table().map(|t| t.iter().map(|(k, x)| (k.as_str(), x)).collect())
}

} // verus!
