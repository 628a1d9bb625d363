//! The YAML documents of build manifests, as serde_yaml parses them.
//!
//! A document is carried as a `serde_yaml::Value`, which Verus sees as opaque.
//! What the logic reads of one is named below, one name per serde_yaml function.
use vstd::prelude::*;

verus! {

#[verifier::external_type_specification]
#[verifier::external_body]
pub struct ExYamlValue(serde_yaml::Value);

#[verifier::external_type_specification]
#[verifier::external_body]
pub struct ExYamlMapping(serde_yaml::Mapping);

/// What `serde_yaml::from_str::<Value>` makes of a text, or `None` where it fails.
pub uninterp spec fn yaml_parse(text: Seq<char>) -> Option<serde_yaml::Value>;

/// What `serde_yaml::to_string` makes of a value, or `None` where it fails.
pub uninterp spec fn yaml_render(v: serde_yaml::Value) -> Option<Seq<char>>;

/// What `Value::as_mapping` returns.
pub uninterp spec fn yaml_mapping(v: serde_yaml::Value) -> Option<serde_yaml::Mapping>;

/// What `Mapping::get` returns for a string key.
pub uninterp spec fn yaml_entry(m: serde_yaml::Mapping, key: Seq<char>) -> Option<serde_yaml::Value>;

/// What `Value::as_sequence` returns.
pub uninterp spec fn yaml_sequence(v: serde_yaml::Value) -> Option<Seq<serde_yaml::Value>>;

/// What `Value::as_str` returns.
pub uninterp spec fn yaml_str(v: serde_yaml::Value) -> Option<Seq<char>>;

/// Relies on `serde_yaml::from_str`: parses a whole document; the error is
/// handed on as its message.
#[verifier::external_body]
pub(crate) fn parse_yaml(text: &str) -> (r: Result<serde_yaml::Value, String>)
    ensures
        r is Ok <==> yaml_parse(text@) is Some,
        r is Ok ==> yaml_parse(text@) == Some(r->Ok_0),
{
    serde_yaml::from_str::<serde_yaml::Value>(text).map_err(|e| e.to_string())
}

/// Relies on `serde_yaml::to_string`: the text of a document.
#[verifier::external_body]
pub(crate) fn render_yaml(v: &serde_yaml::Value) -> (r: Result<String, String>)
    ensures
        r is Ok <==> yaml_render(*v) is Some,
        r is Ok ==> yaml_render(*v) == Some(r->Ok_0@),
{
    serde_yaml::to_string(v).map_err(|e| e.to_string())
}

/// Relies on `Value::as_mapping`: the mapping a value holds, if it is one.
#[verifier::external_body]
pub(crate) fn as_mapping(v: &serde_yaml::Value) -> (r: Option<serde_yaml::Mapping>)
    ensures
        r == yaml_mapping(*v),
{
    v.as_mapping().cloned()
}

/// Relies on `Mapping::get`: the value stored under a string key.
#[verifier::external_body]
pub(crate) fn mapping_get(m: &serde_yaml::Mapping, key: &str) -> (r: Option<serde_yaml::Value>)
    ensures
        r == yaml_entry(*m, key@),
{
    m.get(key).cloned()
}

/// Relies on `Mapping::insert`: stores a value under a string key, in the
/// key's place if it was there, and leaves every other key as it was.
#[verifier::external_body]
pub(crate) fn mapping_insert(m: &mut serde_yaml::Mapping, key: &str, v: serde_yaml::Value)
    ensures
        yaml_entry(*final(m), key@) == Some(v),
        forall|k: Seq<char>| k != key@ ==> yaml_entry(*final(m), k) == yaml_entry(*old(m), k),
{
    m.insert(serde_yaml::Value::String(key.to_string()), v);
}

/// Relies on `Value::as_sequence`: the items of a value, if it is a sequence.
#[verifier::external_body]
pub(crate) fn as_sequence(v: &serde_yaml::Value) -> (r: Option<Vec<serde_yaml::Value>>)
    ensures
        r matches Some(items) ==> yaml_sequence(*v) == Some(items@),
        r is None <==> yaml_sequence(*v) is None,
{
    v.as_sequence().cloned()
}

/// Relies on `Value::as_str`: the text of a value, if it is a string.
#[verifier::external_body]
pub(crate) fn as_text(v: &serde_yaml::Value) -> (r: Option<String>)
    ensures
        r matches Some(s) ==> yaml_str(*v) == Some(s@),
        r is None <==> yaml_str(*v) is None,
{
    v.as_str().map(|s| s.to_string())
}

/// A string value: `Value::as_str` gives the text back.
#[verifier::external_body]
pub(crate) fn string_value(s: &str) -> (r: serde_yaml::Value)
    ensures
        yaml_str(r) == Some(s@),
{
    serde_yaml::Value::String(s.to_string())
}

/// A sequence value: `Value::as_sequence` gives the items back.
#[verifier::external_body]
pub(crate) fn sequence_value(items: Vec<serde_yaml::Value>) -> (r: serde_yaml::Value)
    ensures
        yaml_sequence(r) == Some(items@),
{
    serde_yaml::Value::Sequence(items)
}

/// A mapping value: `Value::as_mapping` gives the mapping back.
#[verifier::external_body]
pub(crate) fn mapping_value(m: serde_yaml::Mapping) -> (r: serde_yaml::Value)
    ensures
        yaml_mapping(r) == Some(m),
{
    serde_yaml::Value::Mapping(m)
}

} // verus!
