//! The outside parsers and printers behind deploy manifests: toml for TOML,
//! serde_json for JSON, and regex for the comment-preserving JSONC edit.
//!
//! Their results are named below, one name per outside function; nothing else
//! is assumed of them but what their documentation states.
use vstd::prelude::*;
use vstd::string::StringSliceAdditionalSpecFns;
use crate::identity::NAME_FIELD_PATTERN;

verus! {

#[verifier::external_type_specification]
#[verifier::external_body]
pub struct ExTomlValue(toml::Value);

#[verifier::external_type_specification]
#[verifier::external_body]
pub struct ExJsonValue(serde_json::Value);

#[verifier::external_type_specification]
#[verifier::external_body]
pub struct ExRegex(regex::Regex);

/// What `toml::from_str::<toml::Value>` makes of a text, or `None` where it fails.
pub uninterp spec fn toml_parse(text: Seq<char>) -> Option<toml::Value>;

/// What `toml::to_string` makes of a value, or `None` where it fails.
pub uninterp spec fn toml_render(v: toml::Value) -> Option<Seq<char>>;

/// What `toml::Value::is_table` returns.
pub uninterp spec fn toml_is_table(v: toml::Value) -> bool;

/// What `toml::Value::get` returns for a string key: the entry of a table.
pub uninterp spec fn toml_entry(v: toml::Value, key: Seq<char>) -> Option<toml::Value>;

/// What `toml::Value::as_str` returns.
pub uninterp spec fn toml_str(v: toml::Value) -> Option<Seq<char>>;

/// A TOML value after `Table::insert` of the string `text` under `key`, where
/// it is a table.
pub uninterp spec fn toml_with_string(v: toml::Value, key: Seq<char>, text: Seq<char>) -> toml::Value;

/// What `serde_json::from_str::<serde_json::Value>` makes of a text, or `None`.
pub uninterp spec fn json_parse(text: Seq<char>) -> Option<serde_json::Value>;

/// What `serde_json::to_string_pretty` makes of a value, or `None`.
pub uninterp spec fn json_render(v: serde_json::Value) -> Option<Seq<char>>;

/// What `serde_json::Value::is_object` returns.
pub uninterp spec fn json_is_object(v: serde_json::Value) -> bool;

/// What `serde_json::Value::get` returns for a string key: the member of an
/// object.
pub uninterp spec fn json_entry(v: serde_json::Value, key: Seq<char>) -> Option<serde_json::Value>;

/// What `serde_json::Value::as_str` returns.
pub uninterp spec fn json_str(v: serde_json::Value) -> Option<Seq<char>>;

/// Whether `Regex::new` accepts a pattern.
pub uninterp spec fn regex_compiles(pattern: Seq<char>) -> bool;

/// The pattern a compiled regex was made from, as `Regex::as_str` gives it.
pub uninterp spec fn regex_pattern(re: regex::Regex) -> Seq<char>;

/// The byte offsets of the leftmost-first match of a pattern in a text, as
/// `Regex::find` gives them, or `None` where nothing matches.
pub uninterp spec fn regex_first_match(pattern: Seq<char>, text: Seq<char>) -> Option<(int, int)>;

/// Relies on `toml::from_str`: parses a TOML document; the error is handed on
/// as its message.
#[verifier::external_body]
pub(crate) fn parse_toml(text: &str) -> (r: Result<toml::Value, String>)
    ensures
        r is Ok <==> toml_parse(text@) is Some,
        r matches Ok(v) ==> toml_parse(text@) == Some(v),
{
    toml::from_str::<toml::Value>(text).map_err(|e| e.to_string())
}

/// Relies on `toml::to_string`: the text of a TOML value.
#[verifier::external_body]
pub(crate) fn render_toml(v: &toml::Value) -> (r: Result<String, String>)
    ensures
        r is Ok <==> toml_render(*v) is Some,
        r matches Ok(t) ==> toml_render(*v) == Some(t@),
{
    toml::to_string(v).map_err(|e| e.to_string())
}

/// Relies on `Table::insert`: stores the string `text` under `key` in a
/// table value, in place of what was there, and leaves every other key as it
/// was; a value that is no table comes back as it was.
#[verifier::external_body]
pub(crate) fn toml_set_string(v: toml::Value, key: &str, text: &str) -> (r: toml::Value)
    ensures
        r == toml_with_string(v, key@, text@),
        toml_is_table(r) == toml_is_table(v),
        toml_is_table(v) ==> toml_entry(r, key@) is Some && toml_str(toml_entry(r, key@)->0)
            == Some(text@),
        forall|k: Seq<char>|
            toml_is_table(v) && k != key@ ==> toml_entry(r, k) == toml_entry(v, k),
        !toml_is_table(v) ==> r == v,
{
    let mut v = v;
    if let toml::Value::Table(table) = &mut v {
        table.insert(key.to_string(), toml::Value::String(text.to_string()));
    }
    v
}

/// Relies on `serde_json::from_str`: parses a JSON document; the error is
/// handed on as its message.
#[verifier::external_body]
pub(crate) fn parse_json(text: &str) -> (r: Result<serde_json::Value, String>)
    ensures
        r is Ok <==> json_parse(text@) is Some,
        r matches Ok(v) ==> json_parse(text@) == Some(v),
{
    serde_json::from_str::<serde_json::Value>(text).map_err(|e| e.to_string())
}

/// Relies on `serde_json::to_string_pretty`: the indented text of a JSON
/// value. A `Value` has string keys only and is written into memory, so
/// printing it does not fail.
#[verifier::external_body]
pub(crate) fn render_json(v: &serde_json::Value) -> (r: Result<String, String>)
    ensures
        r is Ok,
        r is Ok <==> json_render(*v) is Some,
        r matches Ok(t) ==> json_render(*v) == Some(t@),
{
    serde_json::to_string_pretty(v).map_err(|e| e.to_string())
}

/// Relies on `Map::insert`: stores the string `text` under `key` in an
/// object value, in place of what was there, and leaves every other member as
/// it was; a value that is no object comes back as it was.
#[verifier::external_body]
pub(crate) fn json_set_string(v: serde_json::Value, key: &str, text: &str) -> (r: serde_json::Value)
    ensures
        json_is_object(r) == json_is_object(v),
        json_is_object(v) ==> json_entry(r, key@) is Some && json_str(json_entry(r, key@)->0)
            == Some(text@),
        forall|k: Seq<char>|
            json_is_object(v) && k != key@ ==> json_entry(r, k) == json_entry(v, k),
        !json_is_object(v) ==> r == v,
{
    let mut v = v;
    if let serde_json::Value::Object(object) = &mut v {
        object.insert(key.to_string(), serde_json::Value::String(text.to_string()));
    }
    v
}

/// Relies on `Regex::new`: compiles a pattern, which the regex keeps. The
/// pattern of the name field is valid regex syntax, so it compiles.
#[verifier::external_body]
pub(crate) fn compile_regex(pattern: &str) -> (r: Result<regex::Regex, String>)
    ensures
        r is Ok <==> regex_compiles(pattern@),
        pattern@ == NAME_FIELD_PATTERN@ ==> r is Ok,
        r matches Ok(re) ==> regex_pattern(re) == pattern@,
{
    regex::Regex::new(pattern).map_err(|e| e.to_string())
}

/// Relies on `Regex::find`: the byte range of the leftmost-first match. Its
/// documentation guarantees `start <= end`, and that both offsets fall on
/// UTF-8 boundaries of the text.
#[verifier::external_body]
pub(crate) fn find_first(re: &regex::Regex, text: &str) -> (r: Option<(usize, usize)>)
    ensures
        r matches Some((s, e)) ==> regex_first_match(regex_pattern(*re), text@) == Some(
            (s as int, e as int),
        ),
        r is None ==> regex_first_match(regex_pattern(*re), text@) is None,
        r matches Some((s, e)) ==> s <= e <= text.spec_bytes().len(),
{
    re.find(text).map(|m| (m.start(), m.end()))
}

} // verus!
