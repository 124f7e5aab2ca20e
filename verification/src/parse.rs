//! The document parsers of the outside crates, seen through plain values.
use vstd::prelude::*;

use crate::depth::{toml_depth, yaml_depth};
use crate::tree::ConfigTree;
use vstd::utf8::encode_utf8;

verus! {

#[verifier::external_type_specification]
#[verifier::external_body]
pub struct ExJsonValue(serde_json::Value);

#[verifier::external_type_specification]
#[verifier::external_body]
pub struct ExTomlValue(toml::Value);

#[verifier::external_type_specification]
#[verifier::external_body]
pub struct ExYamlValue(serde_yaml::Value);

/// The top-level entries of the JSON object that `text` holds, if it holds one.
pub uninterp spec fn json_object(text: Seq<char>) -> Option<Seq<(ConfigTree, ConfigTree)>>;

/// The top-level entries of the TOML document that `text` holds, if it holds one.
pub uninterp spec fn toml_table(text: Seq<char>) -> Option<Seq<(ConfigTree, ConfigTree)>>;

/// The top-level entries of the YAML mapping that `text` holds, if it holds one.
pub uninterp spec fn yaml_mapping(text: Seq<char>) -> Option<Seq<(ConfigTree, ConfigTree)>>;

/// Converts a `serde_json::Value`, one variant for one: a number becomes the
/// `i64` that `Number::as_i64` gives; an object keeps the order in which
/// `serde_json::Map` yields its entries.
#[verifier::external_body]
fn json_tree(v: serde_json::Value) -> ConfigTree {
    match v {
        serde_json::Value::Null => ConfigTree::Null,
        serde_json::Value::Bool(b) => ConfigTree::Bool(b),
        serde_json::Value::Number(n) => ConfigTree::Number(n.as_i64()),
        serde_json::Value::String(s) => ConfigTree::Str(s),
        serde_json::Value::Array(a) => ConfigTree::List(a.into_iter().map(json_tree).collect()),
        serde_json::Value::Object(m) => ConfigTree::Table(
            m.into_iter().map(|(k, x)| (ConfigTree::Str(k), json_tree(x))).collect(),
        ),
    }
}

/// `serde_json::from_str` into a `serde_json::Map<String, Value>`: it succeeds
/// exactly on the texts that hold a JSON object, and then gives the entries
/// named by [`json_object`]. The error is carried as its message, which is not
/// stated.
#[verifier::external_body]
pub(crate) fn parse_json_object(text: &str) -> (r: Result<Vec<(ConfigTree, ConfigTree)>, String>)
    ensures
        r is Ok <==> json_object(text@) is Some,
        r matches Ok(es) ==> json_object(text@) == Some(es@),
{
    match serde_json::from_str::<serde_json::Map<String, serde_json::Value>>(text) {
        Ok(m) => Ok(m.into_iter().map(|(k, x)| (ConfigTree::Str(k), json_tree(x))).collect()),
        Err(e) => Err(e.to_string()),
    }
}

/// Converts a `toml::Value`, one variant for one: a float becomes a number
/// without an `i64` form, a date `Other`; a table keeps the order in which
/// `toml::map::Map` yields its entries. It recurses once per level, and is
/// called only by [`parse_toml_table`], on values no deeper than its text.
#[verifier::external_body]
fn toml_tree(v: toml::Value) -> ConfigTree {
    match v {
        toml::Value::String(s) => ConfigTree::Str(s),
        toml::Value::Integer(i) => ConfigTree::Number(Some(i)),
        toml::Value::Float(_) => ConfigTree::Number(None),
        toml::Value::Boolean(b) => ConfigTree::Bool(b),
        toml::Value::Datetime(_) => ConfigTree::Other,
        toml::Value::Array(a) => ConfigTree::List(a.into_iter().map(toml_tree).collect()),
        toml::Value::Table(m) => ConfigTree::Table(
            m.into_iter().map(|(k, x)| (ConfigTree::Str(k), toml_tree(x))).collect(),
        ),
    }
}

/// The greatest nesting, by the measure of [`toml_depth`], of a TOML text
/// that is parsed.
pub const TOML_DEPTH_LIMIT: usize = 512;

/// The greatest nesting, by the measure of [`yaml_depth`], of a YAML text
/// that is parsed.
pub const YAML_DEPTH_LIMIT: usize = 600;

/// The top-level entries of the TOML document that `text` holds, when it
/// holds one and nests within [`TOML_DEPTH_LIMIT`].
pub open spec fn toml_document(text: Seq<char>) -> Option<Seq<(ConfigTree, ConfigTree)>> {
    if toml_depth(encode_utf8(text)) <= TOML_DEPTH_LIMIT {
        toml_table(text)
    } else {
        None
    }
}

/// The top-level entries of the YAML mapping that `text` holds, when it
/// holds one and nests within [`YAML_DEPTH_LIMIT`].
pub open spec fn yaml_document(text: Seq<char>) -> Option<Seq<(ConfigTree, ConfigTree)>> {
    if yaml_depth(encode_utf8(text)) <= YAML_DEPTH_LIMIT {
        yaml_mapping(text)
    } else {
        None
    }
}

/// `toml::from_str` into a `toml::map::Map<String, Value>`: it succeeds
/// exactly on the texts that hold a TOML document, and then gives the entries
/// named by [`toml_table`]. The error is carried as its message, which is not
/// stated. toml 0.5 parses nested arrays, inline tables and the segments of
/// dotted keys and table headers by recursion without a limit, and builds
/// and converts values just as deep, so a deep enough nesting overflows the
/// stack; a text is admitted only when [`toml_depth`], which bounds that
/// depth, is within [`TOML_DEPTH_LIMIT`].
#[verifier::external_body]
pub(crate) fn parse_toml_table(text: &str) -> (r: Result<Vec<(ConfigTree, ConfigTree)>, String>)
    requires
        toml_depth(encode_utf8(text@)) <= TOML_DEPTH_LIMIT,
    ensures
        r is Ok <==> toml_table(text@) is Some,
        r matches Ok(es) ==> toml_table(text@) == Some(es@),
{
    match toml::from_str::<toml::map::Map<String, toml::Value>>(text) {
        Ok(m) => Ok(m.into_iter().map(|(k, x)| (ConfigTree::Str(k), toml_tree(x))).collect()),
        Err(e) => Err(e.to_string()),
    }
}

/// Converts a `serde_yaml::Value`, one variant for one: a number becomes the
/// `i64` that `Number::as_i64` gives; a mapping keeps its keys as nodes and
/// the order of the document. The values it gets nest at most 128 deep, the
/// limit of serde_yaml.
#[verifier::external_body]
fn yaml_tree(v: serde_yaml::Value) -> ConfigTree {
    match v {
        serde_yaml::Value::Null => ConfigTree::Null,
        serde_yaml::Value::Bool(b) => ConfigTree::Bool(b),
        serde_yaml::Value::Number(n) => ConfigTree::Number(n.as_i64()),
        serde_yaml::Value::String(s) => ConfigTree::Str(s),
        serde_yaml::Value::Sequence(a) => ConfigTree::List(a.into_iter().map(yaml_tree).collect()),
        serde_yaml::Value::Mapping(m) => ConfigTree::Table(
            m.into_iter().map(|(k, x)| (yaml_tree(k), yaml_tree(x))).collect(),
        ),
    }
}

/// `serde_yaml::from_str` into a `serde_yaml::Mapping`: it succeeds exactly on
/// the texts that hold a YAML mapping, and then gives the entries named by
/// [`yaml_mapping`]. The error is carried as its message, which is not stated.
/// yaml-rust loads nested collections by recursion without a limit (serde_yaml
/// checks the depth only afterwards), so a deep enough nesting overflows the
/// stack; a text is admitted only when [`yaml_depth`], which bounds that
/// depth, is within [`YAML_DEPTH_LIMIT`].
#[verifier::external_body]
pub(crate) fn parse_yaml_mapping(text: &str) -> (r: Result<Vec<(ConfigTree, ConfigTree)>, String>)
    requires
        yaml_depth(encode_utf8(text@)) <= YAML_DEPTH_LIMIT,
    ensures
        r is Ok <==> yaml_mapping(text@) is Some,
        r matches Ok(es) ==> yaml_mapping(text@) == Some(es@),
{
    match serde_yaml::from_str::<serde_yaml::Mapping>(text) {
        Ok(m) => Ok(m.into_iter().map(|(k, x)| (yaml_tree(k), yaml_tree(x))).collect()),
        Err(e) => Err(e.to_string()),
    }
}

} // verus!
