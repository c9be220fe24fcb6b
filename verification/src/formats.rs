//! The three serialization formats. Reading and writing them is the work of
//! `serde_json`, `toml` and `serde_yaml`; nothing in this file is proved. Each
//! function below makes one call, and its contract gives the result a name.

use vstd::prelude::*;

verus! {

/// `serde_json::Value`: a JSON document, carried from the reader to the
/// writer and never looked into.
#[verifier::external_type_specification]
#[verifier::external_body]
pub struct ExJsonValue(serde_json::Value);

/// `toml::Value`: a TOML document, carried from the reader to the writer
/// and never looked into.
#[verifier::external_type_specification]
#[verifier::external_body]
pub struct ExTomlValue(toml::Value);

/// `serde_yaml::Value`: a YAML document, carried from the reader to the
/// writer; of what it holds only its kind is asked.
#[verifier::external_type_specification]
#[verifier::external_body]
pub struct ExYamlValue(serde_yaml::Value);

/// The JSON document that `text` is, if it is one.
pub uninterp spec fn json_document(text: Seq<char>) -> Option<serde_json::Value>;

/// The JSON document `doc` written out with line breaks and an indentation
/// of two spaces, if it can be written.
pub uninterp spec fn json_pretty(doc: serde_json::Value) -> Option<Seq<char>>;

/// The TOML document that `text` is, if it is one.
pub uninterp spec fn toml_document(text: Seq<char>) -> Option<toml::Value>;

/// The TOML value `doc` written out as a document, if it can be written.
pub uninterp spec fn toml_pretty(doc: toml::Value) -> Option<Seq<char>>;

/// The YAML document that `text` is, if it is one.
pub uninterp spec fn yaml_document(text: Seq<char>) -> Option<serde_yaml::Value>;

/// Whether the YAML value `doc`, without its tags, is a mapping.
pub uninterp spec fn yaml_is_mapping(doc: serde_yaml::Value) -> bool;

/// Whether the YAML value `doc`, without its tags, is a sequence.
pub uninterp spec fn yaml_is_sequence(doc: serde_yaml::Value) -> bool;

/// The YAML value `doc` written out, if it can be written.
pub uninterp spec fn yaml_pretty(doc: serde_yaml::Value) -> Option<Seq<char>>;

/// `serde_json::from_str` at `serde_json::Value`. The contract claims that
/// whether `text` is read, and as which document, depends on `text` alone.
#[verifier::external_body]
pub(crate) fn json_parse(text: &str) -> (doc: Option<serde_json::Value>)
    ensures
        doc == json_document(text@),
{
    match serde_json::from_str::<serde_json::Value>(text) {
        Ok(doc) => Some(doc),
        Err(_) => None,
    }
}

/// `serde_json::to_string_pretty`. The contract claims that the text
/// written depends on the document alone.
#[verifier::external_body]
pub(crate) fn json_print(doc: &serde_json::Value) -> (text: Option<String>)
    ensures
        text is Some == json_pretty(*doc) is Some,
        text matches Some(t) ==> json_pretty(*doc) == Some(t@),
{
    match serde_json::to_string_pretty(doc) {
        Ok(text) => Some(text),
        Err(_) => None,
    }
}

/// `toml::from_str` at `toml::Value`. The contract claims that whether
/// `text` is read, and as which document, depends on `text` alone.
#[verifier::external_body]
pub(crate) fn toml_parse(text: &str) -> (doc: Option<toml::Value>)
    ensures
        doc == toml_document(text@),
{
    match toml::from_str::<toml::Value>(text) {
        Ok(doc) => Some(doc),
        Err(_) => None,
    }
}

/// `toml::to_string_pretty`. The contract claims that the text written
/// depends on the value alone.
#[verifier::external_body]
pub(crate) fn toml_print(doc: &toml::Value) -> (text: Option<String>)
    ensures
        text is Some == toml_pretty(*doc) is Some,
        text matches Some(t) ==> toml_pretty(*doc) == Some(t@),
{
    match toml::to_string_pretty(doc) {
        Ok(text) => Some(text),
        Err(_) => None,
    }
}

/// `serde_yaml::from_str` at `serde_yaml::Value`. The contract claims that
/// whether `text` is read, and as which document, depends on `text` alone.
#[verifier::external_body]
pub(crate) fn yaml_parse(text: &str) -> (doc: Option<serde_yaml::Value>)
    ensures
        doc == yaml_document(text@),
{
    match serde_yaml::from_str::<serde_yaml::Value>(text) {
        Ok(doc) => Some(doc),
        Err(_) => None,
    }
}

/// `serde_yaml::Value::is_mapping`.
#[verifier::external_body]
pub(crate) fn yaml_check_mapping(doc: &serde_yaml::Value) -> (b: bool)
    ensures
        b == yaml_is_mapping(*doc),
{
    doc.is_mapping()
}

/// `serde_yaml::Value::is_sequence`.
#[verifier::external_body]
pub(crate) fn yaml_check_sequence(doc: &serde_yaml::Value) -> (b: bool)
    ensures
        b == yaml_is_sequence(*doc),
{
    doc.is_sequence()
}

/// `serde_yaml::to_string`. The contract claims that the text written
/// depends on the value alone.
#[verifier::external_body]
pub(crate) fn yaml_print(doc: &serde_yaml::Value) -> (text: Option<String>)
    ensures
        text is Some == yaml_pretty(*doc) is Some,
        text matches Some(t) ==> yaml_pretty(*doc) == Some(t@),
{
    match serde_yaml::to_string(doc) {
        Ok(text) => Some(text),
        Err(_) => None,
    }
}

} // verus!
