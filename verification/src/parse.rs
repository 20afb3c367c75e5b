//! Reading a document from TOML text.

use vstd::prelude::*;
use crate::value::{Node, Entry, Doc};

verus! {

#[verifier::external_type_specification]
#[verifier::external_body]
pub struct ExTomlValue(toml::Value);

#[verifier::external_type_specification]
#[verifier::external_body]
pub struct ExTomlError(toml::de::Error);

/// What a parsed TOML value holds, as a document: strings, integers and
/// booleans as they are, a float by its bits, a datetime by its text, an
/// array by its items and a table by its pairs in the order the table yields
/// them.
pub uninterp spec fn toml_model(v: toml::Value) -> Doc;

/// The document that a text is parsed to; `None` for a text that is not
/// valid TOML.
pub uninterp spec fn toml_parse(text: Seq<char>) -> Option<Doc>;

/// Calls `toml::from_str` for a `toml::Value`. The parser is a function of
/// the text alone: it gives a value, whose content is the text's document, or
/// an error.
#[verifier::external_body]
fn parse_toml(text: &str) -> (parsed: Result<toml::Value, toml::de::Error>)
    ensures
        match parsed {
            Ok(v) => toml_parse(text@) == Some(toml_model(v)),
            Err(_) => toml_parse(text@) is None,
        },
{
    toml::from_str::<toml::Value>(text)
}

/// Takes a `toml::Value` apart, variant by variant, into a [`Node`] with
/// the same content. A `toml` table is a map from keys to values, so no
/// table of the result holds a key twice.
#[verifier::external_body]
fn from_toml(v: toml::Value) -> (value: Node)
    ensures
        value@ == toml_model(v),
        value@.wf(),
{
    match v {
        toml::Value::String(s) => Node::String(s),
        toml::Value::Integer(i) => Node::Integer(i),
        toml::Value::Float(f) => Node::Float(f.to_bits()),
        toml::Value::Boolean(b) => Node::Boolean(b),
        toml::Value::Datetime(d) => Node::Datetime(d.to_string()),
        toml::Value::Array(a) => Node::Array(a.into_iter().map(from_toml).collect()),
        toml::Value::Table(t) => Node::Table(
            t.into_iter().map(|(key, v)| Entry { key, value: from_toml(v) }).collect(),
        ),
    }
}

/// Parses a TOML text into a document. Fails exactly on a text that is not
/// valid TOML. No table of the document holds a key twice.
pub fn parse_document(text: &str) -> (document: Option<Node>)
    ensures
        toml_parse(text@) == match document {
            Some(v) => Some(v@),
            None => None::<Doc>,
        },
        document matches Some(v) ==> v@.wf(),
{
    match parse_toml(text) {
        Ok(v) => Some(from_toml(v)),
        Err(_) => None,
    }
}

} // verus!
