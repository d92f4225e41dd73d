//! TOML text as a tree of plain values, by the `toml` crate's parser.

use vstd::prelude::*;
use crate::value::{Date, Time};

verus! {

/// A parsed TOML value, as the parser gives it. Floats are held as their
/// IEEE-754 bit patterns; a date-time keeps whichever of date and time it had.
pub enum TomlNode {
    String(String),
    Integer(i64),
    Float(u64),
    Boolean(bool),
    Datetime(Option<Date>, Option<Time>),
    Array(Vec<TomlNode>),
    Table(Vec<(String, TomlNode)>),
}

/// What the TOML parser makes of a document: its root value, or the parser's message.
pub uninterp spec fn toml_document(text: Seq<char>) -> Result<TomlNode, Seq<char>>;

#[verifier::external_type_specification]
#[verifier::external_body]
pub struct ExTomlValue(toml::Value);

#[verifier::external_type_specification]
#[verifier::external_body]
pub struct ExTomlDatetime(toml::value::Datetime);

/// Relies on `toml::from_str::<toml::Value>`: parses a document, or fails
/// with a message (`toml::de::Error::message`); the result depends on the
/// text alone. The parsed value is transcribed node for node by `node_of`.
#[verifier::external_body]
pub(crate) fn parse_toml(data: &str) -> (r: Result<TomlNode, String>)
    ensures
        match r {
            Ok(n) => toml_document(data@) == Ok::<TomlNode, Seq<char>>(n),
            Err(m) => toml_document(data@) == Err::<TomlNode, Seq<char>>(m@),
        },
{
    match toml::from_str::<toml::Value>(data) {
        Ok(v) => Ok(node_of(v)),
        Err(e) => Err(e.message().to_string()),
    }
}

/// Relies on the variants of `toml::Value`: each becomes the node of the same
/// kind, its fields moved over.
#[verifier::external_body]
fn node_of(v: toml::Value) -> TomlNode {
    match v {
        toml::Value::String(s) => TomlNode::String(s),
        toml::Value::Integer(i) => TomlNode::Integer(i),
        toml::Value::Float(f) => TomlNode::Float(f.to_bits()),
        toml::Value::Boolean(b) => TomlNode::Boolean(b),
        toml::Value::Datetime(d) => datetime_node(d),
        toml::Value::Array(a) => TomlNode::Array(a.into_iter().map(node_of).collect()),
        toml::Value::Table(t) => TomlNode::Table(t.into_iter().map(|(k, x)| (k, node_of(x))).collect()),
    }
}

/// Relies on the fields of `toml::value::Datetime`: its date and time moved
/// over, its offset dropped.
#[verifier::external_body]
fn datetime_node(d: toml::value::Datetime) -> TomlNode {
    TomlNode::Datetime(
        d.date.map(|x| Date { year: x.year as i32, month: x.month as u32, day: x.day as u32 }),
        d.time.map(
            |x| Time { hour: x.hour as u32, minute: x.minute as u32, second: x.second as u32, nanosecond: x.nanosecond },
        ),
    )
}

} // verus!
