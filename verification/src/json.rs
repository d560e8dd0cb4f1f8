//! The boundary to the JSON reader.
//!
//! The document text is handed to `serde_json`; everything past that call is
//! verified. A parsed document is modelled by [`JsonModel`], a value of which
//! stands for the content of a `serde_json::Value`; [`doc_model`] names the
//! model of the document that a given text parses to, and [`open_value`]
//! exposes one level of a parsed value at a time.

use vstd::prelude::*;

verus! {

#[verifier::external_type_specification]
#[verifier::external_body]
pub struct ExValue(serde_json::Value);

#[verifier::external_type_specification]
#[verifier::external_body]
pub struct ExError(serde_json::Error);

/// The mathematical image of a JSON value. A number's magnitude is not part
/// of the model: the snippet format never reads one, only rejects it.
pub ghost enum JsonModel {
    Null,
    Truth(bool),
    Number,
    Text(Seq<char>),
    List(Seq<JsonModel>),
    Table(Seq<(Seq<char>, JsonModel)>),
}

pub uninterp spec fn value_model(v: serde_json::Value) -> JsonModel;

pub uninterp spec fn doc_model(text: Seq<char>) -> Option<JsonModel>;

/// The model of an opened field list: each key as characters, each value as
/// its model.
pub open spec fn fields_model(fields: Seq<(String, serde_json::Value)>) -> Seq<
    (Seq<char>, JsonModel),
> {
    fields.map_values(|f: (String, serde_json::Value)| (f.0@, value_model(f.1)))
}

/// The model of an opened element list.
pub open spec fn items_model(items: Seq<serde_json::Value>) -> Seq<JsonModel> {
    items.map_values(|x: serde_json::Value| value_model(x))
}

/// One level of a parsed JSON value, as plain data. A list's elements and a
/// table's field values are handed back still packed, to be opened in turn.
pub(crate) enum JsonNode {
    Null,
    Truth(bool),
    Number,
    Text(String),
    List(Vec<serde_json::Value>),
    Table(Vec<(String, serde_json::Value)>),
}

/// Relies on `serde_json::from_str::<Value>`: whether a text parses, and what
/// document it parses to, depend on the text alone.
#[verifier::external_body]
pub(crate) fn read_document(text: &str) -> (r: Result<serde_json::Value, serde_json::Error>)
    ensures
        match r {
            Ok(v) => doc_model(text@) == Some(value_model(v)),
            Err(_) => doc_model(text@) is None,
        },
{
    serde_json::from_str(text)
}

/// Relies on `serde_json::Value` having exactly these six variants; each arm
/// moves the variant's content out, cloning where the value is borrowed. A
/// table's fields come out in the order `serde_json::Map` iterates them, the
/// same order the model records.
#[verifier::external_body]
pub(crate) fn open_value(v: &serde_json::Value) -> (n: JsonNode)
    ensures
        match n {
            JsonNode::Null => value_model(*v) == JsonModel::Null,
            JsonNode::Truth(b) => value_model(*v) == JsonModel::Truth(b),
            JsonNode::Number => value_model(*v) == JsonModel::Number,
            JsonNode::Text(s) => value_model(*v) == JsonModel::Text(s@),
            JsonNode::List(items) => value_model(*v) == JsonModel::List(items_model(items@)),
            JsonNode::Table(fields) => value_model(*v) == JsonModel::Table(fields_model(fields@)),
        },
{
    match v {
        serde_json::Value::Null => JsonNode::Null,
        serde_json::Value::Bool(b) => JsonNode::Truth(*b),
        serde_json::Value::Number(_) => JsonNode::Number,
        serde_json::Value::String(s) => JsonNode::Text(s.clone()),
        serde_json::Value::Array(a) => JsonNode::List(a.clone()),
        serde_json::Value::Object(m) => JsonNode::Table(m.clone().into_iter().collect()),
    }
}

} // verus!
