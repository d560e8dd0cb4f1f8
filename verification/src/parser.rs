//! Parsing a snippet document into a store.
//!
//! The spec functions here state, over [`JsonModel`], exactly which documents
//! parse and to what records; [`parse`] is proved to follow them.

use vstd::prelude::*;

use crate::json::JsonModel;
use crate::json::JsonNode;
use crate::json::doc_model;
use crate::json::fields_model;
use crate::json::items_model;
use crate::json::open_value;
use crate::json::read_document;
use crate::json::value_model;
use crate::store::Snippet;
use crate::store::SnippetModel;
use crate::store::Snippets;

verus! {

/// Why a document was rejected.
#[derive(Debug, Clone, Copy, PartialEq, Eq)]
pub enum ParseError {
    /// The text is not valid JSON, or its top-level value is not an object.
    MalformedInput,
    /// An entry lacks `prefix` or `body`, or its `prefix` is not a string.
    MissingField,
    /// An entry's `body` is neither a string nor an array.
    InvalidBodyType,
    /// An element of an array-valued `body` is not a string.
    InvalidBodyElement,
}

/// The value of the first field named `key`, if any.
pub open spec fn spec_field(fields: Seq<(Seq<char>, JsonModel)>, key: Seq<char>) -> Option<
    JsonModel,
>
    decreases fields.len(),
{
    if fields.len() == 0 {
        None
    } else if fields[0].0 == key {
        Some(fields[0].1)
    } else {
        spec_field(fields.drop_first(), key)
    }
}

/// Whether every element of `items` is a string.
pub open spec fn all_strings(items: Seq<JsonModel>) -> bool {
    forall|i: int| 0 <= i < items.len() ==> items[i] is Text
}

/// The characters of each element of `items`, which must all be strings.
pub open spec fn string_items(items: Seq<JsonModel>) -> Seq<Seq<char>> {
    items.map_values(|m: JsonModel| m->Text_0)
}

/// `parts` joined in order with a single space between neighbours.
pub open spec fn join_with_space(parts: Seq<Seq<char>>) -> Seq<char>
    decreases parts.len(),
{
    if parts.len() == 0 {
        Seq::empty()
    } else if parts.len() == 1 {
        parts[0]
    } else {
        join_with_space(parts.drop_last()) + seq![' '] + parts.last()
    }
}

/// The body text a `body` field's value yields: a string verbatim, an array
/// of strings joined with single spaces, anything else an error.
pub open spec fn spec_body(v: JsonModel) -> Result<Seq<char>, ParseError> {
    match v {
        JsonModel::Text(s) => Ok(s),
        JsonModel::List(items) => if all_strings(items) {
            Ok(join_with_space(string_items(items)))
        } else {
            Err(ParseError::InvalidBodyElement)
        },
        _ => Err(ParseError::InvalidBodyType),
    }
}

/// The body text of an entry: its `body` field's yield, or `MissingField`
/// when the entry is not an object or has no `body`.
pub open spec fn spec_extract_body(v: JsonModel) -> Result<Seq<char>, ParseError> {
    match v {
        JsonModel::Table(fields) => match spec_field(fields, "body"@) {
            Some(b) => spec_body(b),
            None => Err(ParseError::MissingField),
        },
        _ => Err(ParseError::MissingField),
    }
}

/// The description of an entry's field list: the `description` field when it
/// is a string, the empty string otherwise.
pub open spec fn spec_description(fields: Seq<(Seq<char>, JsonModel)>) -> Seq<char> {
    match spec_field(fields, "description"@) {
        Some(JsonModel::Text(d)) => d,
        _ => Seq::empty(),
    }
}

/// The record an entry named `name` with value `v` yields: `prefix` is read
/// first and must be a string, then the body, while `description` may be
/// absent.
pub open spec fn spec_snippet(name: Seq<char>, v: JsonModel) -> Result<SnippetModel, ParseError> {
    match v {
        JsonModel::Table(fields) => match spec_field(fields, "prefix"@) {
            Some(JsonModel::Text(p)) => match spec_extract_body(v) {
                Ok(b) => Ok(
                    SnippetModel {
                        name: name,
                        prefix: p,
                        description: spec_description(fields),
                        body: b,
                    },
                ),
                Err(e) => Err(e),
            },
            _ => Err(ParseError::MissingField),
        },
        _ => Err(ParseError::MissingField),
    }
}

/// The records of a document's entries, in order; the first failing entry's
/// error, if any.
pub open spec fn spec_entries(entries: Seq<(Seq<char>, JsonModel)>) -> Result<
    Seq<SnippetModel>,
    ParseError,
>
    decreases entries.len(),
{
    if entries.len() == 0 {
        Ok(Seq::empty())
    } else {
        match spec_entries(entries.drop_last()) {
            Ok(records) => match spec_snippet(entries.last().0, entries.last().1) {
                Ok(r) => Ok(records.push(r)),
                Err(e) => Err(e),
            },
            Err(e) => Err(e),
        }
    }
}

/// What a document text parses to: the records of its entries when it is a
/// JSON object, `MalformedInput` otherwise.
pub open spec fn spec_parse(text: Seq<char>) -> Result<Seq<SnippetModel>, ParseError> {
    match doc_model(text) {
        Some(m) => match m {
            JsonModel::Table(entries) => spec_entries(entries),
            _ => Err(ParseError::MalformedInput),
        },
        None => Err(ParseError::MalformedInput),
    }
}

proof fn lemma_spec_field_found(fields: Seq<(Seq<char>, JsonModel)>, key: Seq<char>, i: int)
    requires
        0 <= i < fields.len(),
        forall|j: int| 0 <= j < i ==> fields[j].0 != key,
        fields[i].0 == key,
    ensures
        spec_field(fields, key) == Some(fields[i].1),
    decreases i,
{
    if i > 0 {
        lemma_spec_field_found(fields.drop_first(), key, i - 1);
    }
}

proof fn lemma_spec_field_absent(fields: Seq<(Seq<char>, JsonModel)>, key: Seq<char>)
    requires
        forall|j: int| 0 <= j < fields.len() ==> fields[j].0 != key,
    ensures
        spec_field(fields, key) is None,
    decreases fields.len(),
{
    if fields.len() > 0 {
        lemma_spec_field_absent(fields.drop_first(), key);
    }
}

/// The value of the first field named `key`, if any.
fn get_field<'a>(fields: &'a Vec<(String, serde_json::Value)>, key: &String) -> (r: Option<
    &'a serde_json::Value,
>)
    ensures
        match r {
            Some(v) => spec_field(fields_model(fields@), key@) == Some(value_model(*v)),
            None => spec_field(fields_model(fields@), key@) is None,
        },
{
    let mut i: usize = 0;
    while i < fields.len()
        invariant
            i <= fields.len(),
            forall|j: int| 0 <= j < i ==> fields_model(fields@)[j].0 != key@,
        decreases fields.len() - i,
    {
        if fields[i].0 == *key {
            proof {
                lemma_spec_field_found(fields_model(fields@), key@, i as int);
            }
            return Some(&fields[i].1);
        }
        i = i + 1;
    }
    proof {
        lemma_spec_field_absent(fields_model(fields@), key@);
    }
    None
}

/// The body text a `body` field's value yields.
fn body_of_value(v: &serde_json::Value) -> (r: Result<String, ParseError>)
    ensures
        match r {
            Ok(b) => spec_body(value_model(*v)) == Ok::<Seq<char>, ParseError>(b@),
            Err(e) => spec_body(value_model(*v)) == Err::<Seq<char>, ParseError>(e),
        },
{
    match open_value(v) {
        JsonNode::Text(s) => Ok(s),
        JsonNode::List(items) => join_items(&items),
        _ => Err(ParseError::InvalidBodyType),
    }
}

/// Joins the elements of an array-valued `body`, which must all be strings,
/// with a single space between neighbours.
fn join_items(items: &Vec<serde_json::Value>) -> (r: Result<String, ParseError>)
    ensures
        match r {
            Ok(b) => spec_body(JsonModel::List(items_model(items@))) == Ok::<
                Seq<char>,
                ParseError,
            >(b@),
            Err(e) => spec_body(JsonModel::List(items_model(items@))) == Err::<
                Seq<char>,
                ParseError,
            >(e),
        },
{
    let ghost im = items_model(items@);
    let mut acc = String::new();
    let mut i: usize = 0;
    while i < items.len()
        invariant
            i <= items.len(),
            im == items_model(items@),
            all_strings(im.take(i as int)),
            acc@ == join_with_space(string_items(im.take(i as int))),
        decreases items.len() - i,
    {
        match open_value(&items[i]) {
            JsonNode::Text(s) => {
                if i > 0 {
                    acc.append(" ");
                }
                acc.append(s.as_str());
                proof {
                    reveal_strlit(" ");
                    assert(im.take(i as int + 1).drop_last() =~= im.take(i as int));
                    assert(string_items(im.take(i as int + 1)).drop_last() =~= string_items(
                        im.take(i as int),
                    ));
                    if i > 0 {
                        assert(" "@ =~= seq![' ']);
                        assert(acc@ =~= join_with_space(string_items(im.take(i as int + 1))));
                    } else {
                        assert(acc@ =~= join_with_space(string_items(im.take(1))));
                    }
                }
            },
            _ => {
                proof {
                    assert(!all_strings(im));
                }
                return Err(ParseError::InvalidBodyElement);
            },
        }
        i = i + 1;
    }
    proof {
        assert(im.take(items@.len() as int) =~= im);
    }
    Ok(acc)
}

/// The body text of the entry `obj`: `MissingField` when `obj` is not an
/// object or has no `body` field, otherwise its `body` field's yield.
fn extract_body(obj: &serde_json::Value) -> (r: Result<String, ParseError>)
    ensures
        match r {
            Ok(b) => spec_extract_body(value_model(*obj)) == Ok::<Seq<char>, ParseError>(b@),
            Err(e) => spec_extract_body(value_model(*obj)) == Err::<Seq<char>, ParseError>(e),
        },
{
    match open_value(obj) {
        JsonNode::Table(fields) => {
            let key = String::from_str("body");
            match get_field(&fields, &key) {
                Some(bv) => body_of_value(bv),
                None => Err(ParseError::MissingField),
            }
        },
        _ => Err(ParseError::MissingField),
    }
}

/// The description of the opened entry `fields`: its `description` field when
/// that is a string, the empty string otherwise.
fn extract_description(fields: &Vec<(String, serde_json::Value)>) -> (r: String)
    ensures
        r@ == spec_description(fields_model(fields@)),
{
    let key = String::from_str("description");
    match get_field(fields, &key) {
        Some(dv) => match open_value(dv) {
            JsonNode::Text(d) => d,
            _ => String::new(),
        },
        None => String::new(),
    }
}

/// The record of the entry named `element` with value `obj`.
fn convert_to_snippet(element: &String, obj: &serde_json::Value) -> (r: Result<Snippet, ParseError>)
    ensures
        match r {
            Ok(s) => spec_snippet(element@, value_model(*obj)) == Ok::<
                SnippetModel,
                ParseError,
            >(s@),
            Err(e) => spec_snippet(element@, value_model(*obj)) == Err::<
                SnippetModel,
                ParseError,
            >(e),
        },
{
    match open_value(obj) {
        JsonNode::Table(fields) => {
            let key = String::from_str("prefix");
            match get_field(&fields, &key) {
                Some(pv) => match open_value(pv) {
                    JsonNode::Text(prefix) => match extract_body(obj) {
                        Ok(body) => Ok(
                            Snippet {
                                name: element.clone(),
                                prefix: prefix,
                                description: extract_description(&fields),
                                body: body,
                            },
                        ),
                        Err(e) => Err(e),
                    },
                    _ => Err(ParseError::MissingField),
                },
                None => Err(ParseError::MissingField),
            }
        },
        _ => Err(ParseError::MissingField),
    }
}

proof fn lemma_entries_first_error(entries: Seq<(Seq<char>, JsonModel)>, i: int)
    requires
        0 <= i < entries.len(),
        spec_entries(entries.take(i)) is Ok,
        spec_snippet(entries[i].0, entries[i].1) is Err,
    ensures
        spec_entries(entries) == Err::<Seq<SnippetModel>, ParseError>(
            spec_snippet(entries[i].0, entries[i].1)->Err_0,
        ),
    decreases entries.len(),
{
    if i == entries.len() - 1 {
        assert(entries.drop_last() =~= entries.take(i));
    } else {
        assert(entries.drop_last().take(i) =~= entries.take(i));
        lemma_entries_first_error(entries.drop_last(), i);
    }
}

/// Parses a snippet document: a JSON object whose every entry carries a
/// string `prefix` and a `body` that is a string or an array of strings.
/// Returns the store of the entries' records, each filed under its prefix
/// with a later duplicate overwriting an earlier one, or the first error
/// that [`spec_parse`] assigns the text.
pub fn parse(json: &str) -> (r: Result<Snippets, ParseError>)
    ensures
        match r {
            Ok(s) => spec_parse(json@) == Ok::<Seq<SnippetModel>, ParseError>(s.models()),
            Err(e) => spec_parse(json@) == Err::<Seq<SnippetModel>, ParseError>(e),
        },
{
    match read_document(json) {
        Err(_) => Err(ParseError::MalformedInput),
        Ok(doc) => match open_value(&doc) {
            JsonNode::Table(entries) => {
                let ghost em = fields_model(entries@);
                let mut records: Vec<Snippet> = Vec::new();
                proof {
                    assert(em.take(0) =~= Seq::<(Seq<char>, JsonModel)>::empty());
                    assert(records@.map_values(|s: Snippet| s@) =~= Seq::<SnippetModel>::empty());
                }
                let mut i: usize = 0;
                while i < entries.len()
                    invariant
                        i <= entries.len(),
                        em == fields_model(entries@),
                        doc_model(json@) == Some(JsonModel::Table(em)),
                        spec_entries(em.take(i as int)) == Ok::<Seq<SnippetModel>, ParseError>(
                            records@.map_values(|s: Snippet| s@),
                        ),
                    decreases entries.len() - i,
                {
                    let pair = &entries[i];
                    match convert_to_snippet(&pair.0, &pair.1) {
                        Ok(snippet) => {
                            let ghost before = records@.map_values(|s: Snippet| s@);
                            records.push(snippet);
                            proof {
                                assert(em.take(i as int + 1).drop_last() =~= em.take(i as int));
                                assert(records@.map_values(|s: Snippet| s@) =~= before.push(
                                    snippet@,
                                ));
                            }
                        },
                        Err(e) => {
                            proof {
                                assert(*pair == entries@[i as int]);
                                assert(em[i as int] == (pair.0@, value_model(pair.1)));
                                lemma_entries_first_error(em, i as int);
                            }
                            return Err(e);
                        },
                    }
                    i = i + 1;
                }
                proof {
                    assert(em.take(entries@.len() as int) =~= em);
                }
                Ok(Snippets::from_records(records))
            },
            _ => Err(ParseError::MalformedInput),
        },
    }
}

} // verus!
