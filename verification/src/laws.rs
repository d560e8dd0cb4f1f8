//! Laws of the parse-then-lookup pipeline, stated over the spec model and
//! proved once for all inputs.

use vstd::prelude::*;

use crate::json::JsonModel;
use crate::parser::ParseError;
use crate::parser::all_strings;
use crate::parser::join_with_space;
use crate::parser::spec_body;
use crate::parser::spec_entries;
use crate::parser::spec_extract_body;
use crate::parser::spec_field;
use crate::parser::spec_snippet;
use crate::parser::string_items;
use crate::store::SnippetModel;
use crate::store::lemma_store_of_last_wins;
use crate::store::store_of;

verus! {

/// A document whose every entry yields a record parses as a whole, to one
/// record per entry, in the document's order.
pub proof fn lemma_valid_entries_parse(entries: Seq<(Seq<char>, JsonModel)>)
    requires
        forall|i: int| 0 <= i < entries.len() ==> spec_snippet(entries[i].0, entries[i].1) is Ok,
    ensures
        spec_entries(entries) is Ok,
        spec_entries(entries)->Ok_0.len() == entries.len(),
        forall|i: int|
            0 <= i < entries.len() ==> spec_entries(entries)->Ok_0[i] == spec_snippet(
                entries[i].0,
                entries[i].1,
            )->Ok_0,
    decreases entries.len(),
{
    if entries.len() > 0 {
        lemma_valid_entries_parse(entries.drop_last());
    }
}

/// For a document whose every entry yields a record, the store built from the
/// parse serves each entry's prefix; the entry served is the one, and the
/// body served is the body of the one, that carries the prefix last.
pub proof fn lemma_store_serves_every_entry(entries: Seq<(Seq<char>, JsonModel)>, i: int)
    requires
        forall|j: int| 0 <= j < entries.len() ==> spec_snippet(entries[j].0, entries[j].1) is Ok,
        0 <= i < entries.len(),
        forall|j: int|
            i < j < entries.len() ==> spec_snippet(entries[j].0, entries[j].1)->Ok_0.prefix
                != spec_snippet(entries[i].0, entries[i].1)->Ok_0.prefix,
    ensures
        store_of(spec_entries(entries)->Ok_0).contains_key(
            spec_snippet(entries[i].0, entries[i].1)->Ok_0.prefix,
        ),
        store_of(spec_entries(entries)->Ok_0)[spec_snippet(entries[i].0, entries[i].1)->Ok_0.prefix]
            == spec_snippet(entries[i].0, entries[i].1)->Ok_0,
{
    lemma_valid_entries_parse(entries);
    lemma_store_of_last_wins(spec_entries(entries)->Ok_0, i);
}

/// When two records share a prefix and the later is the last to carry it,
/// the store serves the later one.
pub proof fn lemma_duplicate_prefix_last_wins(records: Seq<SnippetModel>, i: int, j: int)
    requires
        0 <= i < j < records.len(),
        records[i].prefix == records[j].prefix,
        forall|k: int| j < k < records.len() ==> records[k].prefix != records[j].prefix,
    ensures
        store_of(records).contains_key(records[j].prefix),
        store_of(records)[records[j].prefix] == records[j],
{
    lemma_store_of_last_wins(records, j);
}

/// A body given as a single string passes through unchanged.
pub proof fn lemma_body_string_verbatim(s: Seq<char>)
    ensures
        spec_body(JsonModel::Text(s)) == Ok::<Seq<char>, ParseError>(s),
{
}

/// A body given as an array of strings is their join, in the array's order,
/// with a single space between neighbours.
pub proof fn lemma_body_array_joined(items: Seq<JsonModel>)
    requires
        all_strings(items),
    ensures
        spec_body(JsonModel::List(items)) == Ok::<Seq<char>, ParseError>(
            join_with_space(string_items(items)),
        ),
{
}

/// A missing `description` never fails an otherwise valid entry: the record
/// is produced, its description defaults to empty, and its body is the body
/// the entry's `body` field yields, unaffected by the absence.
pub proof fn lemma_description_optional(name: Seq<char>, fields: Seq<(Seq<char>, JsonModel)>)
    requires
        spec_field(fields, "description"@) is None,
        spec_field(fields, "prefix"@) matches Some(JsonModel::Text(_)),
        spec_extract_body(JsonModel::Table(fields)) is Ok,
    ensures
        spec_snippet(name, JsonModel::Table(fields)) is Ok,
        spec_snippet(name, JsonModel::Table(fields))->Ok_0.description == Seq::<char>::empty(),
        spec_snippet(name, JsonModel::Table(fields))->Ok_0.body == spec_extract_body(
            JsonModel::Table(fields),
        )->Ok_0,
{
}

} // verus!
