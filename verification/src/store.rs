//! The snippet record and the prefix-keyed store.

use vstd::prelude::*;

verus! {

/// The mathematical image of one snippet record: every field as a sequence
/// of characters.
pub ghost struct SnippetModel {
    pub name: Seq<char>,
    pub prefix: Seq<char>,
    pub description: Seq<char>,
    pub body: Seq<char>,
}

/// One parsed snippet record. `prefix` is the lookup key; `body` is the
/// expansion text, already normalized to a single string; `name` and
/// `description` are informational.
#[derive(Debug)]
pub struct Snippet {
    pub name: String,
    pub prefix: String,
    pub description: String,
    pub body: String,
}

impl View for Snippet {
    type V = SnippetModel;

    open spec fn view(&self) -> SnippetModel {
        SnippetModel {
            name: self.name@,
            prefix: self.prefix@,
            description: self.description@,
            body: self.body@,
        }
    }
}

/// The mapping that a sequence of records denotes once each is filed under
/// its prefix, in order: a later record with the same prefix overwrites an
/// earlier one.
pub open spec fn store_of(records: Seq<SnippetModel>) -> Map<Seq<char>, SnippetModel>
    decreases records.len(),
{
    if records.len() == 0 {
        Map::empty()
    } else {
        store_of(records.drop_last()).insert(records.last().prefix, records.last())
    }
}

/// A store of snippets, queried by prefix. Built once by [`crate::parse`];
/// its view is the mapping from each stored prefix to the last record that
/// carries it.
#[derive(Debug)]
pub struct Snippets {
    snippets: Vec<Snippet>,
}

impl View for Snippets {
    type V = Map<Seq<char>, SnippetModel>;

    open spec fn view(&self) -> Map<Seq<char>, SnippetModel> {
        store_of(self.models())
    }
}

impl Snippets {
    /// The stored records, in the order the document supplied them.
    pub closed spec fn models(&self) -> Seq<SnippetModel> {
        self.snippets@.map_values(|s: Snippet| s@)
    }

    /// Files the given records, in order, as a store.
    pub(crate) fn from_records(records: Vec<Snippet>) -> (r: Snippets)
        ensures
            r.models() == records@.map_values(|s: Snippet| s@),
    {
        Snippets { snippets: records }
    }

    /// The index of the last record whose prefix is `prefix`, if any.
    fn find_last(&self, prefix: &str) -> (r: Option<usize>)
        ensures
            match r {
                Some(i) => {
                    &&& i < self.models().len()
                    &&& self.models()[i as int].prefix == prefix@
                    &&& forall|j: int|
                        i < j < self.models().len() ==> self.models()[j].prefix != prefix@
                },
                None => forall|j: int|
                    0 <= j < self.models().len() ==> self.models()[j].prefix != prefix@,
            },
    {
        let wanted = String::from_str(prefix);
        let mut i: usize = self.snippets.len();
        while i > 0
            invariant
                i <= self.snippets.len(),
                wanted@ == prefix@,
                forall|j: int|
                    i <= j < self.models().len() ==> self.models()[j].prefix != prefix@,
            decreases i,
        {
            i = i - 1;
            if self.snippets[i].prefix == wanted {
                return Some(i);
            }
        }
        None
    }

    /// The record stored under `prefix`, which must be present.
    pub fn get(&self, prefix: &str) -> (r: &Snippet)
        requires
            self@.contains_key(prefix@),
        ensures
            r@ == self@[prefix@],
    {
        proof {
            lemma_store_of_lookup(self.models(), prefix@);
        }
        match self.find_last(prefix) {
            Some(i) => {
                proof {
                    lemma_store_of_last_wins(self.models(), i as int);
                }
                &self.snippets[i]
            },
            None => {
                proof {
                    assert(false);
                }
                &self.snippets[0]
            },
        }
    }

    /// The body stored under `prefix`, or the empty string when no record
    /// carries that prefix. Never fails.
    pub fn get_body(&self, prefix: &str) -> (r: String)
        ensures
            self@.contains_key(prefix@) ==> r@ == self@[prefix@].body,
            !self@.contains_key(prefix@) ==> r@ == Seq::<char>::empty(),
    {
        proof {
            lemma_store_of_lookup(self.models(), prefix@);
        }
        match self.find_last(prefix) {
            Some(i) => {
                proof {
                    lemma_store_of_last_wins(self.models(), i as int);
                }
                self.snippets[i].body.clone()
            },
            None => String::new(),
        }
    }
}

/// A prefix is a key of the store exactly when some record carries it.
pub proof fn lemma_store_of_lookup(records: Seq<SnippetModel>, p: Seq<char>)
    ensures
        store_of(records).contains_key(p) <==> exists|i: int|
            0 <= i < records.len() && records[i].prefix == p,
    decreases records.len(),
{
    if records.len() > 0 {
        lemma_store_of_lookup(records.drop_last(), p);
        if records.last().prefix != p {
            assert(store_of(records).contains_key(p) <==> store_of(
                records.drop_last(),
            ).contains_key(p));
            if exists|i: int| 0 <= i < records.len() && records[i].prefix == p {
                let i = choose|i: int| 0 <= i < records.len() && records[i].prefix == p;
                assert(records.drop_last()[i] == records[i]);
            }
        }
    }
}

/// Every record is filed under its own prefix: the store never serves a
/// record whose prefix differs from the queried key.
pub proof fn lemma_store_key_matches_prefix(records: Seq<SnippetModel>, k: Seq<char>)
    requires
        store_of(records).contains_key(k),
    ensures
        store_of(records)[k].prefix == k,
    decreases records.len(),
{
    if records.len() > 0 && records.last().prefix != k {
        lemma_store_key_matches_prefix(records.drop_last(), k);
    }
}

/// The store maps a prefix to the last record that carries it: the record at
/// an index after which no record repeats its prefix is the one stored.
pub proof fn lemma_store_of_last_wins(records: Seq<SnippetModel>, i: int)
    requires
        0 <= i < records.len(),
        forall|j: int| i < j < records.len() ==> records[j].prefix != records[i].prefix,
    ensures
        store_of(records).contains_key(records[i].prefix),
        store_of(records)[records[i].prefix] == records[i],
    decreases records.len(),
{
    if i == records.len() - 1 {
    } else {
        assert(forall|j: int|
            i < j < records.drop_last().len() ==> records.drop_last()[j].prefix
                != records.drop_last()[i].prefix);
        lemma_store_of_last_wins(records.drop_last(), i);
        assert(records.last().prefix != records[i].prefix);
    }
}

} // verus!
