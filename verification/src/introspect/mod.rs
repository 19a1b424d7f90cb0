//! Reports on what is stored: the collections with their documents, and the
//! state of the index.

pub mod output;
pub mod output_laws;

use crate::config::collections::{Collections, EntryView};
use crate::config::error::{labelled, ConfigError};
use crate::embedding::error::with_label;
use crate::ingest::error::{quote_keys, quoted_keys, MetadataKey};
use crate::paths::text_view;
use crate::text::{
    debug_text, debug_text_of, decimal_reads_back, decimal_spec, parse_int_spec, parse_u32,
    same_text,
};
use vstd::prelude::*;

verus! {

/// Why a report could not be made.
#[derive(Debug)]
pub enum IntrospectError {
    Config(ConfigError),
    LancedbPathNotUtf8 { path: String },
    LancedbConnect { path: String, source: String },
    OpenTable { table: &'static str, source: String },
    Query { table: &'static str, source: String },
    Schema(String),
    SchemaMetadataMissing { absent_keys: Vec<MetadataKey> },
    MalformedVectorDimPin { value: String },
}

impl IntrospectError {
    /// The text shown to the user.
    pub open spec fn message_spec(self) -> Seq<char> {
        match self {
            IntrospectError::Config(e) => e.message_spec(),
            IntrospectError::LancedbPathNotUtf8 { path } => "LanceDB path "@ + path@
                + " is not valid UTF-8"@,
            IntrospectError::LancedbConnect { path, source } => "connect LanceDB at "@ + path@
                + ": "@ + source@,
            IntrospectError::OpenTable { table, source } => "open "@ + table@ + " table: "@
                + source@,
            IntrospectError::Query { table, source } => "query "@ + table@ + " table: "@ + source@,
            IntrospectError::Schema(t) => "read chunks table schema: "@ + t@,
            IntrospectError::SchemaMetadataMissing { absent_keys } =>
                "schema metadata pin missing: chunks table's Schema::metadata lacks key(s) ["@
                + quoted_keys(absent_keys@)
                + "]. Remove `~/.mdya/index/`, run `mdya init`, and re-run `mdya update-all` to rebuild."@,
            IntrospectError::MalformedVectorDimPin { value } =>
                "chunks table vector_dim pin is not an integer: "@ + debug_text_of(value@),
        }
    }

    /// The text shown to the user.
    pub fn message(&self) -> (text: String)
        ensures
            text@ == self.message_spec(),
    {
        proof {
            reveal_strlit("");
        }
        match self {
            IntrospectError::Config(e) => e.message(),
            IntrospectError::LancedbPathNotUtf8 { path } => labelled(
                "LanceDB path ",
                path,
                " is not valid UTF-8",
                "",
            ),
            IntrospectError::LancedbConnect { path, source } => labelled(
                "connect LanceDB at ",
                path,
                ": ",
                source,
            ),
            IntrospectError::OpenTable { table, source } => labelled(
                "open ",
                table,
                " table: ",
                source,
            ),
            IntrospectError::Query { table, source } => labelled(
                "query ",
                table,
                " table: ",
                source,
            ),
            IntrospectError::Schema(t) => with_label("read chunks table schema: ", t),
            IntrospectError::SchemaMetadataMissing { absent_keys } => labelled(
                "schema metadata pin missing: chunks table's Schema::metadata lacks key(s) [",
                quote_keys(absent_keys.as_slice()).as_str(),
                "]. Remove `~/.mdya/index/`, run `mdya init`, and re-run `mdya update-all` to rebuild.",
                "",
            ),
            IntrospectError::MalformedVectorDimPin { value } => with_label(
                "chunks table vector_dim pin is not an integer: ",
                debug_text(value.as_str()).as_str(),
            ),
        }
    }
}

/// A collection with the number of its documents.
#[derive(Debug, Clone, PartialEq)]
pub struct CollectionInfo {
    pub name: String,
    pub path: String,
    pub description: Option<String>,
    pub document_count: u64,
}

/// The collections, in the order of their names.
#[derive(Debug, Clone, PartialEq)]
pub struct CollectionListReport {
    pub collections: Vec<CollectionInfo>,
}

/// The state of the index.
#[derive(Debug, Clone, PartialEq)]
pub struct StatusReport {
    pub version: String,
    pub embedding_model: String,
    pub vector_dim: u32,
    pub collections: u64,
    pub chunks: u64,
    pub sources: u64,
}

/// How often `name` stands in a column; nulls are `None`.
pub open spec fn occurrences(column: Seq<Option<String>>, name: Seq<char>) -> nat
    decreases column.len(),
{
    if column.len() == 0 {
        0
    } else {
        occurrences(column.drop_last(), name) + (if column.last() is Some
            && column.last()->Some_0@ == name {
            1nat
        } else {
            0nat
        })
    }
}

/// One name and how often it stands in a column.
#[derive(Debug, Clone, PartialEq, Eq)]
pub struct NameCount {
    pub name: String,
    pub count: u64,
}

/// How often each name stands in a column.
#[derive(Debug, Clone, PartialEq, Eq)]
pub struct Tally {
    pub entries: Vec<NameCount>,
}

/// Every name is listed once, with its count, and no name that does not stand
/// in the column.
pub open spec fn tallies(entries: Seq<NameCount>, column: Seq<Option<String>>) -> bool {
    &&& forall|i: int|
        0 <= i < entries.len() ==> {
            &&& (#[trigger] entries[i]).count == occurrences(column, entries[i].name@)
            &&& entries[i].count > 0
        }
    &&& forall|i: int, j: int|
        0 <= i < j < entries.len() ==> (#[trigger] entries[i]).name@ != (
        #[trigger] entries[j]).name@
    &&& forall|name: Seq<char>| #[trigger]
        occurrences(column, name) > 0 ==> exists|i: int|
            0 <= i < entries.len() && (#[trigger] entries[i]).name@ == name
}

impl Tally {
    /// The count of `name`, where it stands in the column at all.
    pub fn get(&self, name: &str) -> (count: Option<u64>)
        ensures
            forall|column: Seq<Option<String>>| #[trigger]
                tallies(self.entries@, column) ==> match count {
                    Some(n) => n == occurrences(column, name@) && n > 0,
                    None => occurrences(column, name@) == 0,
                },
    {
        for i in 0..self.entries.len()
            invariant
                forall|j: int| 0 <= j < i ==> (#[trigger] self.entries@[j]).name@ != name@,
        {
            if same_text(self.entries[i].name.as_str(), name) {
                return Some(self.entries[i].count);
            }
        }
        None
    }
}

/// Counts the documents of each collection, given the collection of each
/// document.
pub fn tally_collections(column: &[Option<String>]) -> (tally: Tally)
    ensures
        tallies(tally.entries@, column@),
{
    let mut entries: Vec<NameCount> = Vec::new();
    let total: usize = column.len();
    for i in 0..total
        invariant
            total == column@.len(),
            tallies(entries@, column@.take(i as int)),
    {
        let ghost seen = column@.take(i as int);
        let ghost next = column@.take(i as int + 1);
        let ghost before = entries@;
        proof {
            assert(next.drop_last() =~= seen);
            assert(next.last() == column@[i as int]);
        }
        if let Some(name) = &column[i] {
            let mut at: usize = 0;
            while at < entries.len() && !same_text(entries[at].name.as_str(), name.as_str())
                invariant
                    at <= entries@.len(),
                    entries@ == before,
                    forall|j: int| 0 <= j < at ==> (#[trigger] entries@[j]).name@ != name@,
                decreases entries@.len() - at,
            {
                at = at + 1;
            }
            if at < entries.len() {
                let count: u64 = entries[at].count;
                proof {
                    occurrences_bounded(seen, name@);
                    assert(count == occurrences(seen, name@));
                }
                let kept: String = entries[at].name.clone();
                entries.set(at, NameCount { name: kept, count: count + 1 });
                proof {
                    tally_grows(before, entries@, seen, next, at as int);
                }
            } else {
                entries.push(NameCount { name: name.clone(), count: 1 });
                proof {
                    tally_starts(before, entries@, seen, next, name@);
                }
            }
        } else {
            proof {
                assert forall|n: Seq<char>| #[trigger]
                    occurrences(next, n) == occurrences(seen, n) by {}
                assert(tallies(entries@, next));
            }
        }
    }
    proof {
        assert(column@.take(column@.len() as int) =~= column@);
    }
    Tally { entries }
}

proof fn occurrences_bounded(column: Seq<Option<String>>, name: Seq<char>)
    ensures
        occurrences(column, name) <= column.len(),
    decreases column.len(),
{
    if column.len() > 0 {
        occurrences_bounded(column.drop_last(), name);
    }
}

proof fn tally_grows(
    before: Seq<NameCount>,
    after: Seq<NameCount>,
    seen: Seq<Option<String>>,
    next: Seq<Option<String>>,
    at: int,
)
    requires
        tallies(before, seen),
        next.len() > 0,
        next.drop_last() == seen,
        next.last() is Some,
        0 <= at < before.len(),
        before[at].name@ == next.last()->Some_0@,
        after.len() == before.len(),
        after[at].name@ == before[at].name@,
        after[at].count == before[at].count + 1,
        forall|i: int| 0 <= i < before.len() && i != at ==> #[trigger] after[i] == before[i],
    ensures
        tallies(after, next),
{
    let name = next.last()->Some_0@;
    assert forall|i: int| 0 <= i < after.len() implies {
        &&& (#[trigger] after[i]).count == occurrences(next, after[i].name@)
        &&& after[i].count > 0
    } by {
        assert(after[i].name@ == before[i].name@);
        if i != at {
            assert(before[i].name@ != name) by {
                if i < at {
                    assert(before[i].name@ != before[at].name@);
                } else {
                    assert(before[at].name@ != before[i].name@);
                }
            }
        }
    }
    assert forall|i: int, j: int| 0 <= i < j < after.len() implies (#[trigger] after[i]).name@ != (
    #[trigger] after[j]).name@ by {
        assert(after[i].name@ == before[i].name@ && after[j].name@ == before[j].name@);
    }
    assert forall|n: Seq<char>| #[trigger] occurrences(next, n) > 0 implies exists|i: int|
        0 <= i < after.len() && (#[trigger] after[i]).name@ == n by {
        if n == name {
            assert(after[at].name@ == n);
        } else {
            assert(occurrences(seen, n) > 0);
            let i = choose|i: int| 0 <= i < before.len() && (#[trigger] before[i]).name@ == n;
            assert(after[i].name@ == n);
        }
    }
}

proof fn tally_starts(
    before: Seq<NameCount>,
    after: Seq<NameCount>,
    seen: Seq<Option<String>>,
    next: Seq<Option<String>>,
    name: Seq<char>,
)
    requires
        tallies(before, seen),
        next.len() > 0,
        next.drop_last() == seen,
        next.last() is Some,
        next.last()->Some_0@ == name,
        forall|i: int| 0 <= i < before.len() ==> (#[trigger] before[i]).name@ != name,
        after.len() == before.len() + 1,
        after.last().name@ == name,
        after.last().count == 1,
        forall|i: int| 0 <= i < before.len() ==> #[trigger] after[i] == before[i],
    ensures
        tallies(after, next),
{
    assert(occurrences(seen, name) == 0);
    assert forall|i: int| 0 <= i < after.len() implies {
        &&& (#[trigger] after[i]).count == occurrences(next, after[i].name@)
        &&& after[i].count > 0
    } by {
        if i < before.len() {
            assert(before[i].name@ != name);
        }
    }
    assert forall|i: int, j: int| 0 <= i < j < after.len() implies (#[trigger] after[i]).name@ != (
    #[trigger] after[j]).name@ by {
        if j < before.len() {
            assert(before[i].name@ != before[j].name@);
        } else {
            assert(before[i].name@ != name);
        }
    }
    assert forall|n: Seq<char>| #[trigger] occurrences(next, n) > 0 implies exists|i: int|
        0 <= i < after.len() && (#[trigger] after[i]).name@ == n by {
        if n == name {
            assert(after[after.len() - 1].name@ == n);
        } else {
            assert(occurrences(seen, n) > 0);
            let i = choose|i: int| 0 <= i < before.len() && (#[trigger] before[i]).name@ == n;
            assert(after[i].name@ == n);
        }
    }
}

/// `info` reports a collection with its documents.
pub open spec fn reports(
    info: CollectionInfo,
    pair: (Seq<char>, EntryView),
    column: Seq<Option<String>>,
) -> bool {
    &&& info.name@ == pair.0
    &&& info.path@ == pair.1.path
    &&& text_view(info.description) == pair.1.description
    &&& info.document_count == occurrences(column, pair.0)
}

/// The report on the collections, given the collection of each document: one
/// entry per collection of the configuration, in order; documents of other
/// collections are not reported.
pub fn collection_list(collections: &Collections, column: &[Option<String>]) -> (report:
    CollectionListReport)
    ensures
        report.collections@.len() == collections.list().len(),
        forall|i: int|
            0 <= i < collections.list().len() ==> reports(
                #[trigger] report.collections@[i],
                collections.list()[i],
                column@,
            ),
{
    let tally: Tally = tally_collections(column);
    let count: usize = collections.len();
    let mut infos: Vec<CollectionInfo> = Vec::new();
    for i in 0..count
        invariant
            count == collections.list().len(),
            tallies(tally.entries@, column@),
            infos@.len() == i,
            forall|j: int|
                0 <= j < i ==> reports(
                    #[trigger] infos@[j],
                    collections.list()[j],
                    column@,
                ),
    {
        let name: &String = collections.name_at(i);
        let entry = collections.entry_at(i).clone();
        let document_count: u64 = match tally.get(name.as_str()) {
            Some(n) => n,
            None => 0,
        };
        infos.push(
            CollectionInfo {
                name: name.clone(),
                path: entry.path,
                description: entry.description,
                document_count,
            },
        );
    }
    CollectionListReport { collections: infos }
}

/// The pins that are absent, in order.
pub open spec fn absent_keys_spec(model: bool, dim: bool) -> Seq<MetadataKey> {
    (if model {
        Seq::empty()
    } else {
        seq![MetadataKey::EmbeddingModel]
    }) + (if dim {
        Seq::empty()
    } else {
        seq![MetadataKey::VectorDim]
    })
}

/// The pins that are absent.
pub fn absent_pin_keys(model: Option<&String>, dim: Option<&String>) -> (absent: Vec<MetadataKey>)
    ensures
        absent@ == absent_keys_spec(model is Some, dim is Some),
{
    let mut absent: Vec<MetadataKey> = Vec::new();
    if model.is_none() {
        absent.push(MetadataKey::EmbeddingModel);
    }
    if dim.is_none() {
        absent.push(MetadataKey::VectorDim);
    }
    proof {
        assert(absent@ =~= absent_keys_spec(model is Some, dim is Some));
    }
    absent
}

/// A pin that spells a vector length.
pub open spec fn is_dim_pin(pin: Seq<char>) -> bool {
    parse_int_spec(pin) is Some && pin[0] != '-' && parse_int_spec(pin)->Some_0 <= u32::MAX
}

/// A vector length that was pinned in decimal is read back as itself.
pub proof fn pinned_dim_reads_back(dim: u32)
    ensures
        is_dim_pin(decimal_spec(dim as nat)),
        parse_int_spec(decimal_spec(dim as nat)) == Some(dim as int),
{
    decimal_reads_back(dim as nat);
}

/// The model and the vector length that the table's metadata pins.
pub fn read_pins(model: Option<&String>, dim: Option<&String>) -> (result: Result<
    (String, u32),
    IntrospectError,
>)
    ensures
        match result {
            Ok((m, d)) => {
                &&& model is Some
                &&& dim is Some
                &&& m@ == model->Some_0@
                &&& is_dim_pin(dim->Some_0@)
                &&& parse_int_spec(dim->Some_0@) == Some(d as int)
            },
            Err(e) => if model is None || dim is None {
                e is SchemaMetadataMissing && e->absent_keys@ == absent_keys_spec(
                    model is Some,
                    dim is Some,
                )
            } else {
                !is_dim_pin(dim->Some_0@) && e is MalformedVectorDimPin && e->value@
                    == dim->Some_0@
            },
        },
{
    match (model, dim) {
        (Some(m), Some(d)) => match parse_u32(d.as_str()) {
            Some(vector_dim) => Ok((m.clone(), vector_dim)),
            None => Err(IntrospectError::MalformedVectorDimPin { value: d.clone() }),
        },
        _ => Err(
            IntrospectError::SchemaMetadataMissing { absent_keys: absent_pin_keys(model, dim) },
        ),
    }
}

/// The report on the index.
pub fn status_report(
    version: &str,
    pins: (String, u32),
    collections: &Collections,
    chunks: u64,
    sources: u64,
) -> (report: StatusReport)
    ensures
        report.version@ == version@,
        report.embedding_model == pins.0,
        report.vector_dim == pins.1,
        report.collections == collections.list().len(),
        report.chunks == chunks,
        report.sources == sources,
{
    StatusReport {
        version: version.to_string(),
        embedding_model: pins.0,
        vector_dim: pins.1,
        collections: collections.len() as u64,
        chunks,
        sources,
    }
}

/// The number of documents of a collection is the number of places of the column
/// that hold its name, wherever and however many they are.
pub proof fn every_document_is_counted(column: Seq<Option<String>>, name: Seq<char>)
    ensures
        occurrences(column, name) == column.filter(
            |c: Option<String>| text_view(c) == Some(name),
        ).len(),
    decreases column.len(),
{
    reveal(Seq::filter);
    if column.len() > 0 {
        every_document_is_counted(column.drop_last(), name);
    }
}

/// A collection is reported under its own name, path and description, with the
/// number of its own documents.
pub proof fn collection_is_reported_as_it_is(
    info: CollectionInfo,
    pair: (Seq<char>, EntryView),
    column: Seq<Option<String>>,
)
    requires
        reports(info, pair, column),
    ensures
        info.name@ == pair.0,
        info.path@ == pair.1.path,
        text_view(info.description) == pair.1.description,
        info.document_count == column.filter(
            |c: Option<String>| text_view(c) == Some(pair.0),
        ).len(),
{
    every_document_is_counted(column, pair.0);
}

/// A pin is reported as absent exactly where it is, the model's before the
/// length's, and each once.
pub proof fn absent_pins_are_named(model: bool, dim: bool)
    ensures
        absent_keys_spec(model, dim).contains(MetadataKey::EmbeddingModel) <==> !model,
        absent_keys_spec(model, dim).contains(MetadataKey::VectorDim) <==> !dim,
        absent_keys_spec(model, dim).no_duplicates(),
        !model ==> absent_keys_spec(model, dim)[0] == MetadataKey::EmbeddingModel,
{
    let keys = absent_keys_spec(model, dim);
    if !model {
        assert(keys[0] == MetadataKey::EmbeddingModel);
    }
    if !dim {
        assert(keys[keys.len() - 1] == MetadataKey::VectorDim);
    }
}

} // verus!
