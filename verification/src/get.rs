//! Lookup of a stored document or chunk: what is found, what is missing and
//! what is too large.

use crate::config::collections::{lookup, Collections};
use crate::config::error::{labelled, ConfigError};
use crate::embedding::error::with_label;
use crate::reading::{behind, find_number, find_skips, number_behind, split_at_stop, upto};
use crate::text::{decimal, decimal_spec, is_digit};
use vstd::prelude::*;
use vstd::string::StringExecFns;
use vstd::utf8::encode_utf8;

verus! {

/// Why a document or chunk was not returned.
#[derive(Debug)]
pub enum GetError {
    Config(ConfigError),
    UnknownCollection { name: String },
    LancedbPathNotUtf8 { path: String },
    LancedbConnect { path: String, source: String },
    OpenSourcesTable(String),
    QuerySources(String),
    OpenChunksTable(String),
    QueryChunks(String),
    NotFound { collection: String, path: String },
    ChunkNotFound { collection: String, path: String, chunk_sequence: u32 },
    DocumentTooLarge { size_bytes: u64, limit_bytes: u64 },
}

impl GetError {
    /// The text shown to the user.
    pub open spec fn message_spec(self) -> Seq<char> {
        match self {
            GetError::Config(e) => e.message_spec(),
            GetError::UnknownCollection { name } => "unknown collection: '"@ + name@ + "'"@,
            GetError::LancedbPathNotUtf8 { path } => "LanceDB path "@ + path@
                + " is not valid UTF-8"@,
            GetError::LancedbConnect { path, source } => "connect LanceDB at "@ + path@ + ": "@
                + source@,
            GetError::OpenSourcesTable(t) => "open sources table: "@ + t@,
            GetError::QuerySources(t) => "query sources: "@ + t@,
            GetError::OpenChunksTable(t) => "open chunks table: "@ + t@,
            GetError::QueryChunks(t) => "query chunks: "@ + t@,
            GetError::NotFound { collection, path } => "document not found: "@ + collection@ + "/"@
                + path@,
            GetError::ChunkNotFound { collection, path, chunk_sequence } => "chunk "@
                + decimal_spec(chunk_sequence as nat) + " not found in "@ + collection@ + "/"@
                + path@,
            GetError::DocumentTooLarge { size_bytes, limit_bytes } => "document too large: "@
                + decimal_spec(size_bytes as nat) + " bytes exceeds the "@ + decimal_spec(
                limit_bytes as nat,
            ) + "-byte limit"@,
        }
    }

    /// The text shown to the user.
    pub fn message(&self) -> (text: String)
        ensures
            text@ == self.message_spec(),
    {
        proof {
            reveal_strlit("");
        }
        match self {
            GetError::Config(e) => e.message(),
            GetError::UnknownCollection { name } => labelled("unknown collection: '", name, "'", ""),
            GetError::LancedbPathNotUtf8 { path } => labelled(
                "LanceDB path ",
                path,
                " is not valid UTF-8",
                "",
            ),
            GetError::LancedbConnect { path, source } => labelled(
                "connect LanceDB at ",
                path,
                ": ",
                source,
            ),
            GetError::OpenSourcesTable(t) => with_label("open sources table: ", t),
            GetError::QuerySources(t) => with_label("query sources: ", t),
            GetError::OpenChunksTable(t) => with_label("open chunks table: ", t),
            GetError::QueryChunks(t) => with_label("query chunks: ", t),
            GetError::NotFound { collection, path } => labelled(
                "document not found: ",
                collection,
                "/",
                path,
            ),
            GetError::ChunkNotFound { collection, path, chunk_sequence } => {
                let mut text: String = labelled(
                    "chunk ",
                    decimal(*chunk_sequence as u64).as_str(),
                    " not found in ",
                    collection,
                );
                text.append("/");
                text.append(path.as_str());
                text
            },
            GetError::DocumentTooLarge { size_bytes, limit_bytes } => {
                let mut text: String = labelled(
                    "document too large: ",
                    decimal(*size_bytes).as_str(),
                    " bytes exceeds the ",
                    decimal(*limit_bytes).as_str(),
                );
                text.append("-byte limit");
                text
            },
        }
    }
}

/// The limit to enforce; zero switches it off.
pub fn configured_size_limit(max_bytes: u64) -> (limit: Option<u64>)
    ensures
        limit == (if max_bytes == 0 {
            None
        } else {
            Some(max_bytes)
        }),
{
    if max_bytes != 0 {
        Some(max_bytes)
    } else {
        None
    }
}

/// Refuses a text with more bytes than the limit.
pub fn check_size_limit(content: &str, limit: Option<u64>) -> (result: Result<(), GetError>)
    ensures
        match result {
            Ok(_) => limit is None || encode_utf8(content@).len() <= limit->Some_0,
            Err(e) => {
                &&& limit is Some
                &&& encode_utf8(content@).len() > limit->Some_0
                &&& e is DocumentTooLarge
                &&& e->size_bytes == encode_utf8(content@).len()
                &&& e->limit_bytes == limit->Some_0
            },
        },
{
    let limit_bytes: u64 = match limit {
        Some(limit_bytes) => limit_bytes,
        None => {
            return Ok(());
        },
    };
    let size_bytes: u64 = content.as_bytes().len() as u64;
    if size_bytes > limit_bytes {
        return Err(GetError::DocumentTooLarge { size_bytes, limit_bytes });
    }
    Ok(())
}

/// Refuses a collection that the configuration does not have.
pub fn require_collection(collections: &Collections, name: &str) -> (result: Result<(), GetError>)
    ensures
        match result {
            Ok(_) => lookup(collections.list(), name@) is Some,
            Err(e) => lookup(collections.list(), name@) is None && e is UnknownCollection
                && e->name@ == name@,
        },
{
    if collections.contains_key(name) {
        Ok(())
    } else {
        Err(GetError::UnknownCollection { name: name.to_string() })
    }
}

/// Batch `i` is the first whose first row holds a value.
pub open spec fn first_filled(batches: Seq<Vec<Option<String>>>, i: int) -> bool {
    &&& 0 <= i < batches.len()
    &&& leads_with_value(batches[i]@)
    &&& forall|j: int| 0 <= j < i ==> !leads_with_value((#[trigger] batches[j])@)
}

/// The first row of a column is there and no null.
pub open spec fn leads_with_value(column: Seq<Option<String>>) -> bool {
    column.len() > 0 && column[0] is Some
}

/// The first value of a query's result, given the column of each batch; a null
/// is `None`.
pub fn first_string_column(batches: &[Vec<Option<String>>]) -> (value: Option<String>)
    ensures
        match value {
            Some(v) => exists|i: int| #[trigger]
                first_filled(batches@, i) && batches@[i]@[0]->Some_0@ == v@,
            None => forall|j: int|
                0 <= j < batches@.len() ==> !leads_with_value((#[trigger] batches@[j])@),
        },
{
    for i in 0..batches.len()
        invariant
            forall|j: int| 0 <= j < i ==> !leads_with_value((#[trigger] batches@[j])@),
    {
        let column: &Vec<Option<String>> = &batches[i];
        if column.len() > 0 {
            if let Some(text) = &column[0] {
                proof {
                    assert(first_filled(batches@, i as int));
                }
                return Some(text.clone());
            }
        }
    }
    None
}

/// The document that was looked up, or the error that there is none.
pub fn found_document(collection: &str, path: &str, found: Option<String>) -> (result: Result<
    String,
    GetError,
>)
    ensures
        match found {
            Some(text) => result == Ok::<String, GetError>(text),
            None => result matches Err(GetError::NotFound { collection: c, path: p }) && c@
                == collection@ && p@ == path@,
        },
{
    match found {
        Some(text) => Ok(text),
        None => Err(
            GetError::NotFound { collection: collection.to_string(), path: path.to_string() },
        ),
    }
}

/// The chunk that was looked up, or the error that there is none.
pub fn found_chunk(
    collection: &str,
    path: &str,
    chunk_sequence: u32,
    found: Option<String>,
) -> (result: Result<String, GetError>)
    ensures
        match found {
            Some(text) => result == Ok::<String, GetError>(text),
            None => result matches Err(
                GetError::ChunkNotFound { collection: c, path: p, chunk_sequence: n },
            ) && c@ == collection@ && p@ == path@ && n == chunk_sequence,
        },
{
    match found {
        Some(text) => Ok(text),
        None => Err(
            GetError::ChunkNotFound {
                collection: collection.to_string(),
                path: path.to_string(),
                chunk_sequence,
            },
        ),
    }
}

/// The text for a document of this size above this limit.
pub open spec fn too_large_message(size: u64, limit: u64) -> Seq<char> {
    (GetError::DocumentTooLarge { size_bytes: size, limit_bytes: limit }).message_spec()
}

/// The text for a document that is not there names the collection, then the path.
pub proof fn not_found_names_the_document(collection: String, path: String)
    requires
        !collection@.contains('/'),
    ensures
        ({
            let text = (GetError::NotFound { collection, path }).message_spec();
            let head = "document not found: "@;
            &&& head.is_prefix_of(text)
            &&& upto(text.skip(head.len() as int), '/') == collection@
            &&& behind(text.skip(head.len() as int), '/') == path@
        }),
{
    let text = (GetError::NotFound { collection, path }).message_spec();
    let head = "document not found: "@;
    assert("/"@ =~= seq!['/']) by {
        reveal_strlit("/");
    }
    assert(text.skip(head.len() as int) =~= collection@ + seq!['/'] + path@);
    split_at_stop(collection@, '/', path@);
}

/// The text for a chunk that is not there names its number, the collection and
/// the path.
pub proof fn chunk_not_found_names_the_chunk(collection: String, path: String, n: u32)
    requires
        !collection@.contains('/'),
    ensures
        ({
            let text = (GetError::ChunkNotFound { collection, path, chunk_sequence: n }).message_spec();
            let head = "chunk "@ + decimal_spec(n as nat) + " not found in "@;
            &&& head.is_prefix_of(text)
            &&& upto(text.skip(head.len() as int), '/') == collection@
            &&& behind(text.skip(head.len() as int), '/') == path@
        }),
{
    let text = (GetError::ChunkNotFound { collection, path, chunk_sequence: n }).message_spec();
    let head = "chunk "@ + decimal_spec(n as nat) + " not found in "@;
    assert("/"@ =~= seq!['/']) by {
        reveal_strlit("/");
    }
    assert(text.skip(head.len() as int) =~= collection@ + seq!['/'] + path@);
    split_at_stop(collection@, '/', path@);
}

/// The text for a document above the limit tells its size, then the limit.
pub proof fn too_large_message_tells_both_sizes(size: u64, limit: u64)
    ensures
        ({
            let text = too_large_message(size, limit);
            let head = "document too large: "@;
            let middle = " bytes exceeds the "@;
            &&& (head + decimal_spec(size as nat) + middle + decimal_spec(
                limit as nat,
            )).is_prefix_of(text)
            &&& number_behind(text, ": "@) == Some(size as int)
        }),
{
    let text = too_large_message(size, limit);
    let head = "document too large"@;
    let mark = ": "@;
    let middle = " bytes exceeds the "@;
    assert("document too large: "@ =~= head + mark && !head.contains(':') && mark.len() == 2
        && mark[0] == ':') by {
        reveal_strlit("document too large: ");
        reveal_strlit("document too large");
        reveal_strlit(": ");
    }
    assert(middle.len() > 0 && !is_digit(middle[0])) by {
        reveal_strlit(" bytes exceeds the ");
    }
    let rest = middle + decimal_spec(limit as nat) + "-byte limit"@;
    assert(text =~= head + (mark + (decimal_spec(size as nat) + rest)));
    find_skips(head, mark + (decimal_spec(size as nat) + rest), mark);
    assert(rest[0] == middle[0]);
    find_number(mark, size as nat, rest);
}

} // verus!
