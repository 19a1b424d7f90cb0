//! Search requests: what they hold and which are refused.

use crate::config::collections::{lookup, Collections};
use crate::config::error::{labelled, ConfigError};
use crate::embedding::error::with_label;
use crate::embedding::EmbedError;
use crate::ingest::error::{quote_keys, quoted_keys, MetadataKey};
use crate::text::{to_chars, trim, trim_spec};
use vstd::prelude::*;

verus! {

/// What one hit stands for.
#[derive(Debug, Clone, Copy, PartialEq, Eq, Structural)]
pub enum SearchLevel {
    /// A document.
    Doc,
    /// A chunk.
    Chunk,
}

impl Default for SearchLevel {
    fn default() -> (level: Self)
        ensures
            level is Doc,
    {
        SearchLevel::Doc
    }
}

/// A search.
#[derive(Debug, Clone, PartialEq, Eq)]
pub struct SearchRequest {
    pub query: String,
    /// The collections to search; none means all.
    pub collections: Vec<String>,
    /// Most hits that are returned.
    pub limit: u32,
    pub level: SearchLevel,
}

/// Why a search failed.
#[derive(Debug)]
pub enum SearchError {
    EmptyQuery,
    InvalidLimit,
    UnknownCollection { name: String },
    SchemaMetadataMissing { absent_keys: Vec<MetadataKey> },
    LancedbPathNotUtf8 { path: String },
    LancedbConnect { path: String, source: String },
    OpenChunksTable(String),
    Query(String),
    Embed(EmbedError),
    Config(ConfigError),
}

impl SearchError {
    /// The text shown to the user.
    pub open spec fn message_spec(self) -> Seq<char> {
        match self {
            SearchError::EmptyQuery => "query must be non-empty"@,
            SearchError::InvalidLimit => "limit must be at least 1"@,
            SearchError::UnknownCollection { name } => "unknown collection: '"@ + name@ + "'"@,
            SearchError::SchemaMetadataMissing { absent_keys } =>
                "schema metadata pin missing: chunks table's Schema::metadata lacks key(s) ["@
                + quoted_keys(absent_keys@)
                + "]. Remove `~/.mdya/index/`, run `mdya init`, and re-run `mdya update-all` to rebuild."@,
            SearchError::LancedbPathNotUtf8 { path } => "LanceDB path "@ + path@
                + " is not valid UTF-8"@,
            SearchError::LancedbConnect { path, source } => "connect LanceDB at "@ + path@ + ": "@
                + source@,
            SearchError::OpenChunksTable(t) => "open chunks table: "@ + t@,
            SearchError::Query(t) => "query chunks: "@ + t@,
            SearchError::Embed(e) => "embedding: "@ + e.message_spec(),
            SearchError::Config(e) => e.message_spec(),
        }
    }

    /// The text shown to the user.
    pub fn message(&self) -> (text: String)
        ensures
            text@ == self.message_spec(),
    {
        proof {
            reveal_strlit("");
        }
        match self {
            SearchError::EmptyQuery => "query must be non-empty".to_string(),
            SearchError::InvalidLimit => "limit must be at least 1".to_string(),
            SearchError::UnknownCollection { name } => labelled(
                "unknown collection: '",
                name,
                "'",
                "",
            ),
            SearchError::SchemaMetadataMissing { absent_keys } => labelled(
                "schema metadata pin missing: chunks table's Schema::metadata lacks key(s) [",
                quote_keys(absent_keys.as_slice()).as_str(),
                "]. Remove `~/.mdya/index/`, run `mdya init`, and re-run `mdya update-all` to rebuild.",
                "",
            ),
            SearchError::LancedbPathNotUtf8 { path } => labelled(
                "LanceDB path ",
                path,
                " is not valid UTF-8",
                "",
            ),
            SearchError::LancedbConnect { path, source } => labelled(
                "connect LanceDB at ",
                path,
                ": ",
                source,
            ),
            SearchError::OpenChunksTable(t) => with_label("open chunks table: ", t),
            SearchError::Query(t) => with_label("query chunks: ", t),
            SearchError::Embed(e) => with_label("embedding: ", e.message().as_str()),
            SearchError::Config(e) => e.message(),
        }
    }
}

/// Collection `i` of the request is the first that the configuration does not
/// have.
pub open spec fn first_unknown(
    request: SearchRequest,
    collections: Collections,
    i: int,
) -> bool {
    &&& 0 <= i < request.collections@.len()
    &&& lookup(collections.list(), request.collections@[i]@) is None
    &&& forall|j: int|
        0 <= j < i ==> lookup(collections.list(), (#[trigger] request.collections@[j])@) is Some
}

/// Refuses a request without a query, without a limit or for a collection that
/// the configuration does not have, in this order.
pub fn validate_request(request: &SearchRequest, collections: &Collections) -> (result: Result<
    (),
    SearchError,
>)
    ensures
        match result {
            Ok(_) => {
                &&& trim_spec(request.query@).len() > 0
                &&& request.limit > 0
                &&& forall|j: int|
                    0 <= j < request.collections@.len() ==> lookup(
                        collections.list(),
                        (#[trigger] request.collections@[j])@,
                    ) is Some
            },
            Err(e) => if trim_spec(request.query@).len() == 0 {
                e is EmptyQuery
            } else if request.limit == 0 {
                e is InvalidLimit
            } else {
                e is UnknownCollection && exists|i: int| #[trigger]
                    first_unknown(*request, *collections, i) && e->name@
                        == request.collections@[i]@
            },
        },
{
    if trim(to_chars(request.query.as_str()).as_slice()).len() == 0 {
        return Err(SearchError::EmptyQuery);
    }
    if request.limit == 0 {
        return Err(SearchError::InvalidLimit);
    }
    for i in 0..request.collections.len()
        invariant
            trim_spec(request.query@).len() > 0,
            request.limit > 0,
            forall|j: int|
                0 <= j < i ==> lookup(
                    collections.list(),
                    (#[trigger] request.collections@[j])@,
                ) is Some,
    {
        if !collections.contains_key(request.collections[i].as_str()) {
            proof {
                assert(first_unknown(*request, *collections, i as int));
            }
            return Err(SearchError::UnknownCollection { name: request.collections[i].clone() });
        }
    }
    Ok(())
}

} // verus!
