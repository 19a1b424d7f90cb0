//! The error that every tool answers with: a stable code, the text and the
//! particulars.

use crate::get::GetError;
use crate::ingest::error::MetadataKey;
use crate::introspect::IntrospectError;
use crate::search::SearchError;
use vstd::prelude::*;

verus! {

/// What a client can tell errors apart by.
#[derive(Debug, Clone, Copy, PartialEq, Eq, Structural)]
pub enum McpErrorCode {
    EmptyQuery,
    InvalidLimit,
    UnknownCollection,
    NotFound,
    PayloadTooLarge,
    SchemaMetadataMissing,
    Internal,
}

impl McpErrorCode {
    /// The code as it is sent.
    pub open spec fn token_spec(self) -> Seq<char> {
        match self {
            McpErrorCode::EmptyQuery => "empty_query"@,
            McpErrorCode::InvalidLimit => "invalid_limit"@,
            McpErrorCode::UnknownCollection => "unknown_collection"@,
            McpErrorCode::NotFound => "not_found"@,
            McpErrorCode::PayloadTooLarge => "payload_too_large"@,
            McpErrorCode::SchemaMetadataMissing => "schema_metadata_missing"@,
            McpErrorCode::Internal => "internal"@,
        }
    }

    /// The code as it is sent.
    pub fn token(&self) -> (token: &'static str)
        ensures
            token@ == self.token_spec(),
    {
        match self {
            McpErrorCode::EmptyQuery => "empty_query",
            McpErrorCode::InvalidLimit => "invalid_limit",
            McpErrorCode::UnknownCollection => "unknown_collection",
            McpErrorCode::NotFound => "not_found",
            McpErrorCode::PayloadTooLarge => "payload_too_large",
            McpErrorCode::SchemaMetadataMissing => "schema_metadata_missing",
            McpErrorCode::Internal => "internal",
        }
    }
}

/// The value of one particular.
#[derive(Debug, Clone, PartialEq, Eq)]
pub enum DetailValue {
    Text(String),
    Number(u64),
    Keys(Vec<MetadataKey>),
}

/// One particular of an error, by name.
#[derive(Debug, Clone, PartialEq, Eq)]
pub struct Detail {
    pub key: &'static str,
    pub value: DetailValue,
}

/// The error that a tool answers with. `details` is left out where the code
/// says all.
#[derive(Debug, Clone, PartialEq, Eq)]
pub struct McpToolError {
    pub code: McpErrorCode,
    pub message: String,
    pub details: Option<Vec<Detail>>,
}

/// A particular with its texts as character sequences.
pub enum DetailView {
    Text(Seq<char>, Seq<char>),
    Number(Seq<char>, int),
    Keys(Seq<char>, Seq<MetadataKey>),
}

impl View for Detail {
    type V = DetailView;

    open spec fn view(&self) -> DetailView {
        match self.value {
            DetailValue::Text(t) => DetailView::Text(self.key@, t@),
            DetailValue::Number(n) => DetailView::Number(self.key@, n as int),
            DetailValue::Keys(k) => DetailView::Keys(self.key@, k@),
        }
    }
}

/// The particulars of an error by their views.
pub open spec fn details_view(details: Option<Vec<Detail>>) -> Option<Seq<DetailView>> {
    match details {
        Some(list) => Some(list@.map_values(|d: Detail| d@)),
        None => None,
    }
}

/// The code and the particulars that answer a failed search.
pub open spec fn search_answer(e: SearchError) -> (McpErrorCode, Option<Seq<DetailView>>) {
    match e {
        SearchError::EmptyQuery => (McpErrorCode::EmptyQuery, None),
        SearchError::InvalidLimit => (McpErrorCode::InvalidLimit, None),
        SearchError::UnknownCollection { name } => (
            McpErrorCode::UnknownCollection,
            Some(seq![DetailView::Text("collection"@, name@)]),
        ),
        SearchError::SchemaMetadataMissing { absent_keys } => (
            McpErrorCode::SchemaMetadataMissing,
            Some(seq![DetailView::Keys("absent_keys"@, absent_keys@)]),
        ),
        _ => (McpErrorCode::Internal, None),
    }
}

/// The code and the particulars that answer a failed lookup.
pub open spec fn get_answer(e: GetError) -> (McpErrorCode, Option<Seq<DetailView>>) {
    match e {
        GetError::UnknownCollection { name } => (
            McpErrorCode::UnknownCollection,
            Some(seq![DetailView::Text("collection"@, name@)]),
        ),
        GetError::NotFound { collection, path } => (
            McpErrorCode::NotFound,
            Some(
                seq![
                    DetailView::Text("collection"@, collection@),
                    DetailView::Text("path"@, path@),
                ],
            ),
        ),
        GetError::ChunkNotFound { collection, path, chunk_sequence } => (
            McpErrorCode::NotFound,
            Some(
                seq![
                    DetailView::Text("collection"@, collection@),
                    DetailView::Text("path"@, path@),
                    DetailView::Number("chunk_sequence"@, chunk_sequence as int),
                ],
            ),
        ),
        GetError::DocumentTooLarge { size_bytes, limit_bytes } => (
            McpErrorCode::PayloadTooLarge,
            Some(
                seq![
                    DetailView::Number("size_bytes"@, size_bytes as int),
                    DetailView::Number("limit_bytes"@, limit_bytes as int),
                ],
            ),
        ),
        _ => (McpErrorCode::Internal, None),
    }
}

/// The code and the particulars that answer a failed report.
pub open spec fn introspect_answer(e: IntrospectError) -> (McpErrorCode, Option<Seq<DetailView>>) {
    match e {
        IntrospectError::SchemaMetadataMissing { absent_keys } => (
            McpErrorCode::SchemaMetadataMissing,
            Some(seq![DetailView::Keys("absent_keys"@, absent_keys@)]),
        ),
        _ => (McpErrorCode::Internal, None),
    }
}

/// `error` answers the failed search `e`.
pub open spec fn answers_search(error: McpToolError, e: SearchError) -> bool {
    &&& error.message@ == e.message_spec()
    &&& (error.code, details_view(error.details)) == search_answer(e)
}

/// `error` answers the failed lookup `e`.
pub open spec fn answers_get(error: McpToolError, e: GetError) -> bool {
    &&& error.message@ == e.message_spec()
    &&& (error.code, details_view(error.details)) == get_answer(e)
}

/// `error` answers the failed report `e`.
pub open spec fn answers_introspect(error: McpToolError, e: IntrospectError) -> bool {
    &&& error.message@ == e.message_spec()
    &&& (error.code, details_view(error.details)) == introspect_answer(e)
}

/// One particular.
fn one(a: Detail) -> (details: Option<Vec<Detail>>)
    ensures
        details_view(details) == Some(seq![a@]),
{
    let mut list: Vec<Detail> = Vec::new();
    list.push(a);
    proof {
        assert(list@.map_values(|d: Detail| d@) =~= seq![a@]);
    }
    Some(list)
}

/// Two particulars.
fn two(a: Detail, b: Detail) -> (details: Option<Vec<Detail>>)
    ensures
        details_view(details) == Some(seq![a@, b@]),
{
    let mut list: Vec<Detail> = Vec::new();
    list.push(a);
    list.push(b);
    proof {
        assert(list@.map_values(|d: Detail| d@) =~= seq![a@, b@]);
    }
    Some(list)
}

/// Three particulars.
fn three(a: Detail, b: Detail, c: Detail) -> (details: Option<Vec<Detail>>)
    ensures
        details_view(details) == Some(seq![a@, b@, c@]),
{
    let mut list: Vec<Detail> = Vec::new();
    list.push(a);
    list.push(b);
    list.push(c);
    proof {
        assert(list@.map_values(|d: Detail| d@) =~= seq![a@, b@, c@]);
    }
    Some(list)
}

fn text(key: &'static str, value: String) -> (detail: Detail)
    ensures
        detail@ == DetailView::Text(key@, value@),
{
    Detail { key, value: DetailValue::Text(value) }
}

fn number(key: &'static str, value: u64) -> (detail: Detail)
    ensures
        detail@ == DetailView::Number(key@, value as int),
{
    Detail { key, value: DetailValue::Number(value) }
}

fn keys(key: &'static str, value: Vec<MetadataKey>) -> (detail: Detail)
    ensures
        detail@ == DetailView::Keys(key@, value@),
{
    Detail { key, value: DetailValue::Keys(value) }
}

impl McpToolError {
    /// The answer to a failed search.
    pub fn from_search(err: SearchError) -> (error: Self)
        ensures
            answers_search(error, err),
    {
        let message: String = err.message();
        let (code, details): (McpErrorCode, Option<Vec<Detail>>) = match err {
            SearchError::EmptyQuery => (McpErrorCode::EmptyQuery, None),
            SearchError::InvalidLimit => (McpErrorCode::InvalidLimit, None),
            SearchError::UnknownCollection { name } => (
                McpErrorCode::UnknownCollection,
                one(text("collection", name)),
            ),
            SearchError::SchemaMetadataMissing { absent_keys } => (
                McpErrorCode::SchemaMetadataMissing,
                one(keys("absent_keys", absent_keys)),
            ),
            SearchError::LancedbPathNotUtf8 { .. }
            | SearchError::LancedbConnect { .. }
            | SearchError::OpenChunksTable(_)
            | SearchError::Query(_)
            | SearchError::Embed(_)
            | SearchError::Config(_) => (McpErrorCode::Internal, None),
        };
        McpToolError { code, message, details }
    }

    /// The answer to a failed lookup.
    pub fn from_get(err: GetError) -> (error: Self)
        ensures
            answers_get(error, err),
    {
        let message: String = err.message();
        let (code, details): (McpErrorCode, Option<Vec<Detail>>) = match err {
            GetError::UnknownCollection { name } => (
                McpErrorCode::UnknownCollection,
                one(text("collection", name)),
            ),
            GetError::NotFound { collection, path } => (
                McpErrorCode::NotFound,
                two(text("collection", collection), text("path", path)),
            ),
            GetError::ChunkNotFound { collection, path, chunk_sequence } => (
                McpErrorCode::NotFound,
                three(
                    text("collection", collection),
                    text("path", path),
                    number("chunk_sequence", chunk_sequence as u64),
                ),
            ),
            GetError::DocumentTooLarge { size_bytes, limit_bytes } => (
                McpErrorCode::PayloadTooLarge,
                two(number("size_bytes", size_bytes), number("limit_bytes", limit_bytes)),
            ),
            GetError::Config(_)
            | GetError::LancedbPathNotUtf8 { .. }
            | GetError::LancedbConnect { .. }
            | GetError::OpenSourcesTable(_)
            | GetError::QuerySources(_)
            | GetError::OpenChunksTable(_)
            | GetError::QueryChunks(_) => (McpErrorCode::Internal, None),
        };
        McpToolError { code, message, details }
    }

    /// The answer to a failed report.
    pub fn from_introspect(err: IntrospectError) -> (error: Self)
        ensures
            answers_introspect(error, err),
    {
        let message: String = err.message();
        let (code, details): (McpErrorCode, Option<Vec<Detail>>) = match err {
            IntrospectError::SchemaMetadataMissing { absent_keys } => (
                McpErrorCode::SchemaMetadataMissing,
                one(keys("absent_keys", absent_keys)),
            ),
            IntrospectError::Config(_)
            | IntrospectError::LancedbPathNotUtf8 { .. }
            | IntrospectError::LancedbConnect { .. }
            | IntrospectError::OpenTable { .. }
            | IntrospectError::Query { .. }
            | IntrospectError::Schema(_)
            | IntrospectError::MalformedVectorDimPin { .. } => (McpErrorCode::Internal, None),
        };
        McpToolError { code, message, details }
    }
}

/// The answer to a failed lookup carries particulars exactly where its code is
/// not the internal one.
pub proof fn particulars_follow_the_code(e: GetError)
    ensures
        get_answer(e).0 is Internal <==> get_answer(e).1 is None,
{
}

/// Every code is sent under a name of its own.
pub proof fn tokens_differ(a: McpErrorCode, b: McpErrorCode)
    requires
        a.token_spec() == b.token_spec(),
    ensures
        a == b,
{
    reveal_strlit("empty_query");
    reveal_strlit("invalid_limit");
    reveal_strlit("unknown_collection");
    reveal_strlit("not_found");
    reveal_strlit("payload_too_large");
    reveal_strlit("schema_metadata_missing");
    reveal_strlit("internal");
    let x = a.token_spec();
    let y = b.token_spec();
    assert(x.len() == y.len() && x[0] == y[0] && x[1] == y[1]);
}

/// The answer to a failed lookup tells what was asked for and what was found: the
/// collection that is unknown, the document or chunk that is missing, the size
/// and the limit; its code follows from the kind of failure alone.
pub proof fn get_answer_tells_the_failure(e: GetError)
    ensures
        get_answer(e).0 is NotFound <==> e is NotFound || e is ChunkNotFound,
        get_answer(e).0 is UnknownCollection <==> e is UnknownCollection,
        get_answer(e).0 is PayloadTooLarge <==> e is DocumentTooLarge,
        e matches GetError::UnknownCollection { name } ==> get_answer(e).1->Some_0.contains(
            DetailView::Text("collection"@, name@),
        ),
        e matches GetError::NotFound { collection, path } ==> get_answer(e).1->Some_0.contains(
            DetailView::Text("collection"@, collection@),
        ) && get_answer(e).1->Some_0.contains(DetailView::Text("path"@, path@)),
        e matches GetError::ChunkNotFound { collection, path, chunk_sequence } ==> {
            &&& get_answer(e).1->Some_0.contains(DetailView::Text("collection"@, collection@))
            &&& get_answer(e).1->Some_0.contains(DetailView::Text("path"@, path@))
            &&& get_answer(e).1->Some_0.contains(
                DetailView::Number("chunk_sequence"@, chunk_sequence as int),
            )
        },
        e matches GetError::DocumentTooLarge { size_bytes, limit_bytes } ==> {
            &&& get_answer(e).1->Some_0.contains(DetailView::Number("size_bytes"@, size_bytes as int))
            &&& get_answer(e).1->Some_0.contains(
                DetailView::Number("limit_bytes"@, limit_bytes as int),
            )
        },
{
    if get_answer(e).1 is Some {
        let list = get_answer(e).1->Some_0;
        assert(list.contains(list[0]));
        if list.len() > 1 {
            assert(list.contains(list[1]));
        }
        if list.len() > 2 {
            assert(list.contains(list[2]));
        }
    }
}

/// The answer to a failed search or report carries what failed: the collection
/// that is unknown, the pins that are missing; its code follows from the kind of
/// failure alone.
pub proof fn other_answers_tell_the_failure(s: SearchError, r: IntrospectError)
    ensures
        search_answer(s).0 is EmptyQuery <==> s is EmptyQuery,
        search_answer(s).0 is InvalidLimit <==> s is InvalidLimit,
        search_answer(s).0 is UnknownCollection <==> s is UnknownCollection,
        search_answer(s).0 is SchemaMetadataMissing <==> s is SchemaMetadataMissing,
        introspect_answer(r).0 is SchemaMetadataMissing <==> r is SchemaMetadataMissing,
        s matches SearchError::UnknownCollection { name } ==> search_answer(s).1 == Some(
            seq![DetailView::Text("collection"@, name@)],
        ),
        s matches SearchError::SchemaMetadataMissing { absent_keys } ==> search_answer(s).1 == Some(
            seq![DetailView::Keys("absent_keys"@, absent_keys@)],
        ),
        r matches IntrospectError::SchemaMetadataMissing { absent_keys } ==> introspect_answer(r).1
            == Some(seq![DetailView::Keys("absent_keys"@, absent_keys@)]),
{
}

} // verus!
