//! Errors of the ingest pipeline.

use crate::chunking::ChunkingError;
use crate::config::error::{labelled, ConfigError};
use crate::embedding::error::with_label;
use crate::embedding::EmbedError;
use crate::extract::ExtractError;
use crate::text::{decimal, decimal_spec, signed_decimal, signed_decimal_spec};
use vstd::prelude::*;
use vstd::string::StringExecFns;

verus! {

/// A key of the `chunks` table's metadata that pins what its vectors are.
#[derive(Debug, Clone, Copy, PartialEq, Eq, Structural)]
pub enum MetadataKey {
    EmbeddingModel,
    VectorDim,
}

impl MetadataKey {
    /// The key as it is stored.
    pub open spec fn name_spec(self) -> Seq<char> {
        match self {
            MetadataKey::EmbeddingModel => "embedding_model"@,
            MetadataKey::VectorDim => "vector_dim"@,
        }
    }

    /// The key as it is stored.
    pub fn name(&self) -> (name: &'static str)
        ensures
            name@ == self.name_spec(),
    {
        match self {
            MetadataKey::EmbeddingModel => "embedding_model",
            MetadataKey::VectorDim => "vector_dim",
        }
    }
}

/// The quoted names of `keys`, with `", "` between neighbours.
pub open spec fn quoted_keys(keys: Seq<MetadataKey>) -> Seq<char>
    decreases keys.len(),
{
    if keys.len() == 0 {
        Seq::empty()
    } else {
        let before = quoted_keys(keys.drop_last());
        let separator = if keys.len() == 1 {
            "\""@
        } else {
            ", \""@
        };
        before + separator + keys.last().name_spec() + "\""@
    }
}

/// The quoted names of `keys`, with `", "` between neighbours.
pub fn quote_keys(keys: &[MetadataKey]) -> (text: String)
    ensures
        text@ == quoted_keys(keys@),
{
    let mut text: String = String::new();
    proof {
        assert(text@ =~= Seq::empty());
    }
    for i in 0..keys.len()
        invariant
            text@ == quoted_keys(keys@.take(i as int)),
    {
        proof {
            assert(keys@.take(i as int + 1).drop_last() =~= keys@.take(i as int));
        }
        if i == 0 {
            text.append("\"");
        } else {
            text.append(", \"");
        }
        text.append(keys[i].name());
        text.append("\"");
    }
    proof {
        assert(keys@.take(keys@.len() as int) =~= keys@);
    }
    text
}

/// Why a run was refused or a file failed. Texts of errors underneath are held
/// as they were rendered.
#[derive(Debug)]
pub enum IngestError {
    Config(ConfigError),
    LancedbConnect { path: String, source: String },
    LancedbPathNotUtf8 { path: String },
    OpenChunksTable(String),
    OpenSourcesTable(String),
    QueryChunks(String),
    QuerySources(String),
    DeleteChunks(String),
    DeleteSources(String),
    WriteChunks(String),
    WriteSources(String),
    UpdateChunks(String),
    LanceLm(String),
    CountRows(String),
    ListIndices(String),
    CreateFtsIndex { column: &'static str, source: String },
    CreateVectorIndex(String),
    OptimizeIndex(String),
    Embedding(EmbedError),
    EmbedJoin(String),
    Chunking(ChunkingError),
    Extract(ExtractError),
    Io(String),
    Arrow(String),
    SchemaMetadataMismatch {
        declared_model: String,
        declared_dim: i32,
        actual_embedding_model: String,
        actual_vector_dim: String,
    },
    SchemaMetadataMissing { absent_keys: Vec<MetadataKey> },
    PathTraversal { rel_path: String },
    TooManyChunks { count: usize },
    DimTooLarge { dim: usize },
}

/// The text of the error for pins that disagree with the configuration.
pub open spec fn mismatch_message(
    declared_model: Seq<char>,
    declared_dim: int,
    actual_model: Seq<char>,
    actual_dim: Seq<char>,
) -> Seq<char> {
    "schema metadata pin mismatch: config.yml declares embedding_model='"@ + declared_model
        + "' / vector_dim="@ + signed_decimal_spec(declared_dim)
        + ", but the chunks table reports embedding_model='"@ + actual_model + "' / vector_dim="@
        + actual_dim
        + ". To recover, remove `~/.mdya/index/`, run `mdya init`, and re-run `mdya update-all`."@
}

/// The text of the error for absent pins.
pub open spec fn missing_message(keys: Seq<MetadataKey>) -> Seq<char> {
    "schema metadata pin missing: chunks table's Schema::metadata lacks key(s) ["@ + quoted_keys(
        keys,
    )
        + "]. This usually means the database was created before the metadata pin was added; remove `~/.mdya/index/`, run `mdya init`, and re-run `mdya update-all`."@
}

impl IngestError {
    /// The text shown to the user.
    pub open spec fn message_spec(self) -> Seq<char> {
        match self {
            IngestError::Config(e) => e.message_spec(),
            IngestError::LancedbConnect { path, source } => "connect LanceDB at "@ + path@ + ": "@
                + source@,
            IngestError::LancedbPathNotUtf8 { path } => "LanceDB path "@ + path@
                + " is not valid UTF-8"@,
            IngestError::OpenChunksTable(t) => "open chunks table: "@ + t@,
            IngestError::OpenSourcesTable(t) => "open sources table: "@ + t@,
            IngestError::QueryChunks(t) => "query chunks: "@ + t@,
            IngestError::QuerySources(t) => "query sources: "@ + t@,
            IngestError::DeleteChunks(t) => "delete chunks: "@ + t@,
            IngestError::DeleteSources(t) => "delete sources: "@ + t@,
            IngestError::WriteChunks(t) => "write chunks: "@ + t@,
            IngestError::WriteSources(t) => "write sources: "@ + t@,
            IngestError::UpdateChunks(t) => "update chunks: "@ + t@,
            IngestError::LanceLm(t) => t@,
            IngestError::CountRows(t) => "count chunks rows: "@ + t@,
            IngestError::ListIndices(t) => "list chunks indices: "@ + t@,
            IngestError::CreateFtsIndex { column, source } => "create FTS index on `"@ + column@
                + "`: "@ + source@,
            IngestError::CreateVectorIndex(t) => "create vector index on `embedding`: "@ + t@,
            IngestError::OptimizeIndex(t) => "optimize chunks indices: "@ + t@,
            IngestError::Embedding(e) => "embedding: "@ + e.message_spec(),
            IngestError::EmbedJoin(t) => "embed task join failed: "@ + t@,
            IngestError::Chunking(e) => "chunking: "@ + e.message_spec(),
            IngestError::Extract(e) => "extract: "@ + e.message_spec(),
            IngestError::Io(t) => "file I/O: "@ + t@,
            IngestError::Arrow(t) => "build Arrow record batch: "@ + t@,
            IngestError::SchemaMetadataMismatch {
                declared_model,
                declared_dim,
                actual_embedding_model,
                actual_vector_dim,
            } => mismatch_message(
                declared_model@,
                declared_dim as int,
                actual_embedding_model@,
                actual_vector_dim@,
            ),
            IngestError::SchemaMetadataMissing { absent_keys } => missing_message(absent_keys@),
            IngestError::PathTraversal { rel_path } => "path '"@ + rel_path@
                + "' leaves the collection root"@,
            IngestError::TooManyChunks { count } => "too many chunks in one file: "@
                + decimal_spec(count as nat),
            IngestError::DimTooLarge { dim } => "vector dim does not fit in i32: "@ + decimal_spec(
                dim as nat,
            ),
        }
    }

    /// The text shown to the user.
    pub fn message(&self) -> (text: String)
        ensures
            text@ == self.message_spec(),
    {
        proof {
            reveal_strlit("");
        }
        match self {
            IngestError::Config(e) => e.message(),
            IngestError::LancedbConnect { path, source } => labelled(
                "connect LanceDB at ",
                path,
                ": ",
                source,
            ),
            IngestError::LancedbPathNotUtf8 { path } => labelled(
                "LanceDB path ",
                path,
                " is not valid UTF-8",
                "",
            ),
            IngestError::OpenChunksTable(t) => with_label("open chunks table: ", t),
            IngestError::OpenSourcesTable(t) => with_label("open sources table: ", t),
            IngestError::QueryChunks(t) => with_label("query chunks: ", t),
            IngestError::QuerySources(t) => with_label("query sources: ", t),
            IngestError::DeleteChunks(t) => with_label("delete chunks: ", t),
            IngestError::DeleteSources(t) => with_label("delete sources: ", t),
            IngestError::WriteChunks(t) => with_label("write chunks: ", t),
            IngestError::WriteSources(t) => with_label("write sources: ", t),
            IngestError::UpdateChunks(t) => with_label("update chunks: ", t),
            IngestError::LanceLm(t) => t.clone(),
            IngestError::CountRows(t) => with_label("count chunks rows: ", t),
            IngestError::ListIndices(t) => with_label("list chunks indices: ", t),
            IngestError::CreateFtsIndex { column, source } => labelled(
                "create FTS index on `",
                column,
                "`: ",
                source,
            ),
            IngestError::CreateVectorIndex(t) => with_label(
                "create vector index on `embedding`: ",
                t,
            ),
            IngestError::OptimizeIndex(t) => with_label("optimize chunks indices: ", t),
            IngestError::Embedding(e) => with_label("embedding: ", e.message().as_str()),
            IngestError::EmbedJoin(t) => with_label("embed task join failed: ", t),
            IngestError::Chunking(e) => with_label("chunking: ", e.message().as_str()),
            IngestError::Extract(e) => with_label("extract: ", e.message().as_str()),
            IngestError::Io(t) => with_label("file I/O: ", t),
            IngestError::Arrow(t) => with_label("build Arrow record batch: ", t),
            IngestError::SchemaMetadataMismatch {
                declared_model,
                declared_dim,
                actual_embedding_model,
                actual_vector_dim,
            } => {
                let mut text: String =
                    "schema metadata pin mismatch: config.yml declares embedding_model='".to_string();
                text.append(declared_model.as_str());
                text.append("' / vector_dim=");
                text.append(signed_decimal(*declared_dim as i64).as_str());
                text.append(", but the chunks table reports embedding_model='");
                text.append(actual_embedding_model.as_str());
                text.append("' / vector_dim=");
                text.append(actual_vector_dim.as_str());
                text.append(
                    ". To recover, remove `~/.mdya/index/`, run `mdya init`, and re-run `mdya update-all`.",
                );
                text
            },
            IngestError::SchemaMetadataMissing { absent_keys } => {
                let mut text: String =
                    "schema metadata pin missing: chunks table's Schema::metadata lacks key(s) [".to_string();
                text.append(quote_keys(absent_keys.as_slice()).as_str());
                text.append(
                    "]. This usually means the database was created before the metadata pin was added; remove `~/.mdya/index/`, run `mdya init`, and re-run `mdya update-all`.",
                );
                text
            },
            IngestError::PathTraversal { rel_path } => labelled(
                "path '",
                rel_path,
                "' leaves the collection root",
                "",
            ),
            IngestError::TooManyChunks { count } => with_label(
                "too many chunks in one file: ",
                decimal(*count as u64).as_str(),
            ),
            IngestError::DimTooLarge { dim } => with_label(
                "vector dim does not fit in i32: ",
                decimal(*dim as u64).as_str(),
            ),
        }
    }
}

/// The text for pins that disagree tells first what the configuration declares,
/// then what the table reports.
pub proof fn mismatch_tells_both_sides(
    declared_model: Seq<char>,
    declared_dim: int,
    actual_model: Seq<char>,
    actual_dim: Seq<char>,
)
    ensures
        ({
            let text = mismatch_message(declared_model, declared_dim, actual_model, actual_dim);
            let declares =
                "schema metadata pin mismatch: config.yml declares embedding_model='"@
                + declared_model + "' / vector_dim="@ + signed_decimal_spec(declared_dim);
            let reports = ", but the chunks table reports embedding_model='"@ + actual_model
                + "' / vector_dim="@ + actual_dim;
            (declares + reports).is_prefix_of(text)
        }),
{
    let text = mismatch_message(declared_model, declared_dim, actual_model, actual_dim);
    let declares = "schema metadata pin mismatch: config.yml declares embedding_model='"@
        + declared_model + "' / vector_dim="@ + signed_decimal_spec(declared_dim);
    let middle = ", but the chunks table reports embedding_model='"@;
    let dim = "' / vector_dim="@;
    let reports = middle + actual_model + dim + actual_dim;
    assert(declares + reports =~= declares + middle + actual_model + dim + actual_dim);
}

} // verus!
