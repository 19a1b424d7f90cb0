//! `init`: what is missing and is made. What is there is left as it is.

use crate::cli::dim::DimError;
use crate::config::error::{labelled, ConfigError};
use crate::embedding::error::with_label;
use crate::embedding::texts_view;
use crate::ingest::run::{CHUNKS_TABLE_NAME, SOURCES_TABLE_NAME};
use crate::text::same_text;
use vstd::prelude::*;

verus! {

/// Name of the configuration file.
pub const CONFIG_FILE_NAME: &'static str = "config.yml";

/// Directory of the index.
pub const INDEX_DIR_NAME: &'static str = "index";

/// Directory of the tokenizer's files.
pub const LANCE_MODELS_DIR_NAME: &'static str = "lance-models";

/// Why `init` failed.
#[derive(Debug)]
pub enum InitError {
    Config(ConfigError),
    Mkdir { path: String, source: String },
    LancedbPathNotUtf8 { path: String },
    LancedbConnect(String),
    LancedbList(String),
    CreateChunksTable(String),
    CreateSourcesTable(String),
    LanceLm(String),
    Dim(DimError),
}

impl InitError {
    /// The text shown to the user.
    pub open spec fn message_spec(self) -> Seq<char> {
        match self {
            InitError::Config(e) => e.message_spec(),
            InitError::Mkdir { path, source } => "create directory "@ + path@ + ": "@ + source@,
            InitError::LancedbPathNotUtf8 { path } => "LanceDB path "@ + path@
                + " is not valid UTF-8"@,
            InitError::LancedbConnect(t) => "LanceDB connect: "@ + t@,
            InitError::LancedbList(t) => "list LanceDB tables: "@ + t@,
            InitError::CreateChunksTable(t) => "create chunks table: "@ + t@,
            InitError::CreateSourcesTable(t) => "create sources table: "@ + t@,
            InitError::LanceLm(t) => t@,
            InitError::Dim(e) => "resolve declared vector dim: "@ + e.message_spec(),
        }
    }

    /// The text shown to the user.
    pub fn message(&self) -> (text: String)
        ensures
            text@ == self.message_spec(),
    {
        proof {
            reveal_strlit("");
        }
        match self {
            InitError::Config(e) => e.message(),
            InitError::Mkdir { path, source } => labelled("create directory ", path, ": ", source),
            InitError::LancedbPathNotUtf8 { path } => labelled(
                "LanceDB path ",
                path,
                " is not valid UTF-8",
                "",
            ),
            InitError::LancedbConnect(t) => with_label("LanceDB connect: ", t),
            InitError::LancedbList(t) => with_label("list LanceDB tables: ", t),
            InitError::CreateChunksTable(t) => with_label("create chunks table: ", t),
            InitError::CreateSourcesTable(t) => with_label("create sources table: ", t),
            InitError::LanceLm(t) => t.clone(),
            InitError::Dim(e) => with_label("resolve declared vector dim: ", e.message().as_str()),
        }
    }
}

/// The directories that `init` makes, by their paths from the base: the base
/// itself, the index and the tokenizer's.
pub fn init_dirs() -> (dirs: Vec<String>)
    ensures
        texts_view(dirs@) == seq![Seq::empty(), INDEX_DIR_NAME@, LANCE_MODELS_DIR_NAME@],
{
    let mut dirs: Vec<String> = Vec::new();
    dirs.push(String::new());
    dirs.push(INDEX_DIR_NAME.to_string());
    dirs.push(LANCE_MODELS_DIR_NAME.to_string());
    proof {
        assert(dirs@[0]@ =~= Seq::empty());
        assert(texts_view(dirs@) =~= seq![
            Seq::empty(),
            INDEX_DIR_NAME@,
            LANCE_MODELS_DIR_NAME@,
        ]);
    }
    dirs
}

/// `name` is among `names`.
pub open spec fn has_name(names: Seq<String>, name: Seq<char>) -> bool {
    exists|i: int| 0 <= i < names.len() && (#[trigger] names[i])@ == name
}

/// Whether a table of this name is there.
pub fn table_exists(names: &[String], name: &str) -> (yes: bool)
    ensures
        yes == has_name(names@, name@),
{
    for i in 0..names.len()
        invariant
            forall|j: int| 0 <= j < i ==> (#[trigger] names@[j])@ != name@,
    {
        if same_text(names[i].as_str(), name) {
            return true;
        }
    }
    false
}

/// Which tables `init` makes: those that are not there.
#[derive(Debug, Clone, Copy, PartialEq, Eq, Structural)]
pub struct MissingTables {
    pub chunks: bool,
    pub sources: bool,
}

/// Which tables `init` makes, given those that are there: none where both are,
/// so a second run changes nothing.
pub fn missing_tables(names: &[String]) -> (missing: MissingTables)
    ensures
        missing.chunks == !has_name(names@, CHUNKS_TABLE_NAME@),
        missing.sources == !has_name(names@, SOURCES_TABLE_NAME@),
{
    MissingTables {
        chunks: !table_exists(names, CHUNKS_TABLE_NAME),
        sources: !table_exists(names, SOURCES_TABLE_NAME),
    }
}

} // verus!
