//! Errors of the configuration.

use vstd::prelude::*;
use vstd::string::StringExecFns;

verus! {

/// Why a path cannot be a collection.
#[derive(Debug, Clone, Copy, PartialEq, Eq, Structural)]
pub enum InvalidPathKind {
    NotFound,
    NotDirectory,
    NoBasename,
}

impl InvalidPathKind {
    /// The text shown to the user.
    pub open spec fn message_spec(self) -> Seq<char> {
        match self {
            InvalidPathKind::NotFound => "does not exist"@,
            InvalidPathKind::NotDirectory => "is not a directory"@,
            InvalidPathKind::NoBasename =>
                "has no usable basename (use --name to set the collection name explicitly)"@,
        }
    }

    /// The text shown to the user.
    pub fn message(&self) -> (text: String)
        ensures
            text@ == self.message_spec(),
    {
        match self {
            InvalidPathKind::NotFound => "does not exist".to_string(),
            InvalidPathKind::NotDirectory => "is not a directory".to_string(),
            InvalidPathKind::NoBasename =>
                "has no usable basename (use --name to set the collection name explicitly)".to_string(),
        }
    }
}

/// Why the configuration could not be read, written or changed. `source`
/// holds the text of the error underneath.
#[derive(Debug)]
pub enum ConfigError {
    NoHomeDir,
    Read { path: String, source: String },
    Write { path: String, source: String },
    ParseYaml { path: String, source: String },
    SerializeYaml(String),
    CollectionExists { name: String },
    InvalidCollectionPath { path: String, kind: InvalidPathKind },
    InvalidCollectionName { name: String, reason: &'static str },
    UnsupportedEmbeddingModel { model: String, supported: String },
}

impl ConfigError {
    /// The text shown to the user.
    pub open spec fn message_spec(self) -> Seq<char> {
        match self {
            ConfigError::NoHomeDir =>
                "home directory could not be resolved (no $HOME / %USERPROFILE%)"@,
            ConfigError::Read { path, source } => "read "@ + path@ + ": "@ + source@,
            ConfigError::Write { path, source } => "write "@ + path@ + ": "@ + source@,
            ConfigError::ParseYaml { path, source } => "parse YAML "@ + path@ + ": "@ + source@,
            ConfigError::SerializeYaml(source) => "serialize YAML: "@ + source@,
            ConfigError::CollectionExists { name } => "collection '"@ + name@
                + "' already exists in config.yml"@,
            ConfigError::InvalidCollectionPath { path, kind } => "collection path '"@ + path@
                + "' "@ + kind.message_spec(),
            ConfigError::InvalidCollectionName { name, reason } => "collection name '"@ + name@
                + "' is not valid: "@ + reason@,
            ConfigError::UnsupportedEmbeddingModel { model, supported } => "embedding model '"@
                + model@ + "' is not supported: expected one of ["@ + supported@
                + "] or an 'ollama:<model>' value"@,
        }
    }

    /// The text shown to the user.
    pub fn message(&self) -> (text: String)
        ensures
            text@ == self.message_spec(),
    {
        proof {
            reveal_strlit("");
        }
        match self {
            ConfigError::NoHomeDir =>
                "home directory could not be resolved (no $HOME / %USERPROFILE%)".to_string(),
            ConfigError::Read { path, source } => labelled("read ", path, ": ", source),
            ConfigError::Write { path, source } => labelled("write ", path, ": ", source),
            ConfigError::ParseYaml { path, source } => labelled("parse YAML ", path, ": ", source),
            ConfigError::SerializeYaml(source) => {
                let mut text: String = "serialize YAML: ".to_string();
                text.append(source.as_str());
                text
            },
            ConfigError::CollectionExists { name } => labelled(
                "collection '",
                name,
                "' already exists in config.yml",
                "",
            ),
            ConfigError::InvalidCollectionPath { path, kind } => labelled(
                "collection path '",
                path,
                "' ",
                kind.message().as_str(),
            ),
            ConfigError::InvalidCollectionName { name, reason } => labelled(
                "collection name '",
                name,
                "' is not valid: ",
                reason,
            ),
            ConfigError::UnsupportedEmbeddingModel { model, supported } => {
                let mut text: String = labelled(
                    "embedding model '",
                    model,
                    "' is not supported: expected one of [",
                    supported,
                );
                text.append("] or an 'ollama:<model>' value");
                text
            },
        }
    }
}

/// Four pieces of text, one after the other.
pub(crate) fn labelled(a: &str, b: &str, c: &str, d: &str) -> (text: String)
    ensures
        text@ == a@ + b@ + c@ + d@,
        d@.len() == 0 ==> text@ == a@ + b@ + c@,
{
    let mut text: String = a.to_string();
    text.append(b);
    text.append(c);
    text.append(d);
    proof {
        if d@.len() == 0 {
            assert(text@ =~= a@ + b@ + c@);
        }
    }
    text
}

} // verus!
