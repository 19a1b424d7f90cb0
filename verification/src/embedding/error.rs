//! Errors of the embedding backends.

use crate::embedding::cache::ModelCacheError;
use vstd::prelude::*;
use vstd::string::StringExecFns;

verus! {

/// Why a text could not be embedded. Texts of errors underneath are held as
/// they were rendered.
#[derive(Debug)]
pub enum EmbedError {
    UnsupportedModel(String),
    Ollama(String),
    Cache(ModelCacheError),
    Io(String),
    ConfigJson(String),
    Tokenizer(String),
    Candle(String),
    Forward(String),
    EmbeddingGemma(String),
}

impl EmbedError {
    /// The text shown to the user.
    pub open spec fn message_spec(self) -> Seq<char> {
        match self {
            EmbedError::UnsupportedModel(model) => "unsupported embedding model '"@ + model@
                + "': expected a recognized on-device model or an 'ollama:<model>' value"@,
            EmbedError::Ollama(t) => "ollama backend: "@ + t@,
            EmbedError::Cache(e) => "model cache: "@ + e.message_spec(),
            EmbedError::Io(t) => "read model file: "@ + t@,
            EmbedError::ConfigJson(t) => "parse config.json: "@ + t@,
            EmbedError::Tokenizer(t) => "tokenizer: "@ + t@,
            EmbedError::Candle(t) => "model graph: "@ + t@,
            EmbedError::Forward(t) => "forward pass: "@ + t@,
            EmbedError::EmbeddingGemma(t) => "embeddinggemma: "@ + t@,
        }
    }

    /// The text shown to the user.
    pub fn message(&self) -> (text: String)
        ensures
            text@ == self.message_spec(),
    {
        match self {
            EmbedError::UnsupportedModel(model) => {
                let mut text: String = "unsupported embedding model '".to_string();
                text.append(model.as_str());
                text.append(
                    "': expected a recognized on-device model or an 'ollama:<model>' value",
                );
                text
            },
            EmbedError::Ollama(t) => with_label("ollama backend: ", t),
            EmbedError::Cache(e) => with_label("model cache: ", e.message().as_str()),
            EmbedError::Io(t) => with_label("read model file: ", t),
            EmbedError::ConfigJson(t) => with_label("parse config.json: ", t),
            EmbedError::Tokenizer(t) => with_label("tokenizer: ", t),
            EmbedError::Candle(t) => with_label("model graph: ", t),
            EmbedError::Forward(t) => with_label("forward pass: ", t),
            EmbedError::EmbeddingGemma(t) => with_label("embeddinggemma: ", t),
        }
    }
}

/// `label` followed by `rest`.
pub(crate) fn with_label(label: &str, rest: &str) -> (text: String)
    ensures
        text@ == label@ + rest@,
{
    let mut text: String = label.to_string();
    text.append(rest);
    text
}

} // verus!
