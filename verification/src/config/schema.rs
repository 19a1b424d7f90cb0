//! The sections of the configuration and their defaults and limits.

use crate::config::collections::{Collections, EntryList};
use crate::config::error::ConfigError;
use crate::embedding::models::RURI_V3_30M_MODEL_ID;
use crate::embedding::{is_supported_model, model_kind, on_device_model_ids};
use crate::text::{encode_push, same_text, to_chars};
use vstd::prelude::*;
use vstd::utf8::{encode_scalar, encode_utf8};

verus! {

/// Default of `runtime.memory_limit_mb`.
pub const DEFAULT_MEMORY_LIMIT_MB: u64 = 8192;

/// Default of `runtime.embed_parallelism`.
pub const DEFAULT_EMBED_PARALLELISM: usize = 8;

/// Largest number of files that are embedded side by side.
pub const MAX_EMBED_PARALLELISM: usize = 1024;

/// Where Ollama listens unless the configuration says otherwise.
pub const DEFAULT_OLLAMA_ENDPOINT: &'static str = "http://127.0.0.1:11434";

/// Most bytes in a collection's name.
pub const MAX_COLLECTION_NAME_BYTES: usize = 64;

/// The whole configuration.
#[derive(Debug, PartialEq)]
pub struct Config {
    pub collections: Collections,
    pub embedding: EmbeddingConfig,
    pub runtime: RuntimeConfig,
}

/// Which model embeds, and where Ollama is.
#[derive(Debug, Clone, PartialEq)]
pub struct EmbeddingConfig {
    pub model: String,
    pub ollama: OllamaConfig,
}

/// Where Ollama is.
#[derive(Debug, Clone, PartialEq)]
pub struct OllamaConfig {
    pub endpoint: String,
}

impl OllamaConfig {
    /// Whether this is the default, which is left out of the file.
    pub fn is_default(&self) -> (yes: bool)
        ensures
            yes == (self.endpoint@ == DEFAULT_OLLAMA_ENDPOINT@),
    {
        same_text(self.endpoint.as_str(), DEFAULT_OLLAMA_ENDPOINT)
    }
}

impl Default for OllamaConfig {
    fn default() -> (config: Self)
        ensures
            config.endpoint@ == DEFAULT_OLLAMA_ENDPOINT@,
    {
        OllamaConfig { endpoint: DEFAULT_OLLAMA_ENDPOINT.to_string() }
    }
}

/// Limits on what one process takes.
#[derive(Debug, Clone, Copy, PartialEq, Eq, Structural)]
pub struct RuntimeConfig {
    /// Cap on resident memory in megabytes; zero switches the guard off.
    pub memory_limit_mb: u64,
    /// Files embedded side by side; zero means one after the other.
    pub embed_parallelism: usize,
}

impl RuntimeConfig {
    /// Files embedded side by side, never above [`MAX_EMBED_PARALLELISM`].
    pub fn embed_parallelism_capped(&self) -> (n: usize)
        ensures
            n == (if self.embed_parallelism <= MAX_EMBED_PARALLELISM {
                self.embed_parallelism
            } else {
                MAX_EMBED_PARALLELISM
            }),
    {
        if self.embed_parallelism == 0 {
            return 0;
        }
        if self.embed_parallelism < MAX_EMBED_PARALLELISM {
            self.embed_parallelism
        } else {
            MAX_EMBED_PARALLELISM
        }
    }
}

impl Default for RuntimeConfig {
    fn default() -> (config: Self)
        ensures
            config.memory_limit_mb == DEFAULT_MEMORY_LIMIT_MB,
            config.embed_parallelism == DEFAULT_EMBED_PARALLELISM,
    {
        RuntimeConfig {
            memory_limit_mb: DEFAULT_MEMORY_LIMIT_MB,
            embed_parallelism: DEFAULT_EMBED_PARALLELISM,
        }
    }
}

impl Config {
    /// The configuration that `init` writes: no collections, the default model
    /// and the default limits.
    pub fn init_template() -> (config: Self)
        ensures
            config.collections.list() == EntryList::empty(),
            config.embedding.model@ == RURI_V3_30M_MODEL_ID@,
            config.embedding.ollama.endpoint@ == DEFAULT_OLLAMA_ENDPOINT@,
            config.runtime.memory_limit_mb == DEFAULT_MEMORY_LIMIT_MB,
            config.runtime.embed_parallelism == DEFAULT_EMBED_PARALLELISM,
    {
        Config {
            collections: Collections::new(),
            embedding: EmbeddingConfig {
                model: RURI_V3_30M_MODEL_ID.to_string(),
                ollama: OllamaConfig::default(),
            },
            runtime: RuntimeConfig::default(),
        }
    }
}

/// `c` may stand in a collection's name.
pub open spec fn is_name_char(c: char) -> bool {
    'a' <= c <= 'z' || 'A' <= c <= 'Z' || '0' <= c <= '9' || c == '-' || c == '_'
}

/// What is wrong with a collection's name: that it is empty, that it is too
/// long, or that a character may not stand in it; nothing where it is valid.
pub open spec fn name_fault(name: Seq<char>) -> Option<Seq<char>> {
    if name.len() == 0 {
        Some("must not be empty"@)
    } else if encode_utf8(name).len() > MAX_COLLECTION_NAME_BYTES {
        Some("must be 64 characters or fewer"@)
    } else if exists|i: int| 0 <= i < name.len() && !is_name_char(#[trigger] name[i]) {
        Some("must contain only ASCII letters, digits, '-' or '_'"@)
    } else {
        None
    }
}

/// The error that reports `reason` of `name`.
pub open spec fn is_name_error(error: ConfigError, name: Seq<char>, reason: Seq<char>) -> bool {
    &&& error is InvalidCollectionName
    &&& error->InvalidCollectionName_name@ == name
    &&& error->reason@ == reason
}

/// Checks a collection's name.
pub fn validate_collection_name(name: &str) -> (result: Result<(), ConfigError>)
    ensures
        match result {
            Ok(_) => name_fault(name@) is None,
            Err(e) => name_fault(name@) is Some && is_name_error(
                e,
                name@,
                name_fault(name@)->Some_0,
            ),
        },
{
    if name.is_empty() {
        return Err(
            ConfigError::InvalidCollectionName {
                name: name.to_string(),
                reason: "must not be empty",
            },
        );
    }
    if name.as_bytes().len() > MAX_COLLECTION_NAME_BYTES {
        return Err(
            ConfigError::InvalidCollectionName {
                name: name.to_string(),
                reason: "must be 64 characters or fewer",
            },
        );
    }
    let chars: Vec<char> = to_chars(name);
    for i in 0..chars.len()
        invariant
            chars@ == name@,
            name@.len() > 0,
            encode_utf8(name@).len() <= MAX_COLLECTION_NAME_BYTES,
            forall|j: int| 0 <= j < i ==> is_name_char(#[trigger] name@[j]),
    {
        let c: char = chars[i];
        let ok: bool = ('a' <= c && c <= 'z') || ('A' <= c && c <= 'Z') || ('0' <= c && c <= '9')
            || c == '-' || c == '_';
        if !ok {
            proof {
                assert(!is_name_char(name@[i as int]));
            }
            return Err(
                ConfigError::InvalidCollectionName {
                    name: name.to_string(),
                    reason: "must contain only ASCII letters, digits, '-' or '_'",
                },
            );
        }
    }
    Ok(())
}

/// Collection `i` is the first with an invalid name.
pub open spec fn first_fault(list: EntryList, i: int) -> bool {
    &&& 0 <= i < list.len()
    &&& name_fault(list[i].0) is Some
    &&& forall|j: int| 0 <= j < i ==> name_fault((#[trigger] list[j]).0) is None
}

/// Checks the names of a loaded configuration, in their order.
pub fn validate_collections(collections: &Collections) -> (result: Result<(), ConfigError>)
    ensures
        match result {
            Ok(_) => forall|j: int|
                0 <= j < collections.list().len() ==> name_fault(
                    (#[trigger] collections.list()[j]).0,
                ) is None,
            Err(e) => exists|i: int| #[trigger]
                first_fault(collections.list(), i) && is_name_error(
                    e,
                    collections.list()[i].0,
                    name_fault(collections.list()[i].0)->Some_0,
                ),
        },
{
    let count: usize = collections.len();
    for i in 0..count
        invariant
            count == collections.list().len(),
            forall|j: int|
                0 <= j < i ==> name_fault((#[trigger] collections.list()[j]).0) is None,
    {
        match validate_collection_name(collections.name_at(i).as_str()) {
            Ok(_) => {},
            Err(e) => {
                proof {
                    assert(first_fault(collections.list(), i as int));
                }
                return Err(e);
            },
        }
    }
    Ok(())
}

/// Checks that `embedding.model` selects a backend.
pub fn validate_embedding_model(model: &str) -> (result: Result<(), ConfigError>)
    ensures
        match result {
            Ok(_) => model_kind(model@) is Some,
            Err(e) => {
                &&& model_kind(model@) is None
                &&& e is UnsupportedEmbeddingModel
                &&& e->model@ == model@
                &&& e->supported@ == RURI_V3_30M_MODEL_ID@
            },
        },
{
    if is_supported_model(model) {
        return Ok(());
    }
    let ids: Vec<&'static str> = on_device_model_ids();
    Err(
        ConfigError::UnsupportedEmbeddingModel {
            model: model.to_string(),
            supported: ids[0].to_string(),
        },
    )
}

/// The model of the template that `init` writes selects a backend.
pub proof fn template_model_is_supported()
    ensures
        model_kind(RURI_V3_30M_MODEL_ID@) is Some,
{
}

/// A collection's name is valid exactly where it has one to 64 characters, each
/// an ASCII letter, a digit, `-` or `_`.
pub proof fn valid_names(name: Seq<char>)
    ensures
        name_fault(name) is None <==> 1 <= name.len() <= 64 && forall|i: int|
            0 <= i < name.len() ==> {
                ||| 'a' <= #[trigger] name[i] <= 'z'
                ||| 'A' <= name[i] <= 'Z'
                ||| '0' <= name[i] <= '9'
                ||| name[i] == '-'
                ||| name[i] == '_'
            },
{
    if forall|i: int| 0 <= i < name.len() ==> is_name_char(#[trigger] name[i]) {
        names_are_ascii(name);
    }
}

proof fn names_are_ascii(name: Seq<char>)
    requires
        forall|i: int| 0 <= i < name.len() ==> is_name_char(#[trigger] name[i]),
    ensures
        encode_utf8(name).len() == name.len(),
    decreases name.len(),
{
    if name.len() == 0 {
        assert(encode_utf8(name) =~= Seq::empty());
    } else {
        let short = name.drop_last();
        let c = name[name.len() - 1];
        assert(is_name_char(c));
        assert forall|i: int| 0 <= i < short.len() implies is_name_char(#[trigger] short[i]) by {
            assert(short[i] == name[i]);
        }
        names_are_ascii(short);
        encode_push(short, c);
        assert(short.push(c) =~= name);
        assert(encode_scalar(c as u32).len() == 1);
    }
}

} // verus!
