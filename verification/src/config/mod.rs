//! The configuration: its schema, its rules and its directories.

pub mod collections;
pub mod dirs;
pub mod error;
pub mod file;
pub mod schema;
pub mod store;

pub use crate::config::collections::{CollectionEntry, Collections};
pub use crate::config::dirs::{expand_tilde, resolve_config_dir, resolve_model_cache_dir};
pub use crate::config::error::{ConfigError, InvalidPathKind};
pub use crate::config::schema::{
    validate_collection_name, Config, EmbeddingConfig, OllamaConfig, RuntimeConfig,
    DEFAULT_MEMORY_LIMIT_MB, MAX_EMBED_PARALLELISM,
};
