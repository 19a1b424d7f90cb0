//! Defaults, limits and names of the configuration.

use mdya::config::collections::NamedEntry;
use mdya::config::file::{from_file, to_file, FileConfig};
use mdya::config::store::accept_loaded;
use mdya::config::{
    validate_collection_name, CollectionEntry, Config, ConfigError, RuntimeConfig,
    MAX_EMBED_PARALLELISM,
};

#[test]
fn init_template_pins_the_default_embedding_model() {
    let cfg = Config::init_template();
    assert_eq!(cfg.embedding.model, "cl-nagoya/ruri-v3-30m");
    assert!(cfg.collections.is_empty());
}

#[test]
fn init_template_pins_the_default_memory_limit() {
    let cfg = Config::init_template();
    assert_eq!(cfg.runtime.memory_limit_mb, 8192);
}

#[test]
fn init_template_pins_the_embed_parallelism_default() {
    let cfg = Config::init_template();
    assert_eq!(cfg.runtime.embed_parallelism, 8);
}

#[test]
fn validate_collection_name_rejects_empty() {
    let err = validate_collection_name("").unwrap_err();
    assert!(matches!(
        err,
        ConfigError::InvalidCollectionName { ref name, .. } if name.is_empty()
    ));
}

#[test]
fn validate_collection_name_rejects_too_long() {
    let too_long = "a".repeat(65);
    let err = validate_collection_name(&too_long).unwrap_err();
    assert!(matches!(err, ConfigError::InvalidCollectionName { .. }));
}

#[test]
fn validate_collection_name_accepts_alnum_dash_underscore() {
    assert!(validate_collection_name("notes").is_ok());
    assert!(validate_collection_name("work-notes").is_ok());
    assert!(validate_collection_name("rag_v2").is_ok());
    assert!(validate_collection_name("A1-b2_C3").is_ok());
}

#[test]
fn validate_collection_name_rejects_sql_metacharacters() {
    assert!(validate_collection_name("foo'bar").is_err());
    assert!(validate_collection_name("foo--bar").is_ok());
    assert!(validate_collection_name("foo bar").is_err()); // space rejected
    assert!(validate_collection_name("foo/bar").is_err()); // slash rejected
    assert!(validate_collection_name("foo;DROP").is_err());
    assert!(validate_collection_name("日本語").is_err()); // non-ASCII rejected
}

#[test]
fn embed_parallelism_capped_clamps_at_max_when_user_exceeds_ceiling() {
    let cfg = RuntimeConfig {
        memory_limit_mb: 8192,
        embed_parallelism: MAX_EMBED_PARALLELISM + 1,
    };
    assert_eq!(cfg.embed_parallelism_capped(), MAX_EMBED_PARALLELISM);
}

#[test]
fn embed_parallelism_capped_returns_user_value_when_within_ceiling() {
    let cfg = RuntimeConfig {
        memory_limit_mb: 8192,
        embed_parallelism: 8,
    };
    assert_eq!(cfg.embed_parallelism_capped(), 8);
}

#[test]
fn embed_parallelism_capped_preserves_explicit_sequential_choice() {
    let cfg = RuntimeConfig {
        memory_limit_mb: 8192,
        embed_parallelism: 0,
    };
    assert_eq!(cfg.embed_parallelism_capped(), 0);
}

#[test]
fn embed_parallelism_capped_is_independent_of_memory_limit_mb() {
    let cfg_tight = RuntimeConfig {
        memory_limit_mb: 100,
        embed_parallelism: 8,
    };
    let cfg_loose = RuntimeConfig {
        memory_limit_mb: u64::MAX,
        embed_parallelism: 8,
    };
    assert_eq!(cfg_tight.embed_parallelism_capped(), 8);
    assert_eq!(cfg_loose.embed_parallelism_capped(), 8);
}

fn sample() -> Config {
    let mut cfg = Config::init_template();
    for (name, path, description) in [("work", "/w", None), ("notes", "~/notes", Some("メモ"))] {
        cfg.collections.insert(
            name.to_string(),
            CollectionEntry {
                path: path.to_string(),
                description: description.map(str::to_string),
            },
        );
    }
    cfg.runtime.memory_limit_mb = 0;
    cfg.runtime.embed_parallelism = 0;
    cfg
}

#[test]
fn what_is_written_reads_back() {
    for endpoint in ["http://127.0.0.1:11434", "http://other:1"] {
        let mut cfg = sample();
        cfg.embedding.ollama.endpoint = endpoint.to_string();
        let loaded = accept_loaded("c", Ok(Ok(from_file(to_file(&cfg))))).expect("valid");
        assert_eq!(loaded, cfg);
        assert_eq!(loaded.collections.get("notes").expect("there").path, "~/notes");
        assert_eq!(loaded.runtime.memory_limit_mb, 0);
    }
}

#[test]
fn the_default_address_is_left_out_of_the_file() {
    let mut cfg = sample();
    let file = to_file(&cfg);
    assert_eq!(file.endpoint, None);
    assert_eq!((file.memory_limit_mb, file.embed_parallelism), (Some(0), Some(0)));
    let names: Vec<&str> = file.collections.iter().map(|c| c.name.as_str()).collect();
    assert_eq!(names, vec!["notes", "work"]);
    cfg.embedding.ollama.endpoint = "http://other:1".to_string();
    assert_eq!(to_file(&cfg).endpoint.as_deref(), Some("http://other:1"));
}

#[test]
fn what_the_file_leaves_out_is_the_default() {
    let entry = |path: &str| NamedEntry {
        name: "n".to_string(),
        entry: CollectionEntry { path: path.to_string(), description: None },
    };
    let cfg = from_file(FileConfig {
        collections: vec![entry("/first"), entry("/last")],
        model: "m".to_string(),
        endpoint: None,
        memory_limit_mb: None,
        embed_parallelism: None,
    });
    assert_eq!(cfg.embedding.ollama.endpoint, "http://127.0.0.1:11434");
    assert_eq!((cfg.runtime.memory_limit_mb, cfg.runtime.embed_parallelism), (8192, 8));
    assert_eq!(cfg.collections.len(), 1);
    assert_eq!(cfg.collections.get("n").expect("there").path, "/last");
}
