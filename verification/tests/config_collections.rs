//! Collections and how one is added.

use mdya::cli::collection::{run, CollectionAddError, PathProbe};
use mdya::config::schema::validate_embedding_model;
use mdya::config::store::{accept_loaded, next_save_step, SaveStep};
use mdya::config::{CollectionEntry, Collections, Config, ConfigError, InvalidPathKind};

fn entry(path: &str) -> CollectionEntry {
    CollectionEntry { path: path.to_string(), description: None }
}

fn there() -> PathProbe {
    PathProbe { present: true, is_dir: true }
}

#[test]
fn collections_are_in_the_order_of_their_names() {
    let mut made = Collections::new();
    assert!(made.is_empty());
    for name in ["work", "a", "notes", "Z", "a-b"] {
        made.insert(name.to_string(), entry(name));
    }
    made.insert("notes".to_string(), entry("again"));
    let names: Vec<&str> = (0..made.len()).map(|i| made.name_at(i).as_str()).collect();
    assert_eq!(names, vec!["Z", "a", "a-b", "notes", "work"]);
    assert_eq!(made.get("notes").expect("there").path, "again");
    assert!(made.contains_key("Z") && !made.contains_key("z"));
    let copy = made.clone();
    assert!(copy == made);
}

#[test]
fn add_with_basename_default_writes_entry() {
    let mut cfg = Config::init_template();
    let name = run(&mut cfg, "/tmp/notes", "/tmp/notes", there(), None, None).expect("add");
    assert_eq!(name, "notes");
    assert_eq!(cfg.collections.len(), 1);
    assert!(cfg.collections.contains_key("notes"));
}

#[test]
fn name_override_replaces_basename() {
    let mut cfg = Config::init_template();
    run(&mut cfg, "/tmp/notes", "/tmp/notes", there(), Some("work-notes"), None).expect("add");
    assert!(cfg.collections.contains_key("work-notes"));
    assert!(!cfg.collections.contains_key("notes"));
}

#[test]
fn add_with_description_stores_it() {
    let mut cfg = Config::init_template();
    run(&mut cfg, "~/notes", "/home/u/notes", there(), None, Some("個人メモ")).expect("add");
    let added = cfg.collections.get("notes").expect("there");
    assert_eq!(added.path, "~/notes");
    assert_eq!(added.description.as_deref(), Some("個人メモ"));
}

#[test]
fn duplicate_name_returns_collection_exists() {
    let mut cfg = Config::init_template();
    run(&mut cfg, "/a/notes", "/a/notes", there(), None, None).expect("first add");
    let CollectionAddError::Config(err) =
        run(&mut cfg, "/a/notes", "/a/notes", there(), None, None).expect_err("must fail");
    assert!(matches!(err, ConfigError::CollectionExists { ref name } if name == "notes"));
    assert_eq!(err.message(), "collection 'notes' already exists in config.yml");
    assert_eq!(cfg.collections.get("notes").expect("kept").path, "/a/notes");
    assert_eq!(cfg.collections.len(), 1);
}

#[test]
fn another_directory_of_the_same_name_is_refused() {
    let mut cfg = Config::init_template();
    run(&mut cfg, "/a/notes", "/a/notes", there(), None, None).expect("add");
    assert!(run(&mut cfg, "/b/notes", "/b/notes", there(), None, None).is_err());
    assert_eq!(cfg.collections.get("notes").expect("kept").path, "/a/notes");
}

#[test]
fn missing_path_returns_invalid_collection_path() {
    let mut cfg = Config::init_template();
    let probe = PathProbe { present: false, is_dir: false };
    let CollectionAddError::Config(err) =
        run(&mut cfg, "/nope", "/nope", probe, None, None).expect_err("missing");
    assert!(matches!(
        err,
        ConfigError::InvalidCollectionPath { kind: InvalidPathKind::NotFound, .. }
    ));
    assert_eq!(err.message(), "collection path '/nope' does not exist");
    assert!(cfg.collections.is_empty());
}

#[test]
fn non_directory_path_returns_not_directory() {
    let mut cfg = Config::init_template();
    let probe = PathProbe { present: true, is_dir: false };
    let CollectionAddError::Config(err) =
        run(&mut cfg, "/f.md", "/f.md", probe, None, None).expect_err("file");
    assert!(matches!(
        err,
        ConfigError::InvalidCollectionPath { kind: InvalidPathKind::NotDirectory, .. }
    ));
    assert_eq!(err.message(), "collection path '/f.md' is not a directory");
}

#[test]
fn a_path_without_a_name_needs_one() {
    let mut cfg = Config::init_template();
    for root in ["/", "..", "."] {
        let error = run(&mut cfg, root, root, there(), None, None).expect_err("no name");
        assert_eq!(
            error.message(),
            format!(
                "collection path '{root}' has no usable basename (use --name to set the \
                 collection name explicitly)"
            )
        );
    }
    run(&mut cfg, "/", "/", there(), Some("all"), None).expect("named");
    let error = run(&mut cfg, "/my notes", "/my notes", there(), None, None).expect_err("space");
    assert_eq!(
        error.message(),
        "collection name 'my notes' is not valid: must contain only ASCII letters, digits, \
         '-' or '_'"
    );
}

#[test]
fn loading_checks_every_name() {
    let mut cfg = Config::init_template();
    cfg.collections.insert("fine".to_string(), entry("/f"));
    cfg.collections.insert("not fine".to_string(), entry("/g"));
    assert!(matches!(
        accept_loaded("c.yml", Ok(Ok(cfg))),
        Err(ConfigError::InvalidCollectionName { ref name, .. }) if name == "not fine"
    ));
    assert!(accept_loaded("c.yml", Ok(Ok(Config::init_template()))).is_ok());
    let mut other = Config::init_template();
    other.embedding.model = "some/other-model".to_string();
    assert!(matches!(
        accept_loaded("c.yml", Ok(Ok(other))),
        Err(ConfigError::UnsupportedEmbeddingModel { ref model, .. }) if model == "some/other-model"
    ));
    let err = accept_loaded("c.yml", Err("denied".to_string())).expect_err("read");
    assert_eq!(err.message(), "read c.yml: denied");
    let err = accept_loaded("c.yml", Ok(Err("bad".to_string()))).expect_err("parse");
    assert_eq!(err.message(), "parse YAML c.yml: bad");
    assert_eq!(
        ConfigError::SerializeYaml("x".to_string()).message(),
        "serialize YAML: x"
    );
}

#[test]
fn the_file_is_replaced_by_a_rename() {
    let step = next_save_step(SaveStep::WriteTemp, "c", "c.tmp", Ok(()));
    assert!(matches!(step, SaveStep::Rename));
    let step = next_save_step(step, "c", "c.tmp", Ok(()));
    assert!(matches!(step, SaveStep::Done(Ok(()))));
    let step = next_save_step(SaveStep::Rename, "c", "c.tmp", Err("busy".to_string()));
    assert!(matches!(step, SaveStep::RemoveTemp(_)));
    let SaveStep::Done(Err(err)) = next_save_step(step, "c", "c.tmp", Ok(())) else {
        panic!("the error is reported");
    };
    assert_eq!(err.message(), "write c: busy");
    let SaveStep::Done(Err(err)) =
        next_save_step(SaveStep::WriteTemp, "c", "c.tmp", Err("full".to_string()))
    else {
        panic!("the error is reported");
    };
    assert_eq!(err.message(), "write c.tmp: full");
}

#[test]
fn a_model_must_be_supported() {
    assert!(validate_embedding_model("cl-nagoya/ruri-v3-30m").is_ok());
    assert!(validate_embedding_model("ollama:x").is_ok());
    assert_eq!(
        validate_embedding_model("gpt").expect_err("unknown").message(),
        "embedding model 'gpt' is not supported: expected one of [cl-nagoya/ruri-v3-30m] or \
         an 'ollama:<model>' value"
    );
}

#[test]
fn the_default_endpoint_is_recognised() {
    let cfg = Config::init_template();
    assert!(cfg.embedding.ollama.is_default());
    let mut other = cfg.embedding.ollama.clone();
    other.endpoint = "http://gpu.lan:11434".to_string();
    assert!(!other.is_default());
}
