//! The command line and the small decisions behind the commands.

use mdya::cli::dim::{declared_dim_source, dim_from_pin, dim_from_server, DimSource};
use mdya::cli::get::{format_mib, within_cap};
use mdya::cli::init::{init_dirs, missing_tables, table_exists, InitError};
use mdya::cli::log_writer::{ActiveBar, ProgressAwareStderr};
use mdya::cli::search::args_into_request;
use mdya::cli::stress::{run as stress, StressCommand};
use mdya::cli::update_all::{
    expand_collection_paths, expand_collection_paths_from, resolve_embed_parallelism, run_result,
};
use mdya::cli::vector::{
    already_using, declare_model, prompt_text, switch_result, user_confirms, Confirmation,
};
use mdya::cli::{
    read_memory_limit_mb, version_line, Cli, CollectionCommand, Command, LogFormat, OutputFormat,
    SearchArgs, SearchCommand, Task, VectorCommand,
};
use mdya::config::{CollectionEntry, Collections, Config, ConfigError, RuntimeConfig};
use mdya::ingest::UpdateSummary;
use mdya::runtime::{breach, breach_message, install, BYTES_PER_MB};
use mdya::search::{validate_request, SearchError, SearchLevel, SearchRequest};

fn cli(command: Command) -> Cli {
    Cli {
        config_dir: Some("/c".to_string()),
        model_cache_dir: Some("/m".to_string()),
        log_level: None,
        log_format: LogFormat::Compact,
        no_color: true,
        command,
    }
}

fn args(chunks: bool) -> SearchArgs {
    SearchArgs {
        query: "q".to_string(),
        collections: vec!["notes".to_string()],
        limit: 20,
        chunks,
        format: OutputFormat::Md,
    }
}

#[test]
fn every_command_becomes_its_task() {
    assert!(matches!(cli(Command::Init).run(), Task::Init { config_dir: Some(ref d) } if d == "/c"));
    assert!(matches!(cli(Command::Version).run(), Task::Version));
    assert!(matches!(
        cli(Command::UpdateAll).run(),
        Task::UpdateAll { model_cache_dir: Some(ref d), .. } if d == "/m"
    ));
    let add = CollectionCommand::Add {
        path: "~/n".to_string(),
        name: None,
        description: Some("d".to_string()),
    };
    assert!(matches!(
        cli(Command::Collection(add)).run(),
        Task::AddCollection { ref path, name: None, description: Some(_), .. } if path == "~/n"
    ));
    let list = CollectionCommand::List { format: OutputFormat::Xml };
    assert!(matches!(
        cli(Command::Collection(list)).run(),
        Task::ListCollections { format: OutputFormat::Xml, .. }
    ));
    assert!(matches!(
        cli(Command::Search(SearchCommand::Fts(args(false)))).run(),
        Task::SearchFts { no_color: true, .. }
    ));
    assert!(matches!(
        cli(Command::Search(SearchCommand::Vector(args(false)))).run(),
        Task::SearchVector { .. }
    ));
    assert!(matches!(
        cli(Command::Search(SearchCommand::Hybrid(args(false)))).run(),
        Task::SearchHybrid { .. }
    ));
    let switch = VectorCommand::Use { model: "ollama:x".to_string(), yes: true };
    assert!(matches!(
        cli(Command::Vector(switch)).run(),
        Task::UseModel { ref model, yes: true, .. } if model == "ollama:x"
    ));
    assert!(matches!(
        cli(Command::Mcp { http: true, addr: "a".to_string() }).run(),
        Task::ServeHttp { ref addr, .. } if addr == "a"
    ));
    assert!(matches!(
        cli(Command::Mcp { http: false, addr: "a".to_string() }).run(),
        Task::ServeStdio { .. }
    ));
    assert!(matches!(
        cli(Command::Stress(StressCommand::Allocate { mb: 1 })).run(),
        Task::Stress(StressCommand::Allocate { mb: 1 })
    ));
    assert!(matches!(
        cli(Command::Status { format: OutputFormat::Json }).run(),
        Task::Status { format: OutputFormat::Json, .. }
    ));
    let get = Command::Get {
        collection: "notes".to_string(),
        path: "a.md".to_string(),
        chunk: Some(3),
        no_size_limit: true,
    };
    assert!(matches!(
        cli(get).run(),
        Task::Get { chunk: Some(3), no_size_limit: true, .. }
    ));
    assert_eq!(version_line("0.3.0"), "mdya v0.3.0");
}

#[test]
fn arguments_become_a_request() {
    let (doc, format) = args_into_request(args(false));
    assert_eq!(doc.level, SearchLevel::Doc);
    assert_eq!(format, OutputFormat::Md);
    assert_eq!((doc.query.as_str(), doc.limit), ("q", 20));
    assert_eq!(args_into_request(args(true)).0.level, SearchLevel::Chunk);
}

#[test]
fn requests_are_checked_in_order() {
    let mut known = Collections::new();
    known.insert(
        "notes".to_string(),
        CollectionEntry { path: "/n".to_string(), description: None },
    );
    let request = |query: &str, limit: u32, collections: &[&str]| SearchRequest {
        query: query.to_string(),
        collections: collections.iter().map(|c| c.to_string()).collect(),
        limit,
        level: SearchLevel::default(),
    };
    assert!(validate_request(&request("q", 1, &["notes"]), &known).is_ok());
    assert!(validate_request(&request("q", 1, &[]), &known).is_ok());
    assert!(matches!(
        validate_request(&request(" \n", 0, &["x"]), &known),
        Err(SearchError::EmptyQuery)
    ));
    assert!(matches!(
        validate_request(&request("q", 0, &["x"]), &known),
        Err(SearchError::InvalidLimit)
    ));
    let err = validate_request(&request("q", 1, &["notes", "x", "y"]), &known)
        .expect_err("unknown");
    assert_eq!(err.message(), "unknown collection: 'x'");
}

#[test]
fn mebibytes_are_rounded_as_doubles_are() {
    let mut samples: Vec<u64> = vec![0, 1, 52_428, 52_429, 104_857, 104_858, u64::MAX];
    for shift in 0..64 {
        let base = 1_u64 << shift;
        for delta in [0, 1, 3, 1023, 26_214, 26_215, 78_643, 131_072] {
            samples.push(base.saturating_add(delta));
            samples.push(base.saturating_sub(delta));
            samples.push((base | (base >> 1)).wrapping_add(delta * 7));
        }
    }
    for bytes in samples {
        assert_eq!(
            format_mib(bytes),
            format!("{:.1} MiB", bytes as f64 / (1024.0 * 1024.0)),
            "{bytes}"
        );
    }
}

#[test]
fn a_document_above_the_cap_is_named_with_its_size() {
    let text = "x".repeat(2_621_440);
    assert_eq!(
        within_cap(text.clone(), false, 1_048_576).expect_err("large"),
        "document too large: 2.5 MiB > 1.0 MiB (use --no-size-limit to override)"
    );
    assert!(within_cap(text.clone(), true, 1_048_576).is_ok());
    assert!(within_cap(text.clone(), false, 0).is_ok());
    assert_eq!(within_cap("ab".to_string(), false, 2).expect("fits"), "ab");
}

#[test]
fn the_vector_length_has_its_sources() {
    assert_eq!(
        declared_dim_source("cl-nagoya/ruri-v3-30m").expect("known"),
        DimSource::Known(256)
    );
    assert_eq!(declared_dim_source("ollama:x").expect("pin"), DimSource::ReadPin);
    assert_eq!(
        declared_dim_source("gpt").expect_err("unknown").message(),
        "unsupported embedding model 'gpt': expected a recognized on-device model or an \
         'ollama:<model>' value"
    );
    assert_eq!(dim_from_pin(Some("768")), DimSource::Known(768));
    assert_eq!(dim_from_pin(Some("x")), DimSource::Probe);
    assert_eq!(dim_from_pin(Some("2147483648")), DimSource::Probe);
    assert_eq!(dim_from_pin(None), DimSource::Probe);
    assert_eq!(dim_from_server(768).expect("fits"), 768);
    assert_eq!(
        dim_from_server(2_147_483_648).expect_err("large").message(),
        "ollama vector dim 2147483648 does not fit in i32"
    );
}

#[test]
fn init_makes_what_is_missing() {
    assert_eq!(init_dirs(), vec!["", "index", "lance-models"]);
    let names = vec!["sources".to_string()];
    let missing = missing_tables(&names);
    assert!(missing.chunks && !missing.sources);
    assert!(table_exists(&names, "sources") && !table_exists(&names, "chunks"));
    let mkdir = InitError::Mkdir { path: "/b".to_string(), source: "denied".to_string() };
    assert_eq!(mkdir.message(), "create directory /b: denied");
}

#[test]
fn init_is_idempotent_once_both_tables_are_there() {
    let names = vec!["chunks".to_string(), "sources".to_string()];
    let missing = missing_tables(&names);
    assert!(!missing.chunks && !missing.sources);
}

#[test]
fn registration_is_active_until_the_guard_drops() {
    let mut slot = ActiveBar::new();
    let guard = slot.register(7);
    assert!(slot.current.is_some(), "registered bar must be active");
    let mut line = ProgressAwareStderr.make_writer(&slot);
    slot.release(guard);
    assert!(slot.current.is_none(), "guard drop must clear the active bar");
    assert_eq!(line.bar, Some(7));
    assert_eq!(line.write(b"one "), 4);
    assert_eq!(line.write(b"line\n"), 5);
    assert_eq!(line.emit().expect("bytes"), b"one line\n");
    assert_eq!(line.emit(), None);
}

#[test]
fn a_switch_is_confirmed_or_refused() {
    assert_eq!(
        already_using("m", "m").as_deref(),
        Some("Already using 'm'; nothing to do.")
    );
    assert_eq!(already_using("m", "n"), None);
    assert_eq!(user_confirms(true, false).expect("flag"), Confirmation::Given);
    assert_eq!(user_confirms(false, true).expect("terminal"), Confirmation::Ask);
    assert_eq!(
        user_confirms(false, false).expect_err("refused").message(),
        "refusing to run a destructive model switch without --yes on a non-interactive stdin"
    );
    assert_eq!(
        prompt_text("a", "b", 256, 2),
        "This will switch the embedding model:\n  a -> b (dim 256)\nThe chunks index will be \
         DROPPED and 2 collection(s) re-embedded from scratch.\nProceed? [y/N]: "
    );
    let mut cfg = Config::init_template();
    declare_model(&mut cfg, "ollama:x");
    assert_eq!(cfg.embedding.model, "ollama:x");
}

#[test]
fn failed_files_fail_the_command() {
    let mut summary = UpdateSummary::default();
    assert!(run_result(&summary).is_ok() && switch_result(&summary).is_ok());
    summary.failed = 2;
    assert_eq!(
        run_result(&summary).expect_err("failed").message(),
        "2 file(s) failed during ingest — check warnings above for details"
    );
    assert_eq!(
        switch_result(&summary).expect_err("failed").message(),
        "2 file(s) failed during re-embed — check warnings above for details"
    );
}

#[test]
fn limits_of_the_process() {
    let runtime = |embed_parallelism: usize| RuntimeConfig { memory_limit_mb: 1, embed_parallelism };
    assert_eq!(resolve_embed_parallelism(&runtime(8)), (8, false));
    assert_eq!(resolve_embed_parallelism(&runtime(99_999)), (1024, true));
    let mut cfg = Config::init_template();
    cfg.runtime.memory_limit_mb = 16;
    assert_eq!(read_memory_limit_mb(Ok(&cfg)), 16);
    assert_eq!(read_memory_limit_mb(Err(ConfigError::NoHomeDir)), 8192);
    assert_eq!(install(16), Some(16));
    assert_eq!(breach(17 * BYTES_PER_MB, 16), Some(17));
    assert_eq!(breach(17 * BYTES_PER_MB - 1, 16), None);
    assert_eq!(
        breach_message(17, 16),
        "memory limit exceeded (17 MB > 16 MB), self-terminating"
    );
    assert_eq!(stress(&StressCommand::Allocate { mb: 3 }), 3_145_728);
    assert_eq!(stress(&StressCommand::Allocate { mb: u64::MAX }), usize::MAX);
}

#[test]
fn collection_paths_are_expanded() {
    let mut collections = Collections::new();
    collections.insert(
        "b".to_string(),
        CollectionEntry { path: "/abs".to_string(), description: None },
    );
    collections.insert(
        "a".to_string(),
        CollectionEntry { path: "~/n".to_string(), description: None },
    );
    let roots = expand_collection_paths(&collections);
    assert_eq!(roots[0].name, "a");
    let home = dirs::home_dir().expect("home in test environment");
    assert_eq!(roots[0].root, home.join("n").to_str().expect("utf-8"));
    assert_eq!((roots[1].name.as_str(), roots[1].root.as_str()), ("b", "/abs"));
}

#[test]
fn every_collection_is_expanded_with_one_home() {
    let mut collections = Collections::new();
    for (name, path) in [("b", "~/b"), ("a", "/a"), ("c", "~")] {
        let entry = CollectionEntry { path: path.to_string(), description: None };
        collections.insert(name.to_string(), entry);
    }
    let roots = |home: Option<&str>| -> Vec<(String, String)> {
        expand_collection_paths_from(&collections, home)
            .into_iter()
            .map(|root| (root.name, root.root))
            .collect()
    };
    let pairs = |list: [(&str, &str); 3]| list.map(|(n, p)| (n.to_string(), p.to_string()));
    assert_eq!(roots(Some("/h")), pairs([("a", "/a"), ("b", "/h/b"), ("c", "/h")]));
    assert_eq!(roots(None), pairs([("a", "/a"), ("b", "~/b"), ("c", "~")]));
}
