//! Requests, replies and the daemon's lock.

use mdya::get::{
    first_string_column, found_chunk, found_document, require_collection, GetError,
};
use mdya::config::{CollectionEntry, Collections};
use mdya::introspect::output::xml_escape;
use mdya::mcp::pid_lock::{lock_exclusive, pid_file_text, LockAttempt};
use mdya::mcp::request::DEFAULT_K;
use mdya::mcp::{
    document_reply, document_within_cap, lookup_for, GetDocumentRequest, Lookup, McpErrorCode,
    PidLockError, SearchRequest,
};
use mdya::search::SearchLevel;

fn request(chunk: Option<u32>) -> GetDocumentRequest {
    GetDocumentRequest { collection: "notes".to_string(), path: "a.md".to_string(), chunk }
}

#[test]
fn a_search_request_keeps_its_fields() {
    let made = SearchRequest {
        query: "q".to_string(),
        k: DEFAULT_K,
        collections: vec!["notes".to_string()],
        level: SearchLevel::Chunk,
    }
    .into_engine_request();
    assert_eq!(made.query, "q");
    assert_eq!(made.limit, 20);
    assert_eq!(made.collections, vec!["notes"]);
    assert_eq!(made.level, SearchLevel::Chunk);
}

#[test]
fn a_reply_echoes_what_was_asked_for() {
    assert_eq!(lookup_for(&request(None)), Lookup::FullDocument);
    assert_eq!(lookup_for(&request(Some(2))), Lookup::Chunk(2));
    let reply = document_reply(request(None), Ok("text".to_string())).expect("found");
    assert_eq!(
        (reply.collection.as_str(), reply.path.as_str(), reply.content.as_str()),
        ("notes", "a.md", "text")
    );
    let missing = found_document("notes", "a.md", None);
    let error = document_reply(request(None), missing).expect_err("missing");
    assert_eq!(error.code, McpErrorCode::NotFound);
    assert_eq!(error.message, "document not found: notes/a.md");
}

#[test]
fn the_first_value_of_a_result_is_taken() {
    let batches = vec![
        vec![],
        vec![None, Some("late".to_string())],
        vec![Some("found".to_string())],
        vec![Some("later".to_string())],
    ];
    assert_eq!(first_string_column(&batches).as_deref(), Some("found"));
    assert_eq!(first_string_column(&batches[..2]), None);
    assert_eq!(first_string_column(&[]), None);
    assert_eq!(
        found_chunk("notes", "a.md", 4, Some("body".to_string())).expect("found"),
        "body"
    );
    assert!(matches!(
        found_chunk("notes", "a.md", 4, None),
        Err(GetError::ChunkNotFound { chunk_sequence: 4, .. })
    ));
}

#[test]
fn an_undeclared_collection_is_unknown() {
    let mut known = Collections::new();
    known.insert(
        "notes".to_string(),
        CollectionEntry { path: "/n".to_string(), description: None },
    );
    assert!(require_collection(&known, "notes").is_ok());
    assert_eq!(
        require_collection(&known, "ghost").expect_err("unknown").message(),
        "unknown collection: 'ghost'"
    );
}

#[test]
fn second_lock_on_same_path_reports_already_running() {
    let path = "/c/mcp.pid";
    assert!(lock_exclusive(path, LockAttempt::Taken).is_ok());
    let err = lock_exclusive(path, LockAttempt::WouldBlock).expect_err("second must fail");
    assert!(matches!(err, PidLockError::AlreadyRunning(p) if p == path));
}

#[test]
fn lock_errors_are_named() {
    let held = PidLockError::AlreadyRunning("/c/mcp.pid".to_string());
    assert_eq!(
        held.message(),
        "another mdya MCP daemon is already running for this config dir (lock held on \
         /c/mcp.pid)"
    );
    let failed = lock_exclusive("/c/mcp.pid", LockAttempt::Failed("io".to_string()));
    assert_eq!(failed.expect_err("io").message(), "open pid file /c/mcp.pid: io");
    assert_eq!(pid_file_text(4242), "4242");
}

#[test]
fn xml_text_is_escaped() {
    assert_eq!(
        xml_escape("<a href=\"x\">R&D's</a>"),
        "&lt;a href=&quot;x&quot;&gt;R&amp;D&apos;s&lt;/a&gt;"
    );
    assert_eq!(xml_escape("個人メモ"), "個人メモ");
}

#[test]
fn only_a_whole_document_is_capped() {
    let found = || Ok("あ".to_string());
    assert!(matches!(
        document_within_cap(Lookup::FullDocument, 2, found()),
        Err(GetError::DocumentTooLarge { size_bytes: 3, limit_bytes: 2 })
    ));
    assert_eq!(document_within_cap(Lookup::FullDocument, 3, found()).expect("fits"), "あ");
    assert_eq!(document_within_cap(Lookup::FullDocument, 0, found()).expect("off"), "あ");
    assert_eq!(document_within_cap(Lookup::Chunk(0), 2, found()).expect("chunk"), "あ");
    let missing =
        || Err(GetError::NotFound { collection: "c".to_string(), path: "p".to_string() });
    assert!(matches!(
        document_within_cap(Lookup::FullDocument, 2, missing()),
        Err(GetError::NotFound { .. })
    ));
}
