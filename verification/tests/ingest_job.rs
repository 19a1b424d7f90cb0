//! The work on one file, and what a run leaves behind.

use mdya::chunking::Chunk;
use mdya::extract::pdf::PdfFound;
use mdya::extract::ExtractError;
use mdya::ingest::error::MetadataKey;
use mdya::ingest::hash::content_hash;
use mdya::ingest::indices::{
    covers, on_embedding_count, on_fts, on_indices, on_optimized, on_row_count, on_vector,
    IndexStep,
};
use mdya::ingest::job::{FileJob, FileStep};
use mdya::ingest::time::Timestamp;
use mdya::ingest::writer::{
    build_rows, check_metadata, enforce_schema_metadata, file_outcome, plan_embed_batches,
    plan_upsert, record_outcome, record_outcomes, record_removed, MetadataOutcome,
};
use mdya::ingest::{Action, DbRow, FileOutcome, IngestError, UpdateSummary};

fn pdf_text(bytes: &[u8]) -> PdfFound {
    pdf_extract::extract_text_from_mem(bytes).map_err(|e| Some(e.to_string()))
}

const TEXT: &[u8] = b"# Title\n\nBody\n";

fn at(secs: i64) -> Timestamp {
    Timestamp::new(secs, 0).expect("time")
}

fn stored(secs: i64, hash: &str) -> Option<DbRow> {
    Some(DbRow { modified_at: at(secs), source_hash: hash.to_string() })
}

fn job(row: Option<DbRow>, source: Option<&str>) -> FileJob {
    FileJob::open("/n", "a.md", row, source.map(str::to_string)).expect("safe path")
}

#[test]
fn a_new_file_writes_its_source_and_then_its_chunks() {
    let job = job(None, None);
    assert_eq!(job.absolute, "/n/a.md");
    let step = job.on_mtime(Ok(at(5)));
    assert!(matches!(step, FileStep::ReadBytes { mtime } if mtime == at(5)));
    let FileStep::UpsertSource { plan } = job.on_bytes(at(5), Ok(TEXT.to_vec()), &pdf_text) else {
        panic!("the source comes first");
    };
    assert_eq!(plan.action, Action::New);
    assert_eq!(plan.source_hash, content_hash(TEXT));
    assert_eq!(plan.content.as_bytes(), TEXT);
    let FileStep::ReplaceChunks { plan, chunks } = job.on_source_written(plan, Ok(())) else {
        panic!("the chunks come next");
    };
    assert_eq!(chunks.len(), 1);
    assert_eq!(chunks[0].body, "Title\n\nBody");
    let step = job.on_chunks_written(plan.action, Ok(()));
    assert!(matches!(step, FileStep::Done(FileOutcome::New)));
}

#[test]
fn an_unchanged_file_is_passed_over_unread() {
    let job = job(stored(5, "h"), Some("h"));
    assert!(matches!(job.on_mtime(Ok(at(5))), FileStep::Done(FileOutcome::Skipped)));
}

#[test]
fn a_file_is_passed_over_by_its_time_to_the_microsecond() {
    let nanos = |n: u32| Timestamp::new(5, n).expect("time");
    let job = job(stored(5, "h"), Some("h"));
    assert!(matches!(job.on_mtime(Ok(nanos(500))), FileStep::Done(FileOutcome::Skipped)));
    assert!(matches!(job.on_mtime(Ok(nanos(999))), FileStep::Done(FileOutcome::Skipped)));
    assert!(matches!(job.on_mtime(Ok(nanos(1_000))), FileStep::ReadBytes { .. }));
    let row = stored(5, "h");
    assert_eq!(Action::decide(nanos(500), "g", row.as_ref()), Action::Skip);
    assert_eq!(Action::decide(nanos(1_000), "h", row.as_ref()), Action::TouchMtime);
}

#[test]
fn tables_that_disagree_force_a_read() {
    let hash = content_hash(TEXT);
    for source in [None, Some("stale")] {
        let job = job(stored(5, &hash), source);
        assert!(matches!(job.on_mtime(Ok(at(5))), FileStep::ReadBytes { .. }));
        let FileStep::UpsertSource { plan } = job.on_bytes(at(5), Ok(TEXT.to_vec()), &pdf_text) else {
            panic!("the source is repaired");
        };
        assert_eq!(plan.action, Action::Skip);
        let step = job.on_source_written(plan, Ok(()));
        assert!(matches!(step, FileStep::Done(FileOutcome::Skipped)));
    }
}

#[test]
fn tables_that_disagree_over_changed_content_are_brought_together() {
    for source in [None, Some("stale")] {
        let job = job(stored(5, "old"), source);
        assert!(matches!(job.on_mtime(Ok(at(5))), FileStep::ReadBytes { .. }));
        let FileStep::UpsertSource { plan } = job.on_bytes(at(5), Ok(TEXT.to_vec()), &pdf_text)
        else {
            panic!("the source comes first");
        };
        assert_eq!(plan.action, Action::Reingest);
        assert_eq!(plan.source_hash, content_hash(TEXT));
        let FileStep::ReplaceChunks { plan, chunks } = job.on_source_written(plan, Ok(())) else {
            panic!("the chunks follow, though the time is the stored one");
        };
        assert_eq!(chunks[0].body, "Title\n\nBody");
        let step = job.on_chunks_written(plan.action, Ok(()));
        assert!(matches!(step, FileStep::Done(FileOutcome::Updated)));
    }
}

#[test]
fn a_pdf_is_read_by_the_given_extractor() {
    let job = FileJob::open("/n", "a.pdf", None, None).expect("safe");
    let reads = |bytes: &[u8]| -> PdfFound { Ok(format!("{} bytes", bytes.len())) };
    let FileStep::UpsertSource { plan } = job.on_bytes(at(5), Ok(vec![1, 2, 3]), &reads) else {
        panic!("the source comes first");
    };
    assert_eq!(plan.content, "3 bytes");
    assert_eq!(plan.source_hash, content_hash(&[1, 2, 3]));
    let panics = |_: &[u8]| -> PdfFound { Err(None) };
    let FileStep::Failed(err) = job.on_bytes(at(5), Ok(vec![1]), &panics) else {
        panic!("the failure is passed on");
    };
    assert_eq!(err.message(), "extract: pdf extract failed: the extractor panicked");
}

#[test]
fn a_touched_file_gets_its_time_alone() {
    let hash = content_hash(TEXT);
    let job = job(stored(4, &hash), Some(&hash));
    let FileStep::UpdateMtime { plan } = job.on_bytes(at(5), Ok(TEXT.to_vec()), &pdf_text) else {
        panic!("the time is written");
    };
    assert_eq!(plan.action, Action::TouchMtime);
    let step = job.on_chunks_written(plan.action, Ok(()));
    assert!(matches!(step, FileStep::Done(FileOutcome::Skipped)));
}

#[test]
fn a_changed_file_is_taken_in_again() {
    let job = job(stored(4, "old"), Some("old"));
    let FileStep::UpsertSource { plan } = job.on_bytes(at(5), Ok(TEXT.to_vec()), &pdf_text) else {
        panic!("the source comes first");
    };
    assert_eq!(plan.action, Action::Reingest);
    let step = job.on_chunks_written(plan.action, Ok(()));
    assert!(matches!(step, FileStep::Done(FileOutcome::Updated)));
}

#[test]
fn text_that_was_extracted_is_planned_for() {
    let job = FileJob::open("/n", "a.pdf", stored(4, "h"), Some("h".to_string())).expect("safe");
    let step = job.on_content(at(5), "h".to_string(), Ok("text".to_string()));
    assert!(matches!(step, FileStep::UpdateMtime { ref plan } if plan.content == "text"));
    let step = job.on_content(at(5), "g".to_string(), Ok("text".to_string()));
    assert!(matches!(step, FileStep::UpsertSource { ref plan } if plan.action == Action::Reingest));
    let step = job.on_content(at(5), "g".to_string(), Err(ExtractError::Pdf("x".to_string())));
    let FileStep::Failed(err) = step else {
        panic!("the error is passed on");
    };
    assert_eq!(err.message(), "extract: pdf extract failed: x");
}

#[test]
fn errors_of_a_file_are_passed_on() {
    let job = job(None, None);
    assert!(matches!(
        job.on_mtime(Err("gone".to_string())),
        FileStep::Failed(IngestError::Io(ref t)) if t == "gone"
    ));
    assert!(matches!(
        job.on_bytes(at(1), Err("gone".to_string()), &pdf_text),
        FileStep::Failed(IngestError::Io(_))
    ));
    assert!(matches!(
        job.on_bytes(at(1), Ok(vec![0xff]), &pdf_text),
        FileStep::Failed(IngestError::Extract(_))
    ));
    let failed = job.on_chunks_written(Action::New, Err(IngestError::WriteChunks("x".to_string())));
    assert!(matches!(failed, FileStep::Failed(IngestError::WriteChunks(_))));
    assert!(matches!(
        FileJob::open("/n", "../a.md", None, None),
        Err(IngestError::PathTraversal { ref rel_path }) if rel_path == "../a.md"
    ));
    assert_eq!(file_outcome(&Err(IngestError::Io("x".to_string()))), FileOutcome::Failed);
    assert_eq!(file_outcome(&Ok(FileOutcome::New)), FileOutcome::New);
}

fn chunk(body: &str) -> Chunk {
    Chunk { body: body.to_string() }
}

#[test]
fn bodies_are_embedded_in_groups_without_the_empty_ones() {
    let mut chunks: Vec<Chunk> = (0..70).map(|i| chunk(&format!("t{i}"))).collect();
    chunks[3] = chunk("");
    let batches = plan_embed_batches(&chunks);
    let sizes: Vec<usize> = batches.iter().map(Vec::len).collect();
    assert_eq!(sizes, vec![31, 32, 6]);
    let flat: Vec<String> = batches.into_iter().flatten().collect();
    let expected: Vec<String> =
        chunks.iter().map(|c| c.body.clone()).filter(|b| !b.is_empty()).collect();
    assert_eq!(flat, expected);
    assert!(plan_embed_batches(&[chunk("")]).is_empty());
    let plan = plan_upsert("notes", "a.md", &chunks);
    assert_eq!(plan.scope_filter, "collection = 'notes' AND path = 'a.md'");
    assert_eq!(plan.batches.len(), 3);
}

#[test]
fn rows_are_numbered_and_the_placeholder_has_no_vector() {
    let chunks = vec![chunk("a"), chunk(""), chunk("b")];
    let rows = build_rows("notes", "x.md", at(2), "hash", 256, &chunks).expect("rows");
    assert_eq!(rows.len(), 3);
    let sequence: Vec<u32> = rows.iter().map(|r| r.chunk_sequence).collect();
    assert_eq!(sequence, vec![0, 1, 2]);
    let vectors: Vec<Option<usize>> = rows.iter().map(|r| r.vector).collect();
    assert_eq!(vectors, vec![Some(0), None, Some(1)]);
    assert!(rows.iter().all(|r| r.collection == "notes"
        && r.path == "x.md"
        && r.modified_at == 2_000_000
        && r.source_hash == "hash"));
    assert_eq!(rows[2].body, "b");
}

#[test]
fn counts_sum_up_whatever_the_order() {
    let outcomes = [
        FileOutcome::New,
        FileOutcome::Skipped,
        FileOutcome::Failed,
        FileOutcome::Skipped,
        FileOutcome::Updated,
    ];
    let mut forward = UpdateSummary::default();
    record_outcomes(&mut forward, &outcomes);
    let mut reversed = outcomes;
    reversed.reverse();
    let mut backward = UpdateSummary::default();
    record_outcomes(&mut backward, &reversed);
    assert_eq!(forward, backward);
    assert_eq!(forward.skipped, 2);
    assert_eq!(forward.new + forward.updated + forward.skipped + forward.failed, 5);
}

#[test]
fn a_full_count_stands_in_no_other_count_s_way() {
    let mut summary = UpdateSummary { new: u64::MAX, ..UpdateSummary::default() };
    record_outcome(&mut summary, FileOutcome::Skipped);
    record_outcomes(&mut summary, &[FileOutcome::Failed, FileOutcome::Skipped]);
    assert_eq!((summary.new, summary.skipped, summary.failed), (u64::MAX, 2, 1));
}

#[test]
fn pins_that_disagree_refuse_the_run() {
    assert!(enforce_schema_metadata(MetadataOutcome::Pass, "m", 256).is_ok());
    let err = enforce_schema_metadata(
        MetadataOutcome::Mismatch {
            actual_embedding_model: "other".to_string(),
            actual_vector_dim: "384".to_string(),
        },
        "m",
        256,
    )
    .expect_err("mismatch");
    assert_eq!(
        err.message(),
        "schema metadata pin mismatch: config.yml declares embedding_model='m' / \
         vector_dim=256, but the chunks table reports embedding_model='other' / \
         vector_dim=384. To recover, remove `~/.mdya/index/`, run `mdya init`, and re-run \
         `mdya update-all`."
    );
    let err = enforce_schema_metadata(
        MetadataOutcome::Missing {
            absent_keys: vec![MetadataKey::EmbeddingModel, MetadataKey::VectorDim],
        },
        "m",
        256,
    )
    .expect_err("missing");
    assert_eq!(
        err.message(),
        "schema metadata pin missing: chunks table's Schema::metadata lacks key(s) \
         [\"embedding_model\", \"vector_dim\"]. This usually means the database was created \
         before the metadata pin was added; remove `~/.mdya/index/`, run `mdya init`, and \
         re-run `mdya update-all`."
    );
}

#[test]
fn pins_are_compared_text_for_text() {
    let (model, dim, other) = ("m".to_string(), "256".to_string(), "0256".to_string());
    assert!(matches!(
        check_metadata(Some(&model), Some(&dim), "m", 256),
        MetadataOutcome::Pass
    ));
    assert!(matches!(
        check_metadata(Some(&model), Some(&other), "m", 256),
        MetadataOutcome::Mismatch { ref actual_vector_dim, .. } if actual_vector_dim == "0256"
    ));
    assert!(matches!(
        check_metadata(Some(&model), Some(&dim), "n", 256),
        MetadataOutcome::Mismatch { ref actual_embedding_model, .. } if actual_embedding_model == "m"
    ));
    assert!(matches!(
        check_metadata(None, Some(&dim), "m", 256),
        MetadataOutcome::Missing { ref absent_keys } if *absent_keys == vec![MetadataKey::EmbeddingModel]
    ));
    let mut summary = UpdateSummary::default();
    record_removed(&mut summary);
    record_removed(&mut summary);
    assert_eq!(summary.removed, 2);
}

#[test]
fn indices_are_built_once_and_only_over_rows() {
    assert!(matches!(on_row_count(Ok(0)), IndexStep::Done(Ok(()))));
    assert!(matches!(on_row_count(Ok(1)), IndexStep::ListIndices));
    assert!(matches!(
        on_row_count(Err("x".to_string())),
        IndexStep::Done(Err(IngestError::CountRows(_)))
    ));
    let body = vec!["body".to_string()];
    let both = vec![body.clone(), vec!["other".to_string(), "embedding".to_string()]];
    assert!(covers(&both, "embedding"));
    assert!(!covers(&[body.clone()], "embedding"));
    assert!(matches!(on_indices(Ok(both)), IndexStep::Optimize));
    assert!(matches!(on_indices(Ok(vec![body])), IndexStep::CountEmbeddings));
    assert!(matches!(on_indices(Ok(vec![])), IndexStep::CreateFts { vector: true }));
    assert!(matches!(
        on_indices(Ok(vec![vec!["embedding".to_string()]])),
        IndexStep::CreateFts { vector: false }
    ));
    assert!(matches!(
        on_indices(Err("x".to_string())),
        IndexStep::Done(Err(IngestError::ListIndices(_)))
    ));
    assert!(matches!(on_fts(true, Ok(())), IndexStep::CountEmbeddings));
    assert!(matches!(on_fts(false, Ok(())), IndexStep::Optimize));
    assert!(matches!(on_embedding_count(Ok(0)), IndexStep::Optimize));
    assert!(matches!(on_embedding_count(Ok(1)), IndexStep::CreateVector));
    assert!(matches!(
        on_embedding_count(Err("x".to_string())),
        IndexStep::Done(Err(IngestError::CountRows(_)))
    ));
    assert!(matches!(on_vector(Ok(())), IndexStep::Optimize));
    assert!(matches!(
        on_vector(Err("x".to_string())),
        IndexStep::Done(Err(IngestError::CreateVectorIndex(_)))
    ));
    assert!(matches!(on_optimized(Ok(())), IndexStep::Done(Ok(()))));
    assert!(matches!(
        on_optimized(Err("x".to_string())),
        IndexStep::Done(Err(IngestError::OptimizeIndex(_)))
    ));
    let IndexStep::Done(Err(err)) = on_fts(true, Err("x".to_string())) else {
        panic!("an error is reported");
    };
    assert_eq!(err.message(), "create FTS index on `body`: x");
}
