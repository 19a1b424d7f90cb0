//! What is written for one file, and how a run is counted.

use crate::chunking::{bodies, Chunk};
use crate::embedding::texts_view;
use crate::ingest::error::{IngestError, MetadataKey};
use crate::ingest::progress::FileOutcome;
use crate::ingest::rows::{is_safe_relative, safe_relative};
use crate::ingest::sql::{row_predicate, row_predicate_spec};
use crate::ingest::time::Timestamp;
use crate::introspect::{absent_keys_spec, absent_pin_keys};
use crate::text::{same_text, signed_decimal, signed_decimal_spec};
use vstd::prelude::*;

verus! {

/// Most texts that are embedded in one call.
pub const EMBED_BATCH_SIZE: usize = 32;

/// The counts of a run.
#[derive(Debug, Clone, Copy, PartialEq, Eq, Structural)]
pub struct UpdateSummary {
    pub new: u64,
    pub updated: u64,
    pub skipped: u64,
    pub removed: u64,
    pub failed: u64,
}

impl Default for UpdateSummary {
    fn default() -> (summary: Self)
        ensures
            summary == (UpdateSummary { new: 0, updated: 0, skipped: 0, removed: 0, failed: 0 }),
    {
        UpdateSummary { new: 0, updated: 0, skipped: 0, removed: 0, failed: 0 }
    }
}

/// How many of `outcomes` are `kind`.
pub open spec fn count_of(outcomes: Seq<FileOutcome>, kind: FileOutcome) -> nat
    decreases outcomes.len(),
{
    if outcomes.len() == 0 {
        0
    } else {
        count_of(outcomes.drop_last(), kind) + (if outcomes.last() == kind {
            1nat
        } else {
            0nat
        })
    }
}

/// `after` is `before` with `outcomes` counted.
pub open spec fn counted(
    before: UpdateSummary,
    outcomes: Seq<FileOutcome>,
    after: UpdateSummary,
) -> bool {
    &&& after.new == before.new + count_of(outcomes, FileOutcome::New)
    &&& after.updated == before.updated + count_of(outcomes, FileOutcome::Updated)
    &&& after.skipped == before.skipped + count_of(outcomes, FileOutcome::Skipped)
    &&& after.failed == before.failed + count_of(outcomes, FileOutcome::Failed)
    &&& after.removed == before.removed
}

/// The count of the files with this outcome.
pub open spec fn counter_of(summary: UpdateSummary, kind: FileOutcome) -> u64 {
    match kind {
        FileOutcome::New => summary.new,
        FileOutcome::Updated => summary.updated,
        FileOutcome::Skipped => summary.skipped,
        FileOutcome::Failed => summary.failed,
    }
}

/// No count exceeds the largest number once `outcomes` are counted.
pub open spec fn has_room(summary: UpdateSummary, outcomes: Seq<FileOutcome>) -> bool {
    forall|kind: FileOutcome| #[trigger]
        counter_of(summary, kind) + count_of(outcomes, kind) <= u64::MAX
}

/// Counts one file.
pub fn record_outcome(summary: &mut UpdateSummary, outcome: FileOutcome)
    requires
        counter_of(*old(summary), outcome) < u64::MAX,
    ensures
        counted(*old(summary), seq![outcome], *final(summary)),
{
    proof {
        let one = seq![outcome];
        assert(one.drop_last() =~= Seq::empty());
        assert forall|kind: FileOutcome| #[trigger]
            count_of(one, kind) == (if outcome == kind {
                1nat
            } else {
                0nat
            }) by {
            assert(count_of(Seq::empty(), kind) == 0);
        }
    }
    match outcome {
        FileOutcome::New => {
            summary.new = summary.new + 1;
        },
        FileOutcome::Updated => {
            summary.updated = summary.updated + 1;
        },
        FileOutcome::Skipped => {
            summary.skipped = summary.skipped + 1;
        },
        FileOutcome::Failed => {
            summary.failed = summary.failed + 1;
        },
    }
}

proof fn count_grows(outcomes: Seq<FileOutcome>, n: int, kind: FileOutcome)
    requires
        0 <= n <= outcomes.len(),
    ensures
        count_of(outcomes.take(n), kind) <= count_of(outcomes, kind),
    decreases outcomes.len(),
{
    if n == outcomes.len() {
        assert(outcomes.take(n) =~= outcomes);
    } else {
        count_grows(outcomes.drop_last(), n, kind);
        assert(outcomes.drop_last().take(n) =~= outcomes.take(n));
    }
}

/// Counts the files of a collection.
pub fn record_outcomes(summary: &mut UpdateSummary, outcomes: &[FileOutcome])
    requires
        has_room(*old(summary), outcomes@),
    ensures
        counted(*old(summary), outcomes@, *final(summary)),
{
    for i in 0..outcomes.len()
        invariant
            has_room(*old(summary), outcomes@),
            counted(*old(summary), outcomes@.take(i as int), *summary),
    {
        let ghost so_far = outcomes@.take(i as int);
        let ghost next = outcomes@.take(i as int + 1);
        proof {
            let kind = outcomes@[i as int];
            assert(next.drop_last() =~= so_far);
            count_grows(outcomes@, i as int + 1, kind);
            assert(counter_of(*old(summary), kind) + count_of(outcomes@, kind) <= u64::MAX);
        }
        record_outcome(summary, outcomes[i]);
        proof {
            let one = seq![outcomes@[i as int]];
            assert(one.drop_last() =~= Seq::empty());
            assert forall|kind: FileOutcome| #[trigger]
                count_of(next, kind) == count_of(so_far, kind) + count_of(one, kind) by {
                assert(count_of(Seq::empty(), kind) == 0);
            }
        }
    }
    proof {
        assert(outcomes@.take(outcomes@.len() as int) =~= outcomes@);
    }
}

/// Every visited file is counted once: the counts of the four outcomes sum up
/// to the number of files.
pub proof fn every_file_is_counted(outcomes: Seq<FileOutcome>)
    ensures
        count_of(outcomes, FileOutcome::New) + count_of(outcomes, FileOutcome::Updated) + count_of(
            outcomes,
            FileOutcome::Skipped,
        ) + count_of(outcomes, FileOutcome::Failed) == outcomes.len(),
    decreases outcomes.len(),
{
    if outcomes.len() > 0 {
        every_file_is_counted(outcomes.drop_last());
    }
}

/// Counts one path whose rows were removed.
pub fn record_removed(summary: &mut UpdateSummary)
    requires
        old(summary).removed < u64::MAX,
    ensures
        *final(summary) == (UpdateSummary {
            removed: (old(summary).removed + 1) as u64,
            ..*old(summary)
        }),
{
    summary.removed = summary.removed + 1;
}

proof fn counts_are_multiplicities(outcomes: Seq<FileOutcome>, kind: FileOutcome)
    ensures
        count_of(outcomes, kind) == outcomes.to_multiset().count(kind),
    decreases outcomes.len(),
{
    broadcast use vstd::seq_lib::group_to_multiset_ensures;

    if outcomes.len() == 0 {
        assert(outcomes.to_multiset().len() == 0);
    } else {
        counts_are_multiplicities(outcomes.drop_last(), kind);
        assert(outcomes =~= outcomes.drop_last().push(outcomes.last()));
    }
}

/// The order in which files finish makes no difference: a run in any other
/// order has the same counts.
pub proof fn order_does_not_count(
    a: Seq<FileOutcome>,
    b: Seq<FileOutcome>,
    before: UpdateSummary,
    after: UpdateSummary,
)
    requires
        a.to_multiset() == b.to_multiset(),
    ensures
        counted(before, a, after) == counted(before, b, after),
{
    counts_are_multiplicities(a, FileOutcome::New);
    counts_are_multiplicities(b, FileOutcome::New);
    counts_are_multiplicities(a, FileOutcome::Updated);
    counts_are_multiplicities(b, FileOutcome::Updated);
    counts_are_multiplicities(a, FileOutcome::Skipped);
    counts_are_multiplicities(b, FileOutcome::Skipped);
    counts_are_multiplicities(a, FileOutcome::Failed);
    counts_are_multiplicities(b, FileOutcome::Failed);
}

/// Refuses a path that would leave the root that it is joined to.
pub fn ensure_under_root(rel_path: &str) -> (result: Result<(), IngestError>)
    ensures
        match result {
            Ok(_) => is_safe_relative(rel_path@),
            Err(e) => !is_safe_relative(rel_path@) && e is PathTraversal && e->rel_path@
                == rel_path@,
        },
{
    if safe_relative(rel_path) {
        Ok(())
    } else {
        Err(IngestError::PathTraversal { rel_path: rel_path.to_string() })
    }
}

/// The texts that are not empty, in order.
pub open spec fn with_text(texts: Seq<Seq<char>>) -> Seq<Seq<char>>
    decreases texts.len(),
{
    if texts.len() == 0 {
        Seq::empty()
    } else if texts.last().len() > 0 {
        with_text(texts.drop_last()).push(texts.last())
    } else {
        with_text(texts.drop_last())
    }
}

/// The calls by which the bodies are embedded: group by group of
/// [`EMBED_BATCH_SIZE`], the empty ones left out, and no call for a group
/// without text.
pub open spec fn embed_batches(texts: Seq<Seq<char>>) -> Seq<Seq<Seq<char>>>
    decreases texts.len(),
{
    if texts.len() == 0 {
        Seq::empty()
    } else {
        let n = if texts.len() < EMBED_BATCH_SIZE {
            texts.len() as int
        } else {
            EMBED_BATCH_SIZE as int
        };
        let group = with_text(texts.take(n));
        let rest = embed_batches(texts.skip(n));
        if group.len() == 0 {
            rest
        } else {
            seq![group] + rest
        }
    }
}

/// Lists of texts, by views.
pub open spec fn batches_view(batches: Seq<Vec<String>>) -> Seq<Seq<Seq<char>>> {
    batches.map_values(|b: Vec<String>| texts_view(b@))
}

/// The calls by which the bodies of `chunks` are embedded.
pub fn plan_embed_batches(chunks: &[Chunk]) -> (batches: Vec<Vec<String>>)
    ensures
        batches_view(batches@) == embed_batches(bodies(chunks@)),
{
    let ghost all = bodies(chunks@);
    let mut batches: Vec<Vec<String>> = Vec::new();
    let total: usize = chunks.len();
    let mut at: usize = 0;
    proof {
        assert(all.skip(0) =~= all);
        assert(batches_view(batches@) + embed_batches(all) =~= embed_batches(all));
    }
    while at < total
        invariant
            at <= total,
            total == chunks@.len(),
            all == bodies(chunks@),
            batches_view(batches@) + embed_batches(all.skip(at as int)) == embed_batches(all),
        decreases chunks@.len() - at,
    {
        let ghost left = all.skip(at as int);
        let n: usize = if total - at < EMBED_BATCH_SIZE {
            total - at
        } else {
            EMBED_BATCH_SIZE
        };
        let mut group: Vec<String> = Vec::new();
        proof {
            assert(texts_view(group@) =~= Seq::empty());
        }
        for k in 0..n
            invariant
                at + n <= total,
                total == chunks@.len(),
                all == bodies(chunks@),
                left == all.skip(at as int),
                texts_view(group@) == with_text(left.take(k as int)),
        {
            let body: &String = &chunks[at + k].body;
            proof {
                assert(left[k as int] == body@);
                assert(left.take(k as int + 1).drop_last() =~= left.take(k as int));
            }
            if !body.as_str().is_empty() {
                let ghost before = group@;
                group.push(body.clone());
                proof {
                    assert(texts_view(group@) =~= texts_view(before).push(body@));
                }
            }
        }
        let ghost done = batches@;
        let ghost texts = texts_view(group@);
        proof {
            assert(left.skip(n as int) =~= all.skip(at as int + n as int));
            assert(texts.len() == group@.len());
        }
        if group.len() > 0 {
            batches.push(group);
            proof {
                assert(batches_view(batches@) =~= batches_view(done).push(texts));
                assert(batches_view(done).push(texts) + embed_batches(left.skip(n as int))
                    =~= batches_view(done) + (seq![texts] + embed_batches(left.skip(n as int))));
            }
        }
        at = at + n;
    }
    proof {
        assert(all.skip(all.len() as int) =~= Seq::empty());
        assert(batches_view(batches@) + embed_batches(Seq::empty()) =~= batches_view(batches@));
    }
    batches
}

/// Lists one after the other.
pub open spec fn flat(batches: Seq<Seq<Seq<char>>>) -> Seq<Seq<char>>
    decreases batches.len(),
{
    if batches.len() == 0 {
        Seq::empty()
    } else {
        batches[0] + flat(batches.skip(1))
    }
}

proof fn with_text_joined(a: Seq<Seq<char>>, b: Seq<Seq<char>>)
    ensures
        with_text(a + b) == with_text(a) + with_text(b),
    decreases b.len(),
{
    if b.len() == 0 {
        assert(a + b =~= a);
        assert(with_text(a) + with_text(b) =~= with_text(a));
    } else {
        assert((a + b).drop_last() =~= a + b.drop_last());
        with_text_joined(a, b.drop_last());
        assert(with_text(a + b) =~= with_text(a) + with_text(b));
    }
}

proof fn with_text_bounded(texts: Seq<Seq<char>>)
    ensures
        with_text(texts).len() <= texts.len(),
    decreases texts.len(),
{
    if texts.len() > 0 {
        with_text_bounded(texts.drop_last());
    }
}

/// Every body with text is embedded once and in order, no empty one is, and no
/// call holds none or more than [`EMBED_BATCH_SIZE`] texts.
pub proof fn batches_hold_every_text(texts: Seq<Seq<char>>)
    ensures
        flat(embed_batches(texts)) == with_text(texts),
        forall|i: int|
            0 <= i < embed_batches(texts).len() ==> 0 < (#[trigger] embed_batches(texts)[i]).len()
                <= EMBED_BATCH_SIZE,
    decreases texts.len(),
{
    if texts.len() > 0 {
        let n = if texts.len() < EMBED_BATCH_SIZE {
            texts.len() as int
        } else {
            EMBED_BATCH_SIZE as int
        };
        let group = with_text(texts.take(n));
        let rest = embed_batches(texts.skip(n));
        batches_hold_every_text(texts.skip(n));
        with_text_bounded(texts.take(n));
        with_text_joined(texts.take(n), texts.skip(n));
        assert(texts.take(n) + texts.skip(n) =~= texts);
        if group.len() == 0 {
            assert(group + with_text(texts.skip(n)) =~= with_text(texts.skip(n)));
        } else {
            assert((seq![group] + rest).skip(1) =~= rest);
            assert forall|i: int| 0 <= i < embed_batches(texts).len() implies 0 < (
            #[trigger] embed_batches(texts)[i]).len() <= EMBED_BATCH_SIZE by {
                if i > 0 {
                    assert(embed_batches(texts)[i] == rest[i - 1]);
                }
            }
        }
    }
}

/// One row of the `chunks` table. `vector` is the place of the row's vector
/// among those that were embedded; the placeholder has none.
#[derive(Debug, Clone, PartialEq, Eq)]
pub struct ChunkRow {
    pub collection: String,
    pub path: String,
    pub chunk_sequence: u32,
    pub body: String,
    pub vector: Option<usize>,
    pub modified_at: i64,
    pub source_hash: String,
}

/// The place of the vector of body `i`: as many as there are texts before it;
/// none for an empty body.
pub open spec fn vector_place(texts: Seq<Seq<char>>, i: int) -> Option<int> {
    if texts[i].len() == 0 {
        None
    } else {
        Some(with_text(texts.take(i)).len() as int)
    }
}

/// `row` is row `i` of a file with the given bodies.
pub open spec fn is_chunk_row(
    row: ChunkRow,
    i: int,
    collection: Seq<char>,
    path: Seq<char>,
    texts: Seq<Seq<char>>,
    mtime: Timestamp,
    source_hash: Seq<char>,
) -> bool {
    &&& row.collection@ == collection
    &&& row.path@ == path
    &&& row.chunk_sequence == i
    &&& row.body@ == texts[i]
    &&& match row.vector {
        Some(place) => vector_place(texts, i) == Some(place as int),
        None => vector_place(texts, i) is None,
    }
    &&& row.modified_at == mtime.nanos_since_epoch() / 1_000
    &&& row.source_hash@ == source_hash
}

/// The rows of one file, numbered from zero. Too many chunks for the number's
/// type, or a vector length that the column's type cannot hold, is an error.
pub fn build_rows(
    collection: &str,
    path: &str,
    mtime: Timestamp,
    source_hash: &str,
    vector_dim: usize,
    chunks: &[Chunk],
) -> (result: Result<Vec<ChunkRow>, IngestError>)
    ensures
        match result {
            Ok(rows) => {
                &&& chunks@.len() <= u32::MAX
                &&& vector_dim <= i32::MAX
                &&& rows@.len() == chunks@.len()
                &&& forall|i: int|
                    0 <= i < rows@.len() ==> is_chunk_row(
                        #[trigger] rows@[i],
                        i,
                        collection@,
                        path@,
                        bodies(chunks@),
                        mtime,
                        source_hash@,
                    )
            },
            Err(e) => if chunks@.len() > u32::MAX {
                e == (IngestError::TooManyChunks { count: chunks@.len() as usize })
            } else {
                vector_dim > i32::MAX && e == (IngestError::DimTooLarge { dim: vector_dim })
            },
        },
{
    let count: usize = chunks.len();
    if count > 0xffff_ffff {
        return Err(IngestError::TooManyChunks { count });
    }
    if vector_dim > 0x7fff_ffff {
        return Err(IngestError::DimTooLarge { dim: vector_dim });
    }
    let ghost texts = bodies(chunks@);
    let micros: i64 = mtime.timestamp_micros();
    let mut rows: Vec<ChunkRow> = Vec::new();
    let mut next: usize = 0;
    proof {
        assert(texts.take(0) =~= Seq::empty());
    }
    for i in 0..count
        invariant
            count == chunks@.len(),
            count <= 0xffff_ffff,
            texts == bodies(chunks@),
            micros == mtime.nanos_since_epoch() / 1_000,
            rows@.len() == i,
            next == with_text(texts.take(i as int)).len(),
            next <= i,
            forall|j: int|
                0 <= j < i ==> is_chunk_row(
                    #[trigger] rows@[j],
                    j,
                    collection@,
                    path@,
                    texts,
                    mtime,
                    source_hash@,
                ),
    {
        let body: &String = &chunks[i].body;
        proof {
            assert(texts[i as int] == body@);
            assert(texts.take(i as int + 1).drop_last() =~= texts.take(i as int));
        }
        let mut vector: Option<usize> = None;
        if !body.as_str().is_empty() {
            vector = Some(next);
            next = next + 1;
        }
        rows.push(
            ChunkRow {
                collection: collection.to_string(),
                path: path.to_string(),
                chunk_sequence: i as u32,
                body: body.clone(),
                vector,
                modified_at: micros,
                source_hash: source_hash.to_string(),
            },
        );
    }
    Ok(rows)
}

/// Every row's vector lies among those that were embedded, and the rows take
/// them in order, each once.
pub proof fn vectors_are_taken_in_order(texts: Seq<Seq<char>>, i: int)
    requires
        0 <= i < texts.len(),
        texts[i].len() > 0,
    ensures
        vector_place(texts, i) is Some,
        vector_place(texts, i)->Some_0 < with_text(texts).len(),
        with_text(texts)[vector_place(texts, i)->Some_0] == texts[i],
{
    let head = texts.take(i + 1);
    assert(head.drop_last() =~= texts.take(i));
    assert(head.last() == texts[i]);
    with_text_joined(head, texts.skip(i + 1));
    assert(head + texts.skip(i + 1) =~= texts);
}

/// What replaces the rows of a file: the predicate that bounds what may be
/// deleted, and the calls by which the bodies are embedded.
#[derive(Debug)]
pub struct UpsertPlan {
    pub scope_filter: String,
    pub batches: Vec<Vec<String>>,
}

/// The plan for replacing the rows of one file: nothing but this file's rows is
/// in its scope.
pub fn plan_upsert(collection: &str, rel_path: &str, chunks: &[Chunk]) -> (plan: UpsertPlan)
    ensures
        plan.scope_filter@ == row_predicate_spec(collection@, rel_path@),
        batches_view(plan.batches@) == embed_batches(bodies(chunks@)),
{
    UpsertPlan {
        scope_filter: row_predicate(collection, rel_path),
        batches: plan_embed_batches(chunks),
    }
}

/// How a file is counted that ended in `result`: an error fails the file, not
/// the run.
pub fn file_outcome(result: &Result<FileOutcome, IngestError>) -> (outcome: FileOutcome)
    ensures
        outcome == match *result {
            Ok(o) => o,
            Err(_) => FileOutcome::Failed,
        },
{
    match result {
        Ok(outcome) => *outcome,
        Err(_) => FileOutcome::Failed,
    }
}

/// How the pins of the `chunks` table compare with the configuration.
#[derive(Debug)]
pub enum MetadataOutcome {
    Pass,
    Mismatch { actual_embedding_model: String, actual_vector_dim: String },
    Missing { absent_keys: Vec<MetadataKey> },
}

/// Compares the pins of the `chunks` table with what the configuration
/// declares, text for text.
pub fn check_metadata(
    model_pin: Option<&String>,
    dim_pin: Option<&String>,
    declared_model: &str,
    declared_dim: i32,
) -> (outcome: MetadataOutcome)
    ensures
        match outcome {
            MetadataOutcome::Pass => {
                &&& model_pin is Some
                &&& dim_pin is Some
                &&& model_pin->Some_0@ == declared_model@
                &&& dim_pin->Some_0@ == signed_decimal_spec(declared_dim as int)
            },
            MetadataOutcome::Mismatch { actual_embedding_model, actual_vector_dim } => {
                &&& model_pin is Some
                &&& dim_pin is Some
                &&& actual_embedding_model@ == model_pin->Some_0@
                &&& actual_vector_dim@ == dim_pin->Some_0@
                &&& (model_pin->Some_0@ != declared_model@ || dim_pin->Some_0@
                    != signed_decimal_spec(declared_dim as int))
            },
            MetadataOutcome::Missing { absent_keys } => {
                &&& (model_pin is None || dim_pin is None)
                &&& absent_keys@ == absent_keys_spec(model_pin is Some, dim_pin is Some)
            },
        },
{
    match (model_pin, dim_pin) {
        (Some(model), Some(dim)) => {
            let expected: String = signed_decimal(declared_dim as i64);
            if same_text(model.as_str(), declared_model) && same_text(
                dim.as_str(),
                expected.as_str(),
            ) {
                MetadataOutcome::Pass
            } else {
                MetadataOutcome::Mismatch {
                    actual_embedding_model: model.clone(),
                    actual_vector_dim: dim.clone(),
                }
            }
        },
        _ => MetadataOutcome::Missing { absent_keys: absent_pin_keys(model_pin, dim_pin) },
    }
}

/// Refuses a run whose configuration disagrees with the pins of the table.
pub fn enforce_schema_metadata(
    outcome: MetadataOutcome,
    declared_model: &str,
    declared_dim: i32,
) -> (result: Result<(), IngestError>)
    ensures
        match outcome {
            MetadataOutcome::Pass => result is Ok,
            MetadataOutcome::Mismatch { actual_embedding_model, actual_vector_dim } => {
                &&& result is Err
                &&& result->Err_0 is SchemaMetadataMismatch
                &&& result->Err_0->declared_model@ == declared_model@
                &&& result->Err_0->declared_dim == declared_dim
                &&& result->Err_0->actual_embedding_model == actual_embedding_model
                &&& result->Err_0->actual_vector_dim == actual_vector_dim
            },
            MetadataOutcome::Missing { absent_keys } => result matches Err(
                IngestError::SchemaMetadataMissing { absent_keys: keys },
            ) && keys == absent_keys,
        },
{
    match outcome {
        MetadataOutcome::Pass => Ok(()),
        MetadataOutcome::Mismatch { actual_embedding_model, actual_vector_dim } => Err(
            IngestError::SchemaMetadataMismatch {
                declared_model: declared_model.to_string(),
                declared_dim,
                actual_embedding_model,
                actual_vector_dim,
            },
        ),
        MetadataOutcome::Missing { absent_keys } => Err(
            IngestError::SchemaMetadataMissing { absent_keys },
        ),
    }
}

/// The texts that are embedded are those that are not empty, in order.
pub proof fn texts_are_kept_in_order(texts: Seq<Seq<char>>)
    ensures
        with_text(texts) == texts.filter(|t: Seq<char>| t.len() > 0),
        flat(embed_batches(texts)) == texts.filter(|t: Seq<char>| t.len() > 0),
    decreases texts.len(),
{
    reveal(Seq::filter);
    batches_hold_every_text(texts);
    if texts.len() > 0 {
        texts_are_kept_in_order(texts.drop_last());
    }
}

/// The rows of a file hold its chunks: as many rows as chunks, row `i` with the
/// number and the body of chunk `i`, all under the file's collection, path and
/// fingerprint and its time to the microsecond; and every row with text points
/// at the place where its own text stands among those that are embedded.
pub proof fn rows_hold_every_chunk(
    rows: Seq<ChunkRow>,
    collection: Seq<char>,
    path: Seq<char>,
    texts: Seq<Seq<char>>,
    mtime: Timestamp,
    source_hash: Seq<char>,
)
    requires
        rows.len() == texts.len(),
        forall|i: int|
            0 <= i < rows.len() ==> is_chunk_row(
                #[trigger] rows[i],
                i,
                collection,
                path,
                texts,
                mtime,
                source_hash,
            ),
    ensures
        rows.map_values(|r: ChunkRow| r.body@) == texts,
        forall|i: int|
            0 <= i < rows.len() ==> {
                let row = #[trigger] rows[i];
                &&& row.collection@ == collection && row.path@ == path
                &&& row.source_hash@ == source_hash
                &&& row.chunk_sequence == i
                &&& row.modified_at * 1_000 <= mtime.nanos_since_epoch() < row.modified_at * 1_000
                    + 1_000
                &&& row.vector is None <==> texts[i].len() == 0
                &&& row.vector matches Some(place) ==> place < texts.filter(
                    |t: Seq<char>| t.len() > 0,
                ).len() && texts.filter(|t: Seq<char>| t.len() > 0)[place as int] == row.body@
            },
{
    texts_are_kept_in_order(texts);
    assert(rows.map_values(|r: ChunkRow| r.body@) =~= texts);
    assert forall|i: int| 0 <= i < rows.len() implies {
        let row = #[trigger] rows[i];
        &&& row.collection@ == collection && row.path@ == path
        &&& row.source_hash@ == source_hash
        &&& row.chunk_sequence == i
        &&& row.modified_at * 1_000 <= mtime.nanos_since_epoch() < row.modified_at * 1_000 + 1_000
        &&& row.vector is None <==> texts[i].len() == 0
        &&& row.vector matches Some(place) ==> place < texts.filter(
            |t: Seq<char>| t.len() > 0,
        ).len() && texts.filter(|t: Seq<char>| t.len() > 0)[place as int] == row.body@
    } by {
        if texts[i].len() > 0 {
            vectors_are_taken_in_order(texts, i);
        }
    }
}

/// Counting one file raises the count of its outcome by one and no other.
pub proof fn one_file_raises_one_count(
    before: UpdateSummary,
    outcome: FileOutcome,
    after: UpdateSummary,
)
    requires
        counted(before, seq![outcome], after),
    ensures
        after.removed == before.removed,
        after.new == before.new + (if outcome is New {
            1int
        } else {
            0
        }),
        after.updated == before.updated + (if outcome is Updated {
            1int
        } else {
            0
        }),
        after.skipped == before.skipped + (if outcome is Skipped {
            1int
        } else {
            0
        }),
        after.failed == before.failed + (if outcome is Failed {
            1int
        } else {
            0
        }),
{
    let one = seq![outcome];
    assert(one.drop_last() =~= Seq::empty());
    assert forall|kind: FileOutcome| #[trigger] count_of(one, kind) == (if outcome == kind {
        1nat
    } else {
        0nat
    }) by {
        assert(count_of(Seq::empty(), kind) == 0);
    }
}

proof fn count_joined(a: Seq<FileOutcome>, b: Seq<FileOutcome>, kind: FileOutcome)
    ensures
        count_of(a + b, kind) == count_of(a, kind) + count_of(b, kind),
    decreases b.len(),
{
    if b.len() == 0 {
        assert(a + b =~= a);
    } else {
        assert((a + b).drop_last() =~= a + b.drop_last());
        count_joined(a, b.drop_last(), kind);
    }
}

/// Counting files in two parts is counting them in one, so every further file
/// counts like the first.
pub proof fn counts_add_up(
    before: UpdateSummary,
    a: Seq<FileOutcome>,
    between: UpdateSummary,
    b: Seq<FileOutcome>,
    after: UpdateSummary,
)
    requires
        counted(before, a, between),
        counted(between, b, after),
    ensures
        counted(before, a + b, after),
{
    count_joined(a, b, FileOutcome::New);
    count_joined(a, b, FileOutcome::Updated);
    count_joined(a, b, FileOutcome::Skipped);
    count_joined(a, b, FileOutcome::Failed);
}

} // verus!
