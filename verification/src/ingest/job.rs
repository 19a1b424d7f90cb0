//! The work on one file, step by step: what to read, what to write, and how
//! the file is counted.
//!
//! The `chunks` and the `sources` rows of a file are written by separate
//! commits. A file is passed over unread only where its time is the stored one
//! and both hold the same fingerprint. Where they do not, the next run reads
//! the file and brings both to its fingerprint, whatever its time, so tables that
//! a run left apart by breaking off between the two commits come together again.

use crate::chunking::{bodies, Chunk};
use crate::extract::pdf::{takes_any_document, PdfFound};
use crate::extract::ExtractError;
use crate::format::{chunks_of, fails_with, format_of, reads_as, FileFormat};
use crate::ingest::error::IngestError;
use crate::ingest::hash::{content_hash, hex_spec, sha256_of};
use crate::ingest::incremental::{decide_spec, same_time, Action, DbRow, RowView};
use crate::ingest::progress::FileOutcome;
use crate::ingest::rows::is_safe_relative;
use crate::ingest::time::Timestamp;
use crate::ingest::writer::ensure_under_root;
use crate::paths::{join, join_spec, text_view};
use crate::text::same_text;
use vstd::prelude::*;

verus! {

/// A file to work on, with what is stored of it.
#[derive(Debug)]
pub struct FileJob {
    pub rel_path: String,
    pub absolute: String,
    pub format: FileFormat,
    pub existing: Option<DbRow>,
    pub sources_hash: Option<String>,
}

/// What the run has found out about a file that it read.
#[derive(Debug)]
pub struct FilePlan {
    pub mtime: Timestamp,
    pub source_hash: String,
    pub content: String,
    pub action: Action,
}

/// What to do next for a file.
#[derive(Debug)]
pub enum FileStep {
    /// Read the file's bytes.
    ReadBytes { mtime: Timestamp },
    /// Write the text to the `sources` table.
    UpsertSource { plan: FilePlan },
    /// Write the time to the rows of the `chunks` table.
    UpdateMtime { plan: FilePlan },
    /// Embed the chunks and replace the rows of the `chunks` table.
    ReplaceChunks { plan: FilePlan, chunks: Vec<Chunk> },
    /// Count the file.
    Done(FileOutcome),
    /// Report the error and count the file as failed.
    Failed(IngestError),
}

/// The file has a row, and its source is stored with the same fingerprint.
pub open spec fn mirrors(existing: Option<RowView>, source: Option<Seq<char>>) -> bool {
    existing is Some && source == Some(existing->Some_0.source_hash)
}

/// The file is passed over unread: its time is the stored one, and row and
/// source agree.
pub open spec fn passed_over(
    existing: Option<RowView>,
    source: Option<Seq<char>>,
    mtime: int,
) -> bool {
    mirrors(existing, source) && same_time(existing->Some_0.modified_at, mtime)
}

/// The source is written: the content is new or changed, or row and source do
/// not agree.
pub open spec fn writes_source(
    existing: Option<RowView>,
    source: Option<Seq<char>>,
    action: Action,
) -> bool {
    action is New || action is Reingest || !mirrors(existing, source)
}

/// What is done for a file that was read: what its time and fingerprint call
/// for, and where row and source do not agree, a fingerprint other than the
/// row's is reason enough to take the file in again.
pub open spec fn planned_action(
    existing: Option<RowView>,
    source: Option<Seq<char>>,
    mtime: int,
    hash: Seq<char>,
) -> Action {
    if existing is Some && !mirrors(existing, source) && existing->Some_0.source_hash != hash {
        Action::Reingest
    } else {
        decide_spec(mtime, hash, existing)
    }
}

/// The step that brings the `chunks` table up to date.
pub open spec fn is_chunks_step(plan: FilePlan, format: FileFormat, step: FileStep) -> bool {
    match plan.action {
        Action::Skip => step == FileStep::Done(FileOutcome::Skipped),
        Action::TouchMtime => step == (FileStep::UpdateMtime { plan }),
        Action::New | Action::Reingest => step matches FileStep::ReplaceChunks { plan: p, chunks }
            && p == plan && bodies(chunks@) == chunks_of(format, plan.content@),
    }
}

impl FileJob {
    /// What is stored of the file in the `chunks` table.
    pub open spec fn row(&self) -> Option<RowView> {
        match self.existing {
            Some(r) => Some(r@),
            None => None,
        }
    }

    /// The fingerprint that is stored of the file's source.
    pub open spec fn source(&self) -> Option<Seq<char>> {
        text_view(self.sources_hash)
    }

    /// Starts the work on a file of a known format. A path that leaves the root
    /// is refused before it is joined.
    pub fn open(
        root: &str,
        rel_path: &str,
        existing: Option<DbRow>,
        sources_hash: Option<String>,
    ) -> (result: Result<FileJob, IngestError>)
        requires
            format_of(rel_path@) is Some,
        ensures
            match result {
                Ok(job) => {
                    &&& is_safe_relative(rel_path@)
                    &&& job.rel_path@ == rel_path@
                    &&& job.absolute@ == join_spec(root@, rel_path@)
                    &&& format_of(rel_path@) == Some(job.format)
                    &&& job.existing == existing
                    &&& job.sources_hash == sources_hash
                },
                Err(e) => !is_safe_relative(rel_path@) && e is PathTraversal && e->rel_path@
                    == rel_path@,
            },
    {
        let format: FileFormat = FileFormat::from_path(rel_path).unwrap();
        if let Err(e) = ensure_under_root(rel_path) {
            return Err(e);
        }
        Ok(
            FileJob {
                rel_path: rel_path.to_string(),
                absolute: join(root, rel_path),
                format,
                existing,
                sources_hash,
            },
        )
    }

    /// Whether the file has a row and its source is stored with the same
    /// fingerprint.
    fn sources_mirror_chunks(&self) -> (yes: bool)
        ensures
            yes == mirrors(self.row(), self.source()),
    {
        match (&self.existing, &self.sources_hash) {
            (Some(row), Some(hash)) => same_text(row.source_hash.as_str(), hash.as_str()),
            _ => false,
        }
    }

    /// The step after the file's time was read.
    pub fn on_mtime(&self, read: Result<Timestamp, String>) -> (step: FileStep)
        ensures
            match read {
                Err(t) => step matches FileStep::Failed(IngestError::Io(s)) && s == t,
                Ok(mtime) => if passed_over(self.row(), self.source(), mtime.nanos_since_epoch()) {
                    step == FileStep::Done(FileOutcome::Skipped)
                } else {
                    step == (FileStep::ReadBytes { mtime })
                },
            },
    {
        let mtime: Timestamp = match read {
            Ok(mtime) => mtime,
            Err(t) => {
                return FileStep::Failed(IngestError::Io(t));
            },
        };
        if let Some(row) = &self.existing {
            if row.modified_at.same_micros(&mtime) && self.sources_mirror_chunks() {
                return FileStep::Done(FileOutcome::Skipped);
            }
        }
        FileStep::ReadBytes { mtime }
    }

    /// The step that carries out `plan`: the source first, where it is written,
    /// else the `chunks` table.
    pub open spec fn is_plan_step(&self, plan: FilePlan, step: FileStep) -> bool {
        if writes_source(self.row(), self.source(), plan.action) {
            step == (FileStep::UpsertSource { plan })
        } else {
            is_chunks_step(plan, self.format, step)
        }
    }

    /// The step after the file's bytes were read. The fingerprint is taken of
    /// the raw bytes, before the text is extracted; a PDF is read by `pdf`.
    pub fn on_bytes<F: Fn(&[u8]) -> PdfFound>(
        &self,
        mtime: Timestamp,
        read: Result<Vec<u8>, String>,
        pdf: &F,
    ) -> (step: FileStep)
        requires
            takes_any_document(*pdf),
        ensures
            match read {
                Err(t) => step == FileStep::Failed(IngestError::Io(t)),
                Ok(bytes) => match step {
                    FileStep::Failed(e) => e matches IngestError::Extract(x) && fails_with(
                        self.format,
                        *pdf,
                        bytes@,
                        x,
                    ),
                    _ => exists|plan: FilePlan|
                        {
                            &&& #[trigger] self.is_plan_step(plan, step)
                            &&& reads_as(self.format, *pdf, bytes@, plan.content@)
                            &&& plan.mtime == mtime
                            &&& plan.source_hash@ == hex_spec(sha256_of(bytes@))
                            &&& plan.action == planned_action(
                                self.row(),
                                self.source(),
                                mtime.nanos_since_epoch(),
                                plan.source_hash@,
                            )
                        },
                },
            },
    {
        let bytes: Vec<u8> = match read {
            Ok(bytes) => bytes,
            Err(t) => {
                return FileStep::Failed(IngestError::Io(t));
            },
        };
        let source_hash: String = content_hash(bytes.as_slice());
        let extracted: Result<String, ExtractError> = self.format.extract(bytes.as_slice(), pdf);
        let ghost planned = FilePlan {
            mtime,
            source_hash,
            content: extracted->Ok_0,
            action: planned_action(
                self.row(),
                self.source(),
                mtime.nanos_since_epoch(),
                source_hash@,
            ),
        };
        let step = self.on_content(mtime, source_hash, extracted);
        proof {
            if extracted is Ok {
                assert(self.is_plan_step(planned, step));
            }
        }
        step
    }

    /// The step after the file's text was extracted.
    pub fn on_content(
        &self,
        mtime: Timestamp,
        source_hash: String,
        extracted: Result<String, ExtractError>,
    ) -> (step: FileStep)
        ensures
            match extracted {
                Err(e) => step == FileStep::Failed(IngestError::Extract(e)),
                Ok(content) => !(step is Failed) && self.is_plan_step(
                    (FilePlan {
                        mtime,
                        source_hash,
                        content,
                        action: planned_action(
                            self.row(),
                            self.source(),
                            mtime.nanos_since_epoch(),
                            source_hash@,
                        ),
                    }),
                    step,
                ),
            },
    {
        let content: String = match extracted {
            Ok(content) => content,
            Err(e) => {
                return FileStep::Failed(IngestError::Extract(e));
            },
        };
        let mirrored: bool = self.sources_mirror_chunks();
        let action: Action = match &self.existing {
            Some(row) if !mirrored && !same_text(
                row.source_hash.as_str(),
                source_hash.as_str(),
            ) => Action::Reingest,
            _ => Action::decide(mtime, source_hash.as_str(), self.existing.as_ref()),
        };
        let plan = FilePlan { mtime, source_hash, content, action };
        let content_changed: bool = match action {
            Action::New | Action::Reingest => true,
            _ => false,
        };
        if content_changed || !mirrored {
            FileStep::UpsertSource { plan }
        } else {
            self.chunks_step(plan)
        }
    }

    /// The step that brings the `chunks` table up to date.
    fn chunks_step(&self, plan: FilePlan) -> (step: FileStep)
        ensures
            is_chunks_step(plan, self.format, step),
    {
        match plan.action {
            Action::Skip => FileStep::Done(FileOutcome::Skipped),
            Action::TouchMtime => FileStep::UpdateMtime { plan },
            Action::New | Action::Reingest => match self.format.chunk(plan.content.as_str()) {
                Ok(chunks) => FileStep::ReplaceChunks { plan, chunks },
                Err(e) => FileStep::Failed(IngestError::Chunking(e)),
            },
        }
    }

    /// The step after the source was written.
    pub fn on_source_written(&self, plan: FilePlan, written: Result<(), IngestError>) -> (step:
        FileStep)
        ensures
            match written {
                Err(e) => step == FileStep::Failed(e),
                Ok(_) => is_chunks_step(plan, self.format, step),
            },
    {
        match written {
            Ok(_) => self.chunks_step(plan),
            Err(e) => FileStep::Failed(e),
        }
    }

    /// The step after the `chunks` table was written.
    pub fn on_chunks_written(&self, action: Action, written: Result<(), IngestError>) -> (step:
        FileStep)
        ensures
            match written {
                Err(e) => step == FileStep::Failed(e),
                Ok(_) => step == FileStep::Done(outcome_of(action)),
            },
    {
        match written {
            Ok(_) => FileStep::Done(
                match action {
                    Action::New => FileOutcome::New,
                    Action::Reingest => FileOutcome::Updated,
                    Action::Skip | Action::TouchMtime => FileOutcome::Skipped,
                },
            ),
            Err(e) => FileStep::Failed(e),
        }
    }
}

/// How a file is counted for which this was done.
pub open spec fn outcome_of(action: Action) -> FileOutcome {
    match action {
        Action::New => FileOutcome::New,
        Action::Reingest => FileOutcome::Updated,
        Action::Skip => FileOutcome::Skipped,
        Action::TouchMtime => FileOutcome::Skipped,
    }
}

/// What is stored of a file: its row in `chunks` and its fingerprint in
/// `sources`.
pub struct Stored {
    pub row: Option<RowView>,
    pub source: Option<Seq<char>>,
}

/// A file as it is on disk: its time and its fingerprint.
pub struct OnDisk {
    pub mtime: int,
    pub hash: Seq<char>,
}

/// What is done for a file.
pub open spec fn action_for(s: Stored, f: OnDisk) -> Action {
    planned_action(s.row, s.source, f.mtime, f.hash)
}

/// `s` once the source is written.
pub open spec fn after_source_commit(s: Stored, f: OnDisk) -> Stored {
    if !passed_over(s.row, s.source, f.mtime) && writes_source(s.row, s.source, action_for(s, f)) {
        Stored { source: Some(f.hash), ..s }
    } else {
        s
    }
}

/// `t` once the rows are written too, where `s` was stored before the run. The
/// table keeps times to the microsecond.
pub open spec fn after_chunks_commit(s: Stored, f: OnDisk, t: Stored) -> Stored {
    let time = f.mtime / 1_000 * 1_000;
    if passed_over(s.row, s.source, f.mtime) {
        t
    } else {
        match action_for(s, f) {
            Action::Skip => t,
            Action::TouchMtime => Stored {
                row: Some(RowView { modified_at: time, source_hash: s.row->Some_0.source_hash }),
                ..t
            },
            Action::New | Action::Reingest => Stored {
                row: Some(RowView { modified_at: time, source_hash: f.hash }),
                ..t
            },
        }
    }
}

/// What is stored after a whole run over the file.
pub open spec fn after_run(s: Stored, f: OnDisk) -> Stored {
    after_chunks_commit(s, f, after_source_commit(s, f))
}

/// How the file is counted by a whole run.
pub open spec fn run_outcome(s: Stored, f: OnDisk) -> FileOutcome {
    if passed_over(s.row, s.source, f.mtime) {
        FileOutcome::Skipped
    } else {
        outcome_of(action_for(s, f))
    }
}

/// A file that is passed over unread has the stored content.
pub open spec fn time_tells(s: Stored, f: OnDisk) -> bool {
    passed_over(s.row, s.source, f.mtime) ==> s.row->Some_0.source_hash == f.hash
}

/// Row and source hold the file's fingerprint.
pub open spec fn up_to_date(s: Stored, f: OnDisk) -> bool {
    &&& s.row is Some
    &&& s.row->Some_0.source_hash == f.hash
    &&& s.source == Some(f.hash)
}

/// A whole run leaves row and source with the file's fingerprint, whatever was
/// stored before; only a file that is passed over must be the stored one.
pub proof fn whole_run_brings_up_to_date(s: Stored, f: OnDisk)
    requires
        time_tells(s, f),
    ensures
        up_to_date(after_run(s, f), f),
{
}

/// Row and source that do not agree are brought together by the next whole run,
/// whatever time and content the file has.
pub proof fn parted_tables_heal(s: Stored, f: OnDisk)
    requires
        !mirrors(s.row, s.source),
    ensures
        up_to_date(after_run(s, f), f),
{
}

/// A run that breaks off after the source was written is made good by the next
/// whole run, though the file may have changed in between; only a file that is
/// passed over must be the stored one.
pub proof fn broken_run_heals(s: Stored, f: OnDisk, next: OnDisk)
    requires
        time_tells(after_source_commit(s, f), next),
    ensures
        up_to_date(after_run(after_source_commit(s, f), next), next),
{
}

/// A second whole run over an unchanged file passes it over unread, counts it as
/// skipped and changes nothing.
pub proof fn second_run_skips(s: Stored, f: OnDisk)
    requires
        time_tells(s, f),
    ensures
        passed_over(after_run(s, f).row, after_run(s, f).source, f.mtime),
        run_outcome(after_run(s, f), f) is Skipped,
        after_run(after_run(s, f), f) == after_run(s, f),
{
}

/// A file is passed over unread only where row and source agree.
pub proof fn passed_over_only_where_tables_agree(s: Stored, f: OnDisk)
    requires
        passed_over(s.row, s.source, f.mtime),
    ensures
        s.row is Some,
        s.source == Some(s.row->Some_0.source_hash),
        after_run(s, f) == s,
{
}

/// What is stored once a step was carried out. The table keeps times to the
/// microsecond.
pub open spec fn carried_out(s: Stored, step: FileStep) -> Stored {
    match step {
        FileStep::UpsertSource { plan } => Stored { source: Some(plan.source_hash@), ..s },
        FileStep::UpdateMtime { plan } => Stored {
            row: Some(
                RowView {
                    modified_at: plan.mtime.nanos_since_epoch() / 1_000 * 1_000,
                    source_hash: s.row->Some_0.source_hash,
                },
            ),
            ..s
        },
        FileStep::ReplaceChunks { plan, .. } => Stored {
            row: Some(
                RowView {
                    modified_at: plan.mtime.nanos_since_epoch() / 1_000 * 1_000,
                    source_hash: plan.source_hash@,
                },
            ),
            ..s
        },
        _ => s,
    }
}

/// The steps that are taken for a file leave row and source with its fingerprint
/// and the row with its time, so that the next run passes the file over. Where
/// the row had another fingerprint, or there was none, its chunks are replaced
/// by those of the text that was read; else they are left alone.
pub proof fn steps_bring_up_to_date(
    job: FileJob,
    plan: FilePlan,
    first: FileStep,
    second: FileStep,
)
    requires
        !passed_over(job.row(), job.source(), plan.mtime.nanos_since_epoch()),
        plan.action == planned_action(
            job.row(),
            job.source(),
            plan.mtime.nanos_since_epoch(),
            plan.source_hash@,
        ),
        job.is_plan_step(plan, first),
        if first is UpsertSource {
            is_chunks_step(plan, job.format, second)
        } else {
            second == first
        },
    ensures
        ({
            let s = Stored { row: job.row(), source: job.source() };
            let f = OnDisk { mtime: plan.mtime.nanos_since_epoch(), hash: plan.source_hash@ };
            let end = carried_out(carried_out(s, first), second);
            &&& up_to_date(end, f)
            &&& passed_over(end.row, end.source, f.mtime)
            &&& end == after_run(s, f)
            &&& second is ReplaceChunks <==> s.row is None || s.row->Some_0.source_hash != f.hash
            &&& second matches FileStep::ReplaceChunks { plan: p, chunks } ==> p == plan && bodies(
                chunks@,
            ) == chunks_of(job.format, plan.content@)
        }),
{
}

/// How a file is counted tells what changed: as new where nothing was stored of
/// it, as updated where it is stored with another fingerprint and is not passed
/// over, else as skipped.
pub proof fn outcome_tells_what_changed(s: Stored, f: OnDisk)
    ensures
        run_outcome(s, f) is New <==> s.row is None,
        run_outcome(s, f) is Updated <==> s.row is Some && s.row->Some_0.source_hash != f.hash
            && !passed_over(s.row, s.source, f.mtime),
        run_outcome(s, f) is Skipped <==> s.row is Some && (s.row->Some_0.source_hash == f.hash
            || passed_over(s.row, s.source, f.mtime)),
{
}

} // verus!
