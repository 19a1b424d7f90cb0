//! Progress of a run, reported to whoever shows it.

use vstd::prelude::*;

verus! {

/// How one file went.
#[derive(Debug, Clone, Copy, PartialEq, Eq, Structural)]
pub enum FileOutcome {
    New,
    Updated,
    Skipped,
    Failed,
}

/// Takes in the progress of a run.
pub trait IngestProgress: Send + Sync {
    /// Called once per collection, before its files.
    fn set_total_files(&self, total: usize);

    /// Called when work on a file starts.
    fn start_file(&self, path: &str);

    /// Called when work on a file ends, with the path that it started with.
    fn finish_file(&self, path: &str, outcome: FileOutcome);

    /// Called once, at the end of the run.
    fn finish(&self);
}

/// Shows nothing.
#[derive(Debug, Clone, Copy)]
pub struct NullProgress;

impl IngestProgress for NullProgress {
    fn set_total_files(&self, _total: usize) {
    }

    fn start_file(&self, _path: &str) {
    }

    fn finish_file(&self, _path: &str, _outcome: FileOutcome) {
    }

    fn finish(&self) {
    }
}

} // verus!
