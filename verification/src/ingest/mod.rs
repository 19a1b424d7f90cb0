//! The ingest pipeline: which files are new, changed, unchanged or gone, and
//! what is written for each.

pub mod error;
pub mod hash;
pub mod incremental;
pub mod indices;
pub mod job;
pub mod orphan;
pub mod pathmap;
pub mod progress;
pub mod rows;
pub mod run;
pub mod sql;
pub mod time;
pub mod walker;
pub mod writer;

pub use crate::ingest::error::IngestError;
pub use crate::ingest::incremental::{Action, DbRow};
pub use crate::ingest::orphan::compute_orphans;
pub use crate::ingest::progress::{FileOutcome, IngestProgress, NullProgress};
pub use crate::ingest::writer::UpdateSummary;
