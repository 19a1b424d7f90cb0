//! What is to be done for one file, by its time and its fingerprint.

use crate::ingest::time::Timestamp;
use crate::text::same_text;
use vstd::prelude::*;

verus! {

/// What is to be done for one file.
#[derive(Debug, Clone, Copy, PartialEq, Eq, Structural)]
pub enum Action {
    /// Not stored yet.
    New,
    /// Stored with the same time.
    Skip,
    /// Stored with another time and the same content.
    TouchMtime,
    /// Stored with another time and other content.
    Reingest,
}

/// What is stored of a file.
#[derive(Debug, PartialEq, Eq)]
pub struct DbRow {
    pub modified_at: Timestamp,
    pub source_hash: String,
}

impl Clone for DbRow {
    fn clone(&self) -> (copy: Self)
        ensures
            copy == *self,
    {
        DbRow { modified_at: self.modified_at, source_hash: self.source_hash.clone() }
    }
}

/// What is stored of a file: its time, in nanoseconds since the epoch, and its
/// fingerprint.
pub struct RowView {
    pub modified_at: int,
    pub source_hash: Seq<char>,
}

impl View for DbRow {
    type V = RowView;

    open spec fn view(&self) -> RowView {
        RowView {
            modified_at: self.modified_at.nanos_since_epoch(),
            source_hash: self.source_hash@,
        }
    }
}

/// An optional row by its view.
pub open spec fn row_view(row: Option<&DbRow>) -> Option<RowView> {
    match row {
        Some(r) => Some(r@),
        None => None,
    }
}

/// Two times, in nanoseconds since the epoch, are the same to the microsecond,
/// which is what a table keeps of a time.
pub open spec fn same_time(a: int, b: int) -> bool {
    a / 1_000 == b / 1_000
}

/// What is to be done for a file with this time and fingerprint, given what is
/// stored of it.
pub open spec fn decide_spec(mtime: int, hash: Seq<char>, row: Option<RowView>) -> Action {
    match row {
        None => Action::New,
        Some(r) => if same_time(r.modified_at, mtime) {
            Action::Skip
        } else if r.source_hash == hash {
            Action::TouchMtime
        } else {
            Action::Reingest
        },
    }
}

impl Action {
    /// What is to be done for a file with this time and fingerprint, given
    /// what is stored of it.
    pub fn decide(fs_mtime: Timestamp, fs_hash: &str, db_row: Option<&DbRow>) -> (action: Self)
        ensures
            action == decide_spec(fs_mtime.nanos_since_epoch(), fs_hash@, row_view(db_row)),
    {
        match db_row {
            None => Action::New,
            Some(row) => if row.modified_at.same_micros(&fs_mtime) {
                Action::Skip
            } else if same_text(row.source_hash.as_str(), fs_hash) {
                Action::TouchMtime
            } else {
                Action::Reingest
            },
        }
    }
}

} // verus!
