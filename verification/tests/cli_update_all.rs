//! Summaries and progress lines of a run.

use mdya::cli::update_all::{format_summary, SlotPool};
use mdya::ingest::UpdateSummary;

fn s(new: u64, updated: u64, skipped: u64, removed: u64, failed: u64) -> UpdateSummary {
    UpdateSummary {
        new,
        updated,
        skipped,
        removed,
        failed,
    }
}

#[test]
fn empty_summary_renders_with_all_zeros() {
    let out = format_summary(&s(0, 0, 0, 0, 0));
    assert_eq!(
        out,
        "Indexed 0 documents (new: 0, updated: 0, skipped: 0, removed: 0, failed: 0)."
    );
}

#[test]
fn mixed_summary_renders_total_as_new_plus_updated_plus_skipped_plus_failed() {
    let out = format_summary(&s(5, 3, 34, 2, 1));
    assert_eq!(
        out,
        "Indexed 43 documents (new: 5, updated: 3, skipped: 34, removed: 2, failed: 1)."
    );
}

#[test]
fn indicatif_progress_starts_in_a_clean_state() {
    let pool = SlotPool::with_parallelism(1);
    assert_eq!(pool.slots, vec![None]);
    assert_eq!(pool.finished, 0);
}

#[test]
fn indicatif_progress_writes_path_into_spinner_message() {
    let mut pool = SlotPool::with_parallelism(1);
    assert_eq!(pool.start_file("notes/foo.md"), Some(0));
    assert!(pool.slots[0].as_ref().expect("shown").contains("foo.md"));
}

#[test]
fn indicatif_progress_with_parallelism_allocates_n_spinners() {
    let pool = SlotPool::with_parallelism(4);
    assert_eq!(pool.slots.len(), 4);
}

#[test]
fn indicatif_progress_zero_parallelism_collapses_to_single_spinner() {
    let pool = SlotPool::with_parallelism(0);
    assert_eq!(pool.slots.len(), 1);
}

#[test]
fn indicatif_progress_concurrent_start_file_uses_separate_slots() {
    let mut pool = SlotPool::with_parallelism(2);
    pool.start_file("a.md");
    pool.start_file("b.md");
    assert_eq!(pool.slots[0].as_deref(), Some("a.md"));
    assert_eq!(pool.slots[1].as_deref(), Some("b.md"));
}

#[test]
fn indicatif_progress_pool_exhaustion_warns_and_does_not_panic() {
    let mut pool = SlotPool::with_parallelism(1);
    pool.start_file("a.md");
    assert_eq!(pool.start_file("b.md"), None);
    assert_eq!(
        pool.slots[0].as_deref(),
        Some("a.md"),
        "the existing slot must keep its path",
    );
}

#[test]
fn indicatif_progress_finish_file_no_matching_slot_increments_bar() {
    let mut pool = SlotPool::with_parallelism(1);
    assert_eq!(pool.finish_file("ghost.md"), None);
    assert_eq!(pool.finished, 1, "bar must tick even on no-match");
}

#[test]
fn indicatif_progress_finish_file_releases_matching_slot() {
    let mut pool = SlotPool::with_parallelism(2);
    pool.start_file("a.md");
    pool.start_file("b.md");
    assert_eq!(pool.finish_file("a.md"), Some(0));
    assert!(pool.slots[0].is_none(), "a.md slot must be released");
    assert_eq!(
        pool.slots[1].as_deref(),
        Some("b.md"),
        "b.md slot must remain occupied",
    );
}

#[test]
fn the_lowest_free_line_is_taken_again() {
    let mut pool = SlotPool::with_parallelism(3);
    pool.start_file("a.md");
    pool.start_file("b.md");
    pool.finish_file("./a.md");
    assert_eq!(pool.slots[0].as_deref(), Some("a.md"));
    pool.finish_file("a.md");
    assert_eq!(pool.start_file("c.md"), Some(0));
}
