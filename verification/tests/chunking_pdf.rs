//! Chunks of the text of a PDF.

use mdya::chunking::{chunk_pdf, OVERLAP_CHARS, WINDOW_CHARS};

#[test]
fn empty_text_yields_one_placeholder_chunk() {
    let out = chunk_pdf("").expect("ok");
    assert_eq!(out.len(), 1);
    assert!(out[0].body.is_empty());
}

#[test]
fn whitespace_only_text_yields_one_placeholder_chunk() {
    let out = chunk_pdf("   \n\n  ").expect("ok");
    assert_eq!(out.len(), 1);
    assert!(out[0].body.is_empty());
}

#[test]
fn short_text_yields_single_chunk() {
    let out = chunk_pdf("Just some text.").expect("ok");
    assert_eq!(out.len(), 1);
    assert_eq!(out[0].body, "Just some text.");
}

#[test]
fn text_over_window_splits_with_overlap() {
    let body: String = "あ".repeat(750);
    let out = chunk_pdf(&body).expect("ok");
    assert!(out.len() >= 2, "expected >=2 sub-chunks, got {out:?}");
    assert_eq!(out[0].body.chars().count(), WINDOW_CHARS);
    assert_eq!(
        out[1].body.chars().count(),
        750 - (WINDOW_CHARS - OVERLAP_CHARS)
    );
}

#[test]
fn pdf_japanese_multibyte_chars_count_correctly_for_window() {
    let body: String = "あ".repeat(1000);
    let out = chunk_pdf(&body).expect("ok");
    assert!(out.len() >= 2);
    for chunk in &out {
        assert!(
            chunk.body.chars().count() <= WINDOW_CHARS,
            "chunk exceeds window: {} chars",
            chunk.body.chars().count()
        );
    }
}
