//! File formats.

use mdya::extract::ExtractError;
use mdya::extract::pdf::PdfFound;
use mdya::format::FileFormat;

fn pdf_text(bytes: &[u8]) -> PdfFound {
    pdf_extract::extract_text_from_mem(bytes).map_err(|e| Some(e.to_string()))
}

#[test]
fn from_path_recognises_markdown_and_pdf_case_insensitively() {
    assert_eq!(
        FileFormat::from_path("a.md"),
        Some(FileFormat::Markdown)
    );
    assert_eq!(
        FileFormat::from_path("a.markdown"),
        Some(FileFormat::Markdown)
    );
    assert_eq!(
        FileFormat::from_path("a.MD"),
        Some(FileFormat::Markdown)
    );
    assert_eq!(
        FileFormat::from_path("a.MARKDOWN"),
        Some(FileFormat::Markdown)
    );
    assert_eq!(
        FileFormat::from_path("a.pdf"),
        Some(FileFormat::Pdf)
    );
    assert_eq!(
        FileFormat::from_path("a.PDF"),
        Some(FileFormat::Pdf)
    );
}

#[test]
fn from_path_rejects_other_extensions_and_no_extension() {
    assert_eq!(FileFormat::from_path("a.txt"), None);
    assert_eq!(FileFormat::from_path("a.rs"), None);
    assert_eq!(FileFormat::from_path("a.epub"), None);
    assert_eq!(FileFormat::from_path("README"), None);
}

#[test]
fn extract_markdown_accepts_valid_utf8() {
    let text = FileFormat::Markdown
        .extract("# Hello".as_bytes(), &pdf_text)
        .expect("ok");
    assert_eq!(text, "# Hello");
}

#[test]
fn extract_markdown_rejects_invalid_utf8() {
    let err = FileFormat::Markdown
        .extract(&[0xff, 0xfe, 0xfd], &pdf_text)
        .expect_err("invalid utf-8 should error");
    assert!(matches!(err, ExtractError::InvalidUtf8(_)));
}

#[test]
fn extract_pdf_on_non_pdf_bytes_returns_pdf_error() {
    let err = FileFormat::Pdf
        .extract(b"not a pdf", &pdf_text)
        .expect_err("non-PDF bytes should fail");
    assert!(matches!(err, ExtractError::Pdf(_)));
}

#[test]
fn chunk_markdown_dispatch_yields_heading_aware_chunks() {
    let chunks = FileFormat::Markdown
        .chunk("# Heading\n\nBody\n")
        .expect("ok");
    assert_eq!(chunks.len(), 1);
    assert!(chunks[0].body.contains("Heading"));
    assert!(chunks[0].body.contains("Body"));
}

#[test]
fn chunk_pdf_dispatch_yields_sliding_window_chunks() {
    let chunks = FileFormat::Pdf.chunk("hello world").expect("ok");
    assert_eq!(chunks.len(), 1);
    assert_eq!(chunks[0].body, "hello world");
}

#[test]
fn chunk_pdf_dispatch_yields_placeholder_for_empty_text() {
    let chunks = FileFormat::Pdf.chunk("").expect("ok");
    assert_eq!(chunks.len(), 1);
    assert!(chunks[0].body.is_empty());
}
