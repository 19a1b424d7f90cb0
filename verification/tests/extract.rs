//! Text out of bytes.

use mdya::extract::pdf::{pdf_result, PdfFound};
use mdya::extract::{extract_pdf, ExtractError};
use mdya::format::FileFormat;

fn pdf_text(bytes: &[u8]) -> PdfFound {
    pdf_extract::extract_text_from_mem(bytes).map_err(|e| Some(e.to_string()))
}

#[test]
fn empty_bytes_return_pdf_error() {
    let err = extract_pdf(b"", &pdf_text).expect_err("empty bytes should fail");
    assert!(
        matches!(err, ExtractError::Pdf(_)),
        "expected ExtractError::Pdf, got {err:?}"
    );
}

#[test]
fn non_pdf_bytes_return_pdf_error() {
    let err = extract_pdf(b"not a pdf at all", &pdf_text).expect_err("non-PDF bytes should fail");
    assert!(matches!(err, ExtractError::Pdf(_)));
}

/// A document of one page that shows `text`.
fn one_page_pdf(text: &str) -> Vec<u8> {
    let stream = format!("BT /F1 24 Tf 72 720 Td ({text}) Tj ET");
    let objects = [
        "<< /Type /Catalog /Pages 2 0 R >>".to_string(),
        "<< /Type /Pages /Kids [3 0 R] /Count 1 >>".to_string(),
        "<< /Type /Page /Parent 2 0 R /MediaBox [0 0 612 792] /Contents 4 0 R \
         /Resources << /Font << /F1 5 0 R >> >> >>"
            .to_string(),
        format!("<< /Length {} >>\nstream\n{stream}\nendstream", stream.len()),
        "<< /Type /Font /Subtype /Type1 /BaseFont /Helvetica /Encoding /WinAnsiEncoding >>"
            .to_string(),
    ];
    let mut out = String::from("%PDF-1.4\n");
    let mut offsets = Vec::new();
    for (i, object) in objects.iter().enumerate() {
        offsets.push(out.len());
        out.push_str(&format!("{} 0 obj\n{object}\nendobj\n", i + 1));
    }
    let start = out.len();
    out.push_str(&format!("xref\n0 {}\n0000000000 65535 f \n", objects.len() + 1));
    for offset in offsets {
        out.push_str(&format!("{offset:010} 00000 n \n"));
    }
    out.push_str(&format!(
        "trailer\n<< /Size {} /Root 1 0 R >>\nstartxref\n{start}\n%%EOF\n",
        objects.len() + 1
    ));
    out.into_bytes()
}

#[test]
fn the_text_of_a_page_is_read() {
    let bytes = one_page_pdf("Hello PDF");
    let text = extract_pdf(&bytes, &pdf_text).expect("a document");
    assert_eq!(text.trim(), "Hello PDF");
    let through_format = FileFormat::Pdf.extract(&bytes, &pdf_text).expect("a document");
    assert_eq!(through_format, text);
    let chunks = FileFormat::Pdf.chunk(&text).expect("ok");
    assert_eq!(chunks[0].body, "Hello PDF");
}

#[test]
fn the_result_of_the_extractor_is_passed_on() {
    assert_eq!(pdf_result(Ok("t".to_string())).expect("text"), "t");
    assert_eq!(
        pdf_result(Err(Some("no header".to_string()))).expect_err("error").message(),
        "pdf extract failed: no header"
    );
    assert_eq!(
        pdf_result(Err(None)).expect_err("error").message(),
        "pdf extract failed: the extractor panicked"
    );
}

#[test]
fn the_extractor_gets_the_bytes_and_a_panic_is_an_error() {
    let echo = |bytes: &[u8]| -> PdfFound { Ok(format!("{} bytes", bytes.len())) };
    assert_eq!(extract_pdf(b"abc", &echo).expect("text"), "3 bytes");
    let broken = |_: &[u8]| -> PdfFound { Err(None) };
    let err = FileFormat::Pdf.extract(b"abc", &broken).expect_err("panicked");
    assert_eq!(err.message(), "pdf extract failed: the extractor panicked");
    assert_eq!(FileFormat::Markdown.extract(b"abc", &broken).expect("text"), "abc");
}

#[test]
fn the_first_fault_of_bytes_that_are_no_utf8_is_named() {
    let err = FileFormat::Markdown.extract(&[b'a', 0xff], &pdf_text).expect_err("no UTF-8");
    assert_eq!(
        err.message(),
        "non-UTF-8 file content: invalid utf-8 sequence of 1 bytes from index 1"
    );
}
