//! Text of a PDF.

use crate::extract::ExtractError;
use crate::paths::text_view;
use vstd::prelude::*;

verus! {

/// What an extractor came to on a document: its text, the text of an error, or
/// no more than that it panicked.
pub type PdfFound = Result<String, Option<String>>;

/// `extractor` can be run on every document.
pub open spec fn takes_any_document<F: Fn(&[u8]) -> PdfFound>(extractor: F) -> bool {
    forall|bytes: &[u8]| #[trigger] call_requires(extractor, (bytes,))
}

/// `extractor` can come to `found` on a document with these bytes.
pub open spec fn comes_to<F: Fn(&[u8]) -> PdfFound>(
    extractor: F,
    bytes: Seq<u8>,
    found: PdfFound,
) -> bool {
    exists|slice: &[u8]| slice@ == bytes && #[trigger] call_ensures(extractor, (slice,), found)
}

/// What is reported of a failure of the extractor: its own words, or that it
/// panicked.
pub open spec fn failure_text(text: Option<Seq<char>>) -> Seq<char> {
    match text {
        Some(t) => t,
        None => "the extractor panicked"@,
    }
}

/// `result` reports what the extractor came to: its text, or its failure.
pub open spec fn reports(found: PdfFound, result: Result<String, ExtractError>) -> bool {
    match found {
        Ok(text) => result == Ok::<String, ExtractError>(text),
        Err(t) => result matches Err(ExtractError::Pdf(text)) && text@ == failure_text(
            text_view(t),
        ),
    }
}

/// The text of a PDF, which may be empty, as `extractor` reads it off the
/// document's bytes.
pub fn extract_pdf<F: Fn(&[u8]) -> PdfFound>(bytes: &[u8], extractor: &F) -> (result: Result<
    String,
    ExtractError,
>)
    requires
        call_requires(*extractor, (bytes,)),
    ensures
        exists|found: PdfFound| #[trigger]
            call_ensures(*extractor, (bytes,), found) && reports(found, result),
{
    pdf_result(extractor(bytes))
}

/// What is reported of what the extractor came to.
pub fn pdf_result(found: PdfFound) -> (result: Result<String, ExtractError>)
    ensures
        reports(found, result),
{
    match found {
        Ok(text) => Ok(text),
        Err(Some(text)) => Err(ExtractError::Pdf(text)),
        Err(None) => Err(ExtractError::Pdf("the extractor panicked".to_string())),
    }
}

} // verus!
