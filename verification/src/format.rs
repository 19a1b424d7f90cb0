//! The file formats that are taken in, and what each does.

use crate::chunking::markdown::{markdown_chunks, markdown_events_of};
use crate::chunking::markdown_laws::markdown_document_shape;
use crate::chunking::pdf::{pdf_chunks, pdf_document_shape};
use crate::chunking::{bodies, chunk_markdown, chunk_pdf, document_shape, Chunk, ChunkingError};
use crate::extract::pdf::{comes_to, reports, takes_any_document, PdfFound};
use crate::extract::utf8::{decode, utf8_fault_of};
use crate::extract::{extract_pdf, ExtractError};
use crate::paths::{
    extension, extension_follows_the_last_dot, extension_spec, is_proper_name, join_spec,
    joined_path_ends_in_its_name,
};
use crate::text::{ascii_lowercase, ascii_lowercase_spec, from_chars, same_text};
use vstd::prelude::*;
use vstd::utf8::{decode_utf8, decode_utf8_encode_utf8, encode_utf8, valid_utf8};

verus! {

/// A file format that is taken in.
#[derive(Debug, Clone, Copy, PartialEq, Eq, Structural)]
pub enum FileFormat {
    Markdown,
    Pdf,
}

/// The format of a file by the extension of its path, upper and lower case
/// alike; a path with another extension, or none, has no format.
pub open spec fn format_of(path: Seq<char>) -> Option<FileFormat> {
    match extension_spec(path) {
        Some(ext) => {
            let lower = ascii_lowercase_spec(ext);
            if lower == "md"@ || lower == "markdown"@ {
                Some(FileFormat::Markdown)
            } else if lower == "pdf"@ {
                Some(FileFormat::Pdf)
            } else {
                None
            }
        },
        None => None,
    }
}

/// The format reads `text` out of `bytes`: for Markdown the text that they
/// encode, for a PDF one that `pdf` comes to.
pub open spec fn reads_as<F: Fn(&[u8]) -> PdfFound>(
    format: FileFormat,
    pdf: F,
    bytes: Seq<u8>,
    text: Seq<char>,
) -> bool {
    match format {
        FileFormat::Markdown => valid_utf8(bytes) && text == decode_utf8(bytes),
        FileFormat::Pdf => exists|found: PdfFound| #[trigger]
            comes_to(pdf, bytes, found) && found is Ok && found->Ok_0@ == text,
    }
}

/// The format fails on `bytes` with this error: Markdown on what is no UTF-8, a
/// PDF with a failure that `pdf` comes to.
pub open spec fn fails_with<F: Fn(&[u8]) -> PdfFound>(
    format: FileFormat,
    pdf: F,
    bytes: Seq<u8>,
    error: ExtractError,
) -> bool {
    match format {
        FileFormat::Markdown => !valid_utf8(bytes) && error is InvalidUtf8
            && error->InvalidUtf8_0@ == utf8_fault_of(bytes),
        FileFormat::Pdf => exists|found: PdfFound| #[trigger]
            comes_to(pdf, bytes, found) && found is Err && reports(found, Err(error)),
    }
}

/// The chunks that a format makes of a text.
pub open spec fn chunks_of(format: FileFormat, text: Seq<char>) -> Seq<Seq<char>> {
    match format {
        FileFormat::Markdown => markdown_chunks(text),
        FileFormat::Pdf => pdf_chunks(text),
    }
}

impl FileFormat {
    /// The format of a file by its path.
    pub fn from_path(path: &str) -> (format: Option<Self>)
        ensures
            format == format_of(path@),
    {
        let ext: Vec<char> = match extension(path) {
            Some(ext) => ext,
            None => {
                return None;
            },
        };
        let lower: String = ascii_lowercase(from_chars(ext.as_slice()).as_str());
        if same_text(lower.as_str(), "md") || same_text(lower.as_str(), "markdown") {
            return Some(FileFormat::Markdown);
        }
        if same_text(lower.as_str(), "pdf") {
            return Some(FileFormat::Pdf);
        }
        None
    }

    /// The plain text of a file's bytes. A PDF is read by `pdf`.
    pub fn extract<F: Fn(&[u8]) -> PdfFound>(&self, bytes: &[u8], pdf: &F) -> (result: Result<
        String,
        ExtractError,
    >)
        requires
            takes_any_document(*pdf),
        ensures
            match result {
                Ok(text) => reads_as(*self, *pdf, bytes@, text@),
                Err(e) => fails_with(*self, *pdf, bytes@, e),
            },
    {
        match self {
            FileFormat::Markdown => decode(bytes),
            FileFormat::Pdf => {
                let result = extract_pdf(bytes, pdf);
                proof {
                    let found = choose|found: PdfFound| #[trigger]
                        call_ensures(*pdf, (bytes,), found) && reports(found, result);
                    assert(comes_to(*pdf, bytes@, found));
                }
                result
            },
        }
    }

    /// The chunks of a text.
    pub fn chunk(&self, text: &str) -> (result: Result<Vec<Chunk>, ChunkingError>)
        ensures
            result is Ok,
            bodies(result->Ok_0@) == chunks_of(*self, text@),
            document_shape(bodies(result->Ok_0@)),
    {
        match self {
            FileFormat::Markdown => chunk_markdown(text),
            FileFormat::Pdf => chunk_pdf(text),
        }
    }
}

/// Every file owns a chunk whatever its format, no chunk exceeds the window,
/// and an empty body stands only in the lone placeholder.
pub proof fn every_file_owns_a_chunk(format: FileFormat, text: Seq<char>)
    ensures
        document_shape(chunks_of(format, text)),
{
    match format {
        FileFormat::Markdown => markdown_document_shape(markdown_events_of(text)),
        FileFormat::Pdf => pdf_document_shape(text),
    }
}

/// The text of a Markdown file is faithful: encoded again, it is the file's
/// bytes.
pub proof fn markdown_text_is_faithful<F: Fn(&[u8]) -> PdfFound>(
    pdf: F,
    bytes: Seq<u8>,
    text: Seq<char>,
)
    requires
        reads_as(FileFormat::Markdown, pdf, bytes, text),
    ensures
        encode_utf8(text) == bytes,
{
    decode_utf8_encode_utf8(bytes);
}

/// The format goes by the extension of the file's name alone, upper and lower
/// case alike: Markdown for `md` and `markdown`, PDF for `pdf`, none for any
/// other, whatever the directory and the rest of the name.
pub proof fn format_goes_by_the_extension(dir: Seq<char>, stem: Seq<char>, ext: Seq<char>)
    requires
        stem.len() > 0,
        !stem.contains('/'),
        !ext.contains('/'),
        !ext.contains('.'),
        ext.len() > 0,
    ensures
        ({
            let path = join_spec(dir, stem + seq!['.'] + ext);
            let lower = ascii_lowercase_spec(ext);
            &&& format_of(path) == Some(FileFormat::Markdown) <==> lower == "md"@ || lower
                == "markdown"@
            &&& format_of(path) == Some(FileFormat::Pdf) <==> lower == "pdf"@
        }),
{
    reveal_strlit("md");
    reveal_strlit("markdown");
    reveal_strlit("pdf");
    let name = stem + seq!['.'] + ext;
    assert(is_proper_name(name)) by {
        if name.contains('/') {
            let k = choose|k: int| 0 <= k < name.len() && name[k] == '/';
            if k < stem.len() {
                assert(stem[k] == '/');
            } else if k > stem.len() {
                assert(ext[k - stem.len() - 1] == '/');
            }
        }
        assert(name.len() >= 3);
    }
    joined_path_ends_in_its_name(dir, name);
    extension_follows_the_last_dot(stem, ext);
    assert(extension_spec(join_spec(dir, name)) == Some(ext));
    assert("md"@.len() == 2 && "pdf"@.len() == 3 && "markdown"@.len() == 8);
    assert("pdf"@ != "md"@);
    assert("pdf"@ != "markdown"@);
}

} // verus!
