//! Fixed-window chunker for the text of a PDF, which has no headings.

use crate::chunking::error::ChunkingError;
use crate::chunking::window::{
    char_split_with_overlap, reassemble, windows, windows_fit, windows_reassemble,
};
use crate::chunking::{bodies, document_shape, placeholder_bodies, placeholder_chunk, Chunk};
use crate::text::{to_chars, trim, trim_spec};
use vstd::prelude::*;

verus! {

/// The chunks of a PDF's text: the windows of the trimmed text, or the
/// placeholder where nothing is left.
pub open spec fn pdf_chunks(text: Seq<char>) -> Seq<Seq<char>> {
    if trim_spec(text).len() == 0 {
        placeholder_bodies()
    } else {
        windows(trim_spec(text))
    }
}

/// Chunks the plain text of a PDF.
pub fn chunk_pdf(text: &str) -> (result: Result<Vec<Chunk>, ChunkingError>)
    ensures
        result is Ok,
        bodies(result->Ok_0@) == pdf_chunks(text@),
        document_shape(bodies(result->Ok_0@)),
{
    proof {
        pdf_document_shape(text@);
    }
    let trimmed: Vec<char> = trim(to_chars(text).as_slice());
    let mut chunks: Vec<Chunk> = Vec::new();
    if trimmed.len() == 0 {
        chunks.push(placeholder_chunk());
        proof {
            assert(bodies(chunks@) =~= placeholder_bodies());
        }
        return Ok(chunks);
    }
    char_split_with_overlap(&mut chunks, trimmed.as_slice());
    proof {
        assert(bodies(chunks@) =~= windows(trim_spec(text@)));
    }
    Ok(chunks)
}

/// Every PDF owns a chunk, none exceeds the window, and an empty body stands
/// only in the lone placeholder.
pub proof fn pdf_document_shape(text: Seq<char>)
    ensures
        document_shape(pdf_chunks(text)),
{
    windows_fit(trim_spec(text));
}

/// No text of a PDF is lost: the chunks, each without what it shares with the
/// one before, spell the text without the white space around it.
pub proof fn pdf_text_is_kept(text: Seq<char>)
    ensures
        reassemble(pdf_chunks(text)) == trim_spec(text),
{
    windows_reassemble(trim_spec(text));
    if trim_spec(text).len() == 0 {
        assert(trim_spec(text) =~= Seq::empty());
        assert(pdf_chunks(text)[0] =~= Seq::empty());
    }
}

} // verus!
