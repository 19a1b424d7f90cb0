//! Turns extracted text into chunks for the ingest writer.
//!
//! - every Markdown heading starts a new section; a section's chunks hold the
//!   heading text followed by the text beneath it;
//! - a section is packed into chunks at block boundaries, each chunk at most
//!   [`WINDOW_CHARS`] characters; only a block larger than the window is cut,
//!   with [`OVERLAP_CHARS`] characters of overlap between neighbours;
//! - a document without text yields one placeholder chunk with an empty body,
//!   so that every file owns at least one chunk, and an empty body marks the
//!   placeholder and nothing else.

pub mod error;
pub mod markdown;
pub mod markdown_laws;
pub mod markdown_text;
pub mod pdf;
pub mod window;

pub use crate::chunking::error::ChunkingError;
pub use crate::chunking::markdown::chunk_markdown;
pub use crate::chunking::pdf::chunk_pdf;

use vstd::prelude::*;

verus! {

/// Largest number of characters in a chunk.
pub const WINDOW_CHARS: usize = 700;

/// Characters that two neighbouring windows of one oversized block share.
pub const OVERLAP_CHARS: usize = 70;

/// One chunk of a document. An empty body marks the placeholder.
#[derive(Debug, Clone, PartialEq, Eq)]
pub struct Chunk {
    pub body: String,
}

/// The bodies of `chunks`, as character sequences.
pub open spec fn bodies(chunks: Seq<Chunk>) -> Seq<Seq<char>> {
    chunks.map_values(|c: Chunk| c.body@)
}

/// The chunks of a document without text: one, with an empty body.
pub open spec fn placeholder_bodies() -> Seq<Seq<char>> {
    seq![Seq::<char>::empty()]
}

/// The chunk of a document that holds no text.
pub fn placeholder_chunk() -> (chunk: Chunk)
    ensures
        chunk.body@ == Seq::<char>::empty(),
{
    Chunk { body: String::new() }
}

/// Appends a chunk with the given body.
pub(crate) fn push_chunk(out: &mut Vec<Chunk>, body: String)
    ensures
        bodies(final(out)@) == bodies(old(out)@).push(body@),
{
    out.push(Chunk { body });
    proof {
        assert(bodies(out@) =~= bodies(old(out)@).push(body@));
    }
}

/// What every chunked document satisfies: it owns a chunk, no chunk exceeds
/// the window, and an empty body stands only in the lone placeholder.
pub open spec fn document_shape(chunks: Seq<Seq<char>>) -> bool {
    &&& chunks.len() >= 1
    &&& forall|i: int| 0 <= i < chunks.len() ==> (#[trigger] chunks[i]).len() <= WINDOW_CHARS
    &&& (exists|i: int| 0 <= i < chunks.len() && (#[trigger] chunks[i]).len() == 0) ==> chunks
        == placeholder_bodies()
}

} // verus!
