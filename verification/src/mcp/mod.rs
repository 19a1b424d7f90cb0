//! The tools that are offered to other programs: their inputs, their replies
//! and their errors.

pub mod error;
pub mod pid_lock;
pub mod request;

pub use crate::mcp::error::{McpErrorCode, McpToolError};
pub use crate::mcp::pid_lock::PidLockError;
pub use crate::mcp::request::{GetDocumentRequest, SearchRequest};

use crate::get::{check_size_limit, configured_size_limit, GetError};
use vstd::prelude::*;
use vstd::utf8::encode_utf8;

verus! {

/// The reply to a request for a document or chunk: what was asked for, and its
/// text.
#[derive(Debug)]
pub struct GetDocumentResponse {
    pub collection: String,
    pub path: String,
    pub content: String,
}

/// Which text a request asks for.
#[derive(Debug, Clone, Copy, PartialEq, Eq, Structural)]
pub enum Lookup {
    FullDocument,
    Chunk(u32),
}

/// Which text a request asks for: one chunk where it names one, else the whole
/// document.
pub fn lookup_for(request: &GetDocumentRequest) -> (lookup: Lookup)
    ensures
        lookup == match request.chunk {
            Some(n) => Lookup::Chunk(n),
            None => Lookup::FullDocument,
        },
{
    match request.chunk {
        Some(n) => Lookup::Chunk(n),
        None => Lookup::FullDocument,
    }
}

/// The text is a whole document with more bytes than the cap, which zero
/// switches off. A chunk is never capped.
pub open spec fn exceeds_cap(lookup: Lookup, max_bytes: u64, text: Seq<char>) -> bool {
    lookup is FullDocument && max_bytes != 0 && encode_utf8(text).len() > max_bytes
}

/// What was found, where the cap lets it out; a document above the cap is
/// refused with both sizes.
pub fn document_within_cap(lookup: Lookup, max_bytes: u64, found: Result<String, GetError>) -> (r:
    Result<String, GetError>)
    ensures
        match found {
            Ok(text) => if exceeds_cap(lookup, max_bytes, text@) {
                r matches Err(GetError::DocumentTooLarge { size_bytes, limit_bytes }) && size_bytes
                    == encode_utf8(text@).len() && limit_bytes == max_bytes
            } else {
                r == found
            },
            Err(_) => r == found,
        },
{
    match (lookup, found) {
        (Lookup::FullDocument, Ok(text)) => match check_size_limit(
            text.as_str(),
            configured_size_limit(max_bytes),
        ) {
            Ok(_) => Ok(text),
            Err(e) => Err(e),
        },
        (_, found) => found,
    }
}

/// The reply to a request, given what was found.
pub fn document_reply(request: GetDocumentRequest, found: Result<String, GetError>) -> (result:
    Result<GetDocumentResponse, McpToolError>)
    ensures
        match found {
            Ok(content) => result matches Ok(reply) && reply.collection == request.collection
                && reply.path == request.path && reply.content == content,
            Err(e) => result matches Err(error) && error::answers_get(error, e),
        },
{
    match found {
        Ok(content) => Ok(
            GetDocumentResponse { collection: request.collection, path: request.path, content },
        ),
        Err(e) => Err(McpToolError::from_get(e)),
    }
}

/// A chunk is never too large, nothing is where the cap is off, and of two
/// documents the larger is refused where the smaller is.
pub proof fn cap_is_for_documents(max_bytes: u64, text: Seq<char>, larger: Seq<char>, n: u32)
    requires
        encode_utf8(text).len() <= encode_utf8(larger).len(),
    ensures
        !exceeds_cap(Lookup::Chunk(n), max_bytes, text),
        !exceeds_cap(Lookup::FullDocument, 0, text),
        exceeds_cap(Lookup::FullDocument, max_bytes, text) ==> exceeds_cap(
            Lookup::FullDocument,
            max_bytes,
            larger,
        ),
        max_bytes > 0 ==> (exceeds_cap(Lookup::FullDocument, max_bytes, text) <==> encode_utf8(
            text,
        ).len() > max_bytes),
{
}

} // verus!
