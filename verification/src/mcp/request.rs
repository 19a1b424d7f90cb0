//! The inputs of the tools.

use crate::search::SearchLevel;
use vstd::prelude::*;

verus! {

/// Most hits where a request names no number.
pub const DEFAULT_K: u32 = 20;

/// The input of every search tool.
#[derive(Debug, Clone, PartialEq, Eq)]
pub struct SearchRequest {
    pub query: String,
    /// Most hits that are returned.
    pub k: u32,
    /// The collections to search; none means all.
    pub collections: Vec<String>,
    pub level: SearchLevel,
}

/// The input of the document tool: a document, or one chunk of it.
#[derive(Debug, Clone, PartialEq, Eq)]
pub struct GetDocumentRequest {
    pub collection: String,
    pub path: String,
    pub chunk: Option<u32>,
}

impl SearchRequest {
    /// The search that the input asks for.
    pub fn into_engine_request(self) -> (request: crate::search::SearchRequest)
        ensures
            request.query == self.query,
            request.collections == self.collections,
            request.limit == self.k,
            request.level == self.level,
    {
        crate::search::SearchRequest {
            query: self.query,
            collections: self.collections,
            limit: self.k,
            level: self.level,
        }
    }
}

} // verus!
