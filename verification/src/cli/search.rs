//! `search`: the request that the arguments make.

use crate::cli::{OutputFormat, SearchArgs};
use crate::search::{SearchLevel, SearchRequest};
use vstd::prelude::*;

verus! {

/// The request that the arguments make, and how its results are written.
pub fn args_into_request(args: SearchArgs) -> (made: (SearchRequest, OutputFormat))
    ensures
        made.0.query == args.query,
        made.0.collections == args.collections,
        made.0.limit == args.limit,
        made.0.level == (if args.chunks {
            SearchLevel::Chunk
        } else {
            SearchLevel::Doc
        }),
        made.1 == args.format,
{
    let level: SearchLevel = if args.chunks {
        SearchLevel::Chunk
    } else {
        SearchLevel::Doc
    };
    (
        SearchRequest {
            query: args.query,
            collections: args.collections,
            limit: args.limit,
            level,
        },
        args.format,
    )
}

} // verus!
