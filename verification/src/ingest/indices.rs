//! The upkeep of the search indices at the end of a run, step by step.

use crate::embedding::texts_view;
use crate::ingest::error::IngestError;
use crate::text::same_text;
use vstd::prelude::*;

verus! {

/// The column that full-text search reads.
pub const COL_BODY: &'static str = "body";

/// The column that vector search reads.
pub const COL_EMBEDDING: &'static str = "embedding";

/// Selects the rows that have a vector.
pub const HAS_EMBEDDING_PREDICATE: &'static str = "embedding IS NOT NULL";

/// What to do next.
#[derive(Debug)]
pub enum IndexStep {
    /// List the indices that are there.
    ListIndices,
    /// Build the full-text index; `vector` tells that the other one is missing
    /// too.
    CreateFts { vector: bool },
    /// Count the rows that have a vector.
    CountEmbeddings,
    /// Build the vector index.
    CreateVector,
    /// Take new rows into the indices.
    Optimize,
    /// Report.
    Done(Result<(), IngestError>),
}

/// The columns of each index, by views.
pub open spec fn columns_view(indices: Seq<Vec<String>>) -> Seq<Seq<Seq<char>>> {
    indices.map_values(|c: Vec<String>| texts_view(c@))
}

/// Some index is over `column`.
pub open spec fn has_index(indices: Seq<Seq<Seq<char>>>, column: Seq<char>) -> bool {
    exists|i: int, j: int|
        0 <= i < indices.len() && 0 <= j < indices[i].len() && #[trigger] indices[i][j] == column
}

/// Whether some index is over `column`.
pub fn covers(indices: &[Vec<String>], column: &str) -> (yes: bool)
    ensures
        yes == has_index(columns_view(indices@), column@),
{
    let ghost views = columns_view(indices@);
    for i in 0..indices.len()
        invariant
            views == columns_view(indices@),
            forall|a: int, b: int|
                0 <= a < i && 0 <= b < views[a].len() ==> #[trigger] views[a][b] != column@,
    {
        let columns: &Vec<String> = &indices[i];
        for j in 0..columns.len()
            invariant
                i < indices@.len(),
                views == columns_view(indices@),
                columns == indices@[i as int],
                forall|a: int, b: int|
                    0 <= a < i && 0 <= b < views[a].len() ==> #[trigger] views[a][b] != column@,
                forall|b: int| 0 <= b < j ==> #[trigger] views[i as int][b] != column@,
        {
            proof {
                assert(views[i as int][j as int] == columns@[j as int]@);
            }
            if same_text(columns[j].as_str(), column) {
                return true;
            }
        }
    }
    false
}

/// The step once a missing full-text index is there.
pub open spec fn after_fts(vector: bool) -> IndexStep {
    if vector {
        IndexStep::CountEmbeddings
    } else {
        IndexStep::Optimize
    }
}

/// `step` follows the count of the rows: an empty table is left alone.
pub open spec fn after_count(counted: Result<usize, String>, step: IndexStep) -> bool {
    match counted {
        Err(t) => step == IndexStep::Done(Err(IngestError::CountRows(t))),
        Ok(n) => if n == 0 {
            step == IndexStep::Done(Ok(()))
        } else {
            step is ListIndices
        },
    }
}

/// The step after the rows were counted: an empty table is left alone.
pub fn on_row_count(counted: Result<usize, String>) -> (step: IndexStep)
    ensures
        after_count(counted, step),
{
    match counted {
        Err(t) => IndexStep::Done(Err(IngestError::CountRows(t))),
        Ok(n) => if n == 0 {
            IndexStep::Done(Ok(()))
        } else {
            IndexStep::ListIndices
        },
    }
}

/// `step` follows the list of the indices: one that is there is kept.
pub open spec fn after_list(listed: Result<Vec<Vec<String>>, String>, step: IndexStep) -> bool {
    match listed {
        Err(t) => step == IndexStep::Done(Err(IngestError::ListIndices(t))),
        Ok(indices) => {
            let fts = has_index(columns_view(indices@), COL_BODY@);
            let vector = has_index(columns_view(indices@), COL_EMBEDDING@);
            if fts {
                step == after_fts(!vector)
            } else {
                step == (IndexStep::CreateFts { vector: !vector })
            }
        },
    }
}

/// The step after the indices were listed: one that is there is kept.
pub fn on_indices(listed: Result<Vec<Vec<String>>, String>) -> (step: IndexStep)
    ensures
        after_list(listed, step),
{
    match listed {
        Err(t) => IndexStep::Done(Err(IngestError::ListIndices(t))),
        Ok(indices) => {
            let vector: bool = !covers(indices.as_slice(), COL_EMBEDDING);
            if !covers(indices.as_slice(), COL_BODY) {
                IndexStep::CreateFts { vector }
            } else if vector {
                IndexStep::CountEmbeddings
            } else {
                IndexStep::Optimize
            }
        },
    }
}

/// `step` follows the building of the full-text index.
pub open spec fn after_fts_built(vector: bool, built: Result<(), String>, step: IndexStep) -> bool {
    match built {
        Err(t) => step matches IndexStep::Done(
            Err(IngestError::CreateFtsIndex { column, source }),
        ) && column@ == COL_BODY@ && source == t,
        Ok(_) => step == after_fts(vector),
    }
}

/// The step after the full-text index was built.
pub fn on_fts(vector: bool, built: Result<(), String>) -> (step: IndexStep)
    ensures
        after_fts_built(vector, built, step),
{
    match built {
        Err(source) => IndexStep::Done(
            Err(IngestError::CreateFtsIndex { column: COL_BODY, source }),
        ),
        Ok(_) => if vector {
            IndexStep::CountEmbeddings
        } else {
            IndexStep::Optimize
        },
    }
}

/// `step` follows the count of the rows with a vector: the vector index waits
/// until there is one.
pub open spec fn after_embedding_count(counted: Result<usize, String>, step: IndexStep) -> bool {
    match counted {
        Err(t) => step == IndexStep::Done(Err(IngestError::CountRows(t))),
        Ok(n) => if n == 0 {
            step is Optimize
        } else {
            step is CreateVector
        },
    }
}

/// The step after the rows with a vector were counted: the vector index waits
/// until there is one.
pub fn on_embedding_count(counted: Result<usize, String>) -> (step: IndexStep)
    ensures
        after_embedding_count(counted, step),
{
    match counted {
        Err(t) => IndexStep::Done(Err(IngestError::CountRows(t))),
        Ok(n) => if n > 0 {
            IndexStep::CreateVector
        } else {
            IndexStep::Optimize
        },
    }
}

/// `step` follows the building of the vector index.
pub open spec fn after_vector_built(built: Result<(), String>, step: IndexStep) -> bool {
    match built {
        Err(t) => step == IndexStep::Done(Err(IngestError::CreateVectorIndex(t))),
        Ok(_) => step is Optimize,
    }
}

/// The step after the vector index was built.
pub fn on_vector(built: Result<(), String>) -> (step: IndexStep)
    ensures
        after_vector_built(built, step),
{
    match built {
        Err(t) => IndexStep::Done(Err(IngestError::CreateVectorIndex(t))),
        Ok(_) => IndexStep::Optimize,
    }
}

/// `step` follows the taking in of new rows.
pub open spec fn after_optimized(done: Result<(), String>, step: IndexStep) -> bool {
    match done {
        Err(t) => step == IndexStep::Done(Err(IngestError::OptimizeIndex(t))),
        Ok(_) => step == IndexStep::Done(Ok(())),
    }
}

/// The step after new rows were taken in.
pub fn on_optimized(done: Result<(), String>) -> (step: IndexStep)
    ensures
        after_optimized(done, step),
{
    match done {
        Err(t) => IndexStep::Done(Err(IngestError::OptimizeIndex(t))),
        Ok(_) => IndexStep::Done(Ok(())),
    }
}

/// Upkeep of a table with rows builds what is missing and nothing else: the
/// full-text index exactly where no index is over the bodies, the vector index
/// exactly where none is over the vectors and a row has one; and it ends with
/// taking in new rows. An empty table is left alone.
pub proof fn upkeep_builds_what_is_missing(
    rows: usize,
    indices: Vec<Vec<String>>,
    with_vector: usize,
    listed: IndexStep,
    first: IndexStep,
    second: IndexStep,
    third: IndexStep,
    last: IndexStep,
)
    requires
        after_count(Ok(rows), listed),
        after_list(Ok(indices), first),
        match first {
            IndexStep::CreateFts { vector } => after_fts_built(vector, Ok(()), second),
            _ => second == first,
        },
        if second is CountEmbeddings {
            after_embedding_count(Ok(with_vector), third)
        } else {
            third == second
        },
        if third is CreateVector {
            after_vector_built(Ok(()), last)
        } else {
            last == third
        },
    ensures
        rows == 0 <==> listed is Done,
        rows > 0 <==> listed is ListIndices,
        first is CreateFts <==> !has_index(columns_view(indices@), "body"@),
        second is CountEmbeddings <==> !has_index(columns_view(indices@), "embedding"@),
        third is CreateVector <==> !has_index(columns_view(indices@), "embedding"@) && with_vector
            > 0,
        last is Optimize,
{
}

} // verus!
