//! Error of the chunking module.

use vstd::prelude::*;
use vstd::string::StringExecFns;

verus! {

/// Why a text could not be chunked.
#[derive(Debug)]
pub enum ChunkingError {
    /// The input has a shape that the chunker cannot handle.
    InvalidInput { reason: String },
}

impl ChunkingError {
    /// The text shown to the user.
    pub open spec fn message_spec(self) -> Seq<char> {
        match self {
            ChunkingError::InvalidInput { reason } => "invalid markdown input: "@ + reason@,
        }
    }

    /// The text shown to the user.
    pub fn message(&self) -> (text: String)
        ensures
            text@ == self.message_spec(),
    {
        match self {
            ChunkingError::InvalidInput { reason } => {
                let mut text: String = "invalid markdown input: ".to_string();
                text.append(reason.as_str());
                text
            },
        }
    }
}

} // verus!
