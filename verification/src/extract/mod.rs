//! Plain text out of the bytes of a file.

pub mod pdf;
pub mod utf8;

pub use crate::extract::pdf::extract_pdf;

use vstd::prelude::*;
use vstd::string::StringExecFns;

verus! {

/// Why no text could be had. The text of the error underneath is held as it
/// was rendered.
#[derive(Debug)]
pub enum ExtractError {
    InvalidUtf8(String),
    Pdf(String),
}

impl ExtractError {
    /// The text shown to the user.
    pub open spec fn message_spec(self) -> Seq<char> {
        match self {
            ExtractError::InvalidUtf8(t) => "non-UTF-8 file content: "@ + t@,
            ExtractError::Pdf(t) => "pdf extract failed: "@ + t@,
        }
    }

    /// The text shown to the user.
    pub fn message(&self) -> (text: String)
        ensures
            text@ == self.message_spec(),
    {
        match self {
            ExtractError::InvalidUtf8(t) => {
                let mut text: String = "non-UTF-8 file content: ".to_string();
                text.append(t.as_str());
                text
            },
            ExtractError::Pdf(t) => {
                let mut text: String = "pdf extract failed: ".to_string();
                text.append(t.as_str());
                text
            },
        }
    }
}

} // verus!
