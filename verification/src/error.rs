//! What can go wrong while a template file is rendered.

use vstd::prelude::*;
use vstd::string::StringExecFns;

verus! {

/// The failures that rendering reports.
#[derive(Debug, Clone, Copy, PartialEq, Eq, Structural)]
pub enum Error {
    /// The template file has no content: it does not exist or was never read.
    MissingContent,
    /// The start and end markers of the host blocks do not pair up.
    UnbalancedBlocks,
}

impl Error {
    /// The text shown to the user for this error.
    pub open spec fn message_text(self) -> Seq<char> {
        match self {
            Error::MissingContent => "Error parsing template file: File does not exist"@,
            Error::UnbalancedBlocks =>
                "Error when parsing template file: Open template blocks don't match closed template blocks!"@,
        }
    }

    /// The text shown to the user for this error.
    pub fn message(&self) -> (s: String)
        ensures
            s@ == self.message_text(),
    {
        match self {
            Error::MissingContent => String::from_str(
                "Error parsing template file: File does not exist",
            ),
            Error::UnbalancedBlocks => String::from_str(
                "Error when parsing template file: Open template blocks don't match closed template blocks!",
            ),
        }
    }
}

} // verus!
