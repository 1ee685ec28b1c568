//! The errors that a harvest can end in.

use vstd::prelude::*;

verus! {

/// Why a harvest, or a part of one, gave nothing.
#[derive(Debug)]
pub enum HarvestError {
    /// A whole tick failed; the message says what could not be done.
    GenericError(String),
    /// A lookup found nothing; the message says what was missing.
    QueryError(String),
}

impl HarvestError {
    /// The message that the error carries.
    pub open spec fn message(self) -> Seq<char> {
        match self {
            HarvestError::GenericError(m) => m@,
            HarvestError::QueryError(m) => m@,
        }
    }
}

} // verus!
