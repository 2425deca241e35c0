//! Errors of book maintenance.
use vstd::prelude::*;

verus! {

#[derive(Debug, Clone, Copy, PartialEq, Eq, Structural)]
pub enum OrderbookError {
    /// An update deleted a level that the book does not hold.
    DeleteNonexistDepth,
    /// The book failed its consistency check after an update.
    InvalidUpdate,
}

impl OrderbookError {
    /// The error's name, as it is displayed.
    pub fn name(&self) -> (s: &'static str)
        ensures
            s@ == (match self {
                OrderbookError::DeleteNonexistDepth => "DeleteNonexistDepth"@,
                OrderbookError::InvalidUpdate => "InvalidUpdate"@,
            }),
    {
        match self {
            OrderbookError::DeleteNonexistDepth => "DeleteNonexistDepth",
            OrderbookError::InvalidUpdate => "InvalidUpdate",
        }
    }
}

} // verus!
