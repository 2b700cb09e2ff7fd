//! Error types returned by this crate.

use vstd::prelude::*;

verus! {

/// Errors returned by table construction.
#[derive(Debug, Clone, Copy, PartialEq, Eq, Structural)]
pub enum Error {
    /// Returned when rows of a table report different numbers of columns.
    MismatchedColumns,
}

impl Error {
    /// A human-readable description of the error.
    pub fn message(&self) -> (r: &'static str)
        ensures
            r@ == "All rows in the table should have same number of cells/columns"@,
    {
        match self {
            Error::MismatchedColumns => {
                "All rows in the table should have same number of cells/columns"
            },
        }
    }
}

/// An error about the size of a table, carrying its description.
#[derive(Debug, Clone, Copy)]
pub struct TableSizeError {
    message: &'static str,
}

impl View for TableSizeError {
    type V = Seq<char>;

    closed spec fn view(&self) -> Seq<char> {
        self.message@
    }
}

impl TableSizeError {
    /// Creates a new error from its description.
    pub fn new(message: &'static str) -> (r: TableSizeError)
        ensures
            r@ == message@,
    {
        TableSizeError { message }
    }

    /// The description the error was created with.
    pub fn message(&self) -> (r: &'static str)
        ensures
            r@ == self@,
    {
        self.message
    }
}

} // verus!
