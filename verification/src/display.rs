//! A rendered table held as plain text.

use vstd::prelude::*;

verus! {

/// A table rendered into one string, line breaks included.
#[derive(Debug, Clone)]
pub struct TableDisplay {
    inner: String,
}

impl View for TableDisplay {
    type V = Seq<char>;

    closed spec fn view(&self) -> Seq<char> {
        self.inner@
    }
}

impl TableDisplay {
    /// Wraps the rendered text of a table.
    pub fn new(inner: String) -> (r: TableDisplay)
        ensures
            r@ == inner@,
    {
        TableDisplay { inner }
    }

    /// The rendered text.
    pub fn text(&self) -> (r: &str)
        ensures
            r@ == self@,
    {
        self.inner.as_str()
    }
}

} // verus!
