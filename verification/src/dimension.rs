//! Dimension value objects: a (width, height) pair for a cell, per-cell
//! widths plus one height for a row, and per-column widths plus per-row
//! heights for a table.

use vstd::prelude::*;

verus! {

/// Dimensions of a cell, in terminal columns and lines.
#[derive(Debug, Clone, Copy, PartialEq, Eq, Structural)]
pub struct CellDimension {
    /// Width of the cell.
    pub width: usize,
    /// Height of the cell.
    pub height: usize,
}

/// Dimensions of a row: one width per cell and the shared height.
#[derive(Debug, Clone, PartialEq, Eq)]
pub struct RowDimension {
    /// Widths of each cell of the row.
    pub widths: Vec<usize>,
    /// Height of the row.
    pub height: usize,
}

/// Dimensions of a table: one width per column and one height per row.
#[derive(Debug, Clone, PartialEq, Eq)]
pub struct TableDimension {
    /// Widths of each column of the table.
    pub widths: Vec<usize>,
    /// Heights of each row of the table.
    pub heights: Vec<usize>,
}

/// Mathematical value of a [`RowDimension`].
pub struct RowDimensionV {
    /// Widths of each cell of the row.
    pub widths: Seq<usize>,
    /// Height of the row.
    pub height: usize,
}

impl View for RowDimension {
    type V = RowDimensionV;

    open spec fn view(&self) -> RowDimensionV {
        RowDimensionV { widths: self.widths@, height: self.height }
    }
}

/// Mathematical value of a [`TableDimension`].
pub struct TableDimensionV {
    /// Widths of each column of the table.
    pub widths: Seq<usize>,
    /// Heights of each row of the table.
    pub heights: Seq<usize>,
}

impl View for TableDimension {
    type V = TableDimensionV;

    open spec fn view(&self) -> TableDimensionV {
        TableDimensionV { widths: self.widths@, heights: self.heights@ }
    }
}

impl RowDimension {
    /// Splits a row dimension into the dimension available to each cell:
    /// every cell gets its own width and the row's height.
    pub fn cell_dimensions(self) -> (r: Vec<CellDimension>)
        ensures
            r@.len() == self.widths@.len(),
            forall|i: int|
                0 <= i < r@.len() ==> r@[i] == (CellDimension {
                    width: self.widths@[i],
                    height: self.height,
                }),
    {
        let mut r: Vec<CellDimension> = Vec::new();
        let mut i: usize = 0;
        while i < self.widths.len()
            invariant
                i <= self.widths@.len(),
                r@.len() == i,
                forall|j: int|
                    0 <= j < i ==> r@[j] == (CellDimension {
                        width: self.widths@[j],
                        height: self.height,
                    }),
            decreases self.widths@.len() - i,
        {
            r.push(CellDimension { width: self.widths[i], height: self.height });
            i = i + 1;
        }
        r
    }
}

impl TableDimension {
    /// Splits a table dimension into the dimension available to each row:
    /// every row gets the shared column widths and its own height.
    pub fn row_dimensions(&self) -> (r: Vec<RowDimension>)
        ensures
            r@.len() == self.heights@.len(),
            forall|i: int|
                0 <= i < r@.len() ==> #[trigger] r@[i].widths@ == self.widths@ && r@[i].height
                    == self.heights@[i],
    {
        let mut r: Vec<RowDimension> = Vec::new();
        let mut i: usize = 0;
        while i < self.heights.len()
            invariant
                i <= self.heights@.len(),
                r@.len() == i,
                forall|j: int|
                    0 <= j < i ==> #[trigger] r@[j].widths@ == self.widths@ && r@[j].height
                        == self.heights@[j],
            decreases self.heights@.len() - i,
        {
            r.push(
                RowDimension {
                    widths: vstd::slice::slice_to_vec(self.widths.as_slice()),
                    height: self.heights[i],
                },
            );
            i = i + 1;
        }
        r
    }
}

} // verus!
