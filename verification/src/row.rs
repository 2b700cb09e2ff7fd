//! A row: an ordered sequence of cells sharing one vertical extent, with a
//! lazily cached dimension.

use vstd::prelude::*;

use crate::cell::{
    cell_eff_height, cell_eff_width, cell_fits, cell_line_at, cell_render_ok, Cell, CellV,
};
use crate::dimension::{CellDimension, RowDimension, RowDimensionV};
use crate::format::cell::spec_cell_style;
use crate::style::{TextSegment, TextSegmentV};
use crate::utils::transpose;

verus! {

/// Mathematical value of a [`Row`]: its cells and its cached dimension.
pub struct RowV {
    /// The cells of the row, in column order.
    pub cells: Seq<CellV>,
    /// The cached dimension, if one has been computed.
    pub cache: Option<RowDimensionV>,
}

/// A row of a table.
#[derive(Debug, Clone)]
pub struct Row {
    cells: Vec<Cell>,
    dimension: Option<RowDimension>,
}

impl View for Row {
    type V = RowV;

    closed spec fn view(&self) -> RowV {
        RowV {
            cells: self.cells.deep_view(),
            cache: match self.dimension {
                Some(d) => Some(d@),
                None => None,
            },
        }
    }
}

impl DeepView for Row {
    type V = RowV;

    open spec fn deep_view(&self) -> RowV {
        self.view()
    }
}

/// The widths the cells of a row report, in column order.
pub open spec fn row_cells_widths(cells: Seq<CellV>) -> Seq<nat> {
    Seq::new(cells.len(), |i: int| cell_eff_width(cells[i]))
}

/// The height a sequence of cells requires: the tallest reported height.
pub open spec fn row_max_height(cells: Seq<CellV>) -> nat
    decreases cells.len(),
{
    if cells.len() == 0 {
        0
    } else {
        let rest = row_max_height(cells.drop_last());
        let h = cell_eff_height(cells.last());
        if h > rest {
            h
        } else {
            rest
        }
    }
}

/// Every cell's reported height is bounded by the row maximum.
pub proof fn lemma_row_max_height_bound(cells: Seq<CellV>, i: int)
    requires
        0 <= i < cells.len(),
    ensures
        cell_eff_height(cells[i]) <= row_max_height(cells),
    decreases cells.len(),
{
    if i == cells.len() - 1 {
    } else {
        lemma_row_max_height_bound(cells.drop_last(), i);
    }
}

/// Whether the row can report a dimension: either one is cached, or every
/// cell can report one.
pub open spec fn row_fits(r: RowV) -> bool {
    r.cache is Some || forall|i: int| 0 <= i < r.cells.len() ==> cell_fits(#[trigger] r.cells[i])
}

/// The widths the row reports: the cached widths when a dimension is
/// cached, else the widths its cells report.
pub open spec fn row_eff_widths(r: RowV) -> Seq<nat> {
    match r.cache {
        Some(d) => Seq::new(d.widths.len(), |i: int| d.widths[i] as nat),
        None => row_cells_widths(r.cells),
    }
}

/// The height the row reports: the cached height when a dimension is
/// cached, else the tallest height its cells report.
pub open spec fn row_eff_height(r: RowV) -> nat {
    match r.cache {
        Some(d) => d.height as nat,
        None => row_max_height(r.cells),
    }
}

/// How measuring relates a cell to its earlier value: content and format
/// are untouched, the reported dimension is unchanged, and a cache that was
/// present stays as it was.
pub open spec fn cell_measured(a: CellV, b: CellV) -> bool {
    &&& b.lines == a.lines
    &&& b.format == a.format
    &&& cell_eff_width(b) == cell_eff_width(a)
    &&& cell_eff_height(b) == cell_eff_height(a)
    &&& (a.cache is Some ==> b.cache == a.cache)
}

/// Whether the row can be rendered into `avail`: the widths match the
/// columns and every cell can be rendered into its column width and the
/// shared height.
pub open spec fn row_render_ok(r: RowV, avail: RowDimensionV) -> bool {
    &&& avail.widths.len() == r.cells.len()
    &&& forall|j: int|
        0 <= j < r.cells.len() ==> cell_render_ok(
            #[trigger] r.cells[j],
            CellDimension { width: avail.widths[j], height: avail.height },
        )
}

/// The span of column `j` on line `l` of the rendered row: the cell's line
/// in the cell's style.
pub open spec fn row_segment_at(r: RowV, avail: RowDimensionV, l: int, j: int) -> TextSegmentV {
    TextSegmentV {
        text: cell_line_at(
            r.cells[j],
            CellDimension { width: avail.widths[j], height: avail.height },
            l,
        ),
        style: spec_cell_style(r.cells[j].format),
    }
}

impl Row {
    /// Creates a new row from its cells; no dimension is computed yet.
    pub fn new(cells: Vec<Cell>) -> (r: Row)
        ensures
            r@.cells == cells.deep_view(),
            r@.cache is None,
    {
        Row { cells, dimension: None }
    }

    /// The number of columns of the row.
    pub fn columns(&self) -> (r: usize)
        ensures
            r == self@.cells.len(),
    {
        self.cells.len()
    }

    /// Replaces the content of one cell.  Cached dimensions are kept as
    /// they are: the caller invalidates them with an explicit reset.
    /// Returns `false` and leaves the row unchanged when the column is out
    /// of range.
    pub fn set_cell_content(&mut self, col: usize, content: &str) -> (ok: bool)
        ensures
            ok <==> col < old(self)@.cells.len(),
            !ok ==> final(self)@ == old(self)@,
            ok ==> final(self)@ == (RowV {
                cells: old(self)@.cells.update(
                    col as int,
                    CellV {
                        lines: crate::cell::spec_lines(content@),
                        ..old(self)@.cells[col as int]
                    },
                ),
                ..old(self)@
            }),
    {
        if col >= self.cells.len() {
            return false;
        }
        let mut cell = self.cells.remove(col);
        cell.set_content(content);
        self.cells.insert(col, cell);
        proof {
            assert(final(self)@.cells =~= old(self)@.cells.update(
                col as int,
                CellV {
                    lines: crate::cell::spec_lines(content@),
                    ..old(self)@.cells[col as int]
                },
            ));
        }
        true
    }

    /// Drops the cached dimension of the row and of every cell in it.
    #[verifier::loop_isolation(false)]
    pub fn reset(&mut self)
        ensures
            final(self)@.cache is None,
            final(self)@.cells.len() == old(self)@.cells.len(),
            forall|i: int|
                0 <= i < old(self)@.cells.len() ==> final(self)@.cells[i] == (CellV {
                    cache: None,
                    ..old(self)@.cells[i]
                }),
    {
        self.dimension = None;
        let ghost orig = self@.cells;
        let mut rest: Vec<Cell> = Vec::new();
        core::mem::swap(&mut self.cells, &mut rest);
        let mut done: Vec<Cell> = Vec::new();
        while rest.len() > 0
            invariant
                done@.len() + rest@.len() == orig.len(),
                forall|k: int|
                    0 <= k < rest@.len() ==> (#[trigger] rest@[k]).deep_view() == orig[
                        done@.len() + k
                    ],
                forall|k: int|
                    0 <= k < done@.len() ==> (#[trigger] done@[k]).deep_view() == (CellV {
                        cache: None,
                        ..orig[k]
                    }),
            decreases rest@.len(),
        {
            let mut cell = rest.remove(0);
            cell.reset();
            done.push(cell);
        }
        self.cells = done;
    }

    /// Measures the row, returning the cached dimension when one is
    /// present, and `None` when some cell's dimension does not fit in
    /// `usize`.  On success the result is cached; the cells' own caches are
    /// filled as a side effect of measuring them.
    #[verifier::loop_isolation(false)]
    pub fn try_dimension(&mut self) -> (r: Option<RowDimension>)
        ensures
            r is Some <==> row_fits(old(self)@),
            r is Some ==> {
                &&& r->0@.widths.len() == row_eff_widths(old(self)@).len()
                &&& forall|i: int|
                    0 <= i < r->0@.widths.len() ==> r->0@.widths[i] as nat == row_eff_widths(
                        old(self)@,
                    )[i]
                &&& r->0@.height as nat == row_eff_height(old(self)@)
            },
            r is Some ==> final(self)@.cache == Some(r->0@),
            r is None ==> final(self)@.cache is None,
            final(self)@.cells.len() == old(self)@.cells.len(),
            forall|i: int|
                0 <= i < old(self)@.cells.len() ==> cell_measured(
                    old(self)@.cells[i],
                    #[trigger] final(self)@.cells[i],
                ),
    {
        match &self.dimension {
            Some(d) => {
                let widths = vstd::slice::slice_to_vec(d.widths.as_slice());
                let height = d.height;
                proof {
                    assert(forall|i: int|
                        0 <= i < old(self)@.cells.len() ==> cell_measured(
                            old(self)@.cells[i],
                            #[trigger] final(self)@.cells[i],
                        ));
                }
                Some(RowDimension { widths, height })
            },
            None => {
                let ghost orig = self@.cells;
                let mut rest: Vec<Cell> = Vec::new();
                core::mem::swap(&mut self.cells, &mut rest);
                let mut done: Vec<Cell> = Vec::new();
                let mut widths: Vec<usize> = Vec::new();
                let mut height: usize = 0;
                proof {
                    assert(orig.take(0) =~= Seq::<CellV>::empty());
                }
                while rest.len() > 0
                    invariant
                        self.dimension is None,
                        done@.len() + rest@.len() == orig.len(),
                        forall|k: int|
                            0 <= k < rest@.len() ==> (#[trigger] rest@[k]).deep_view() == orig[
                                done@.len() + k
                            ],
                        forall|k: int|
                            0 <= k < done@.len() ==> cell_measured(
                                orig[k],
                                (#[trigger] done@[k]).deep_view(),
                            ),
                        forall|k: int| 0 <= k < done@.len() ==> cell_fits(#[trigger] orig[k]),
                        widths@.len() == done@.len(),
                        forall|k: int|
                            0 <= k < widths@.len() ==> widths@[k] as nat == cell_eff_width(
                                #[trigger] orig[k],
                            ),
                        height as nat == row_max_height(orig.take(done@.len() as int)),
                    decreases rest@.len(),
                {
                    let ghost k: int = done@.len() as int;
                    let mut cell = rest.remove(0);
                    match cell.try_dimension() {
                        Some(d) => {
                            widths.push(d.width);
                            if d.height > height {
                                height = d.height;
                            }
                            proof {
                                assert(orig.take(k + 1).drop_last() =~= orig.take(k as int));
                                assert(orig.take(k + 1).last() == orig[k as int]);
                            }
                            done.push(cell);
                        },
                        None => {
                            done.push(cell);
                            while rest.len() > 0
                                invariant
                                    done@.len() + rest@.len() == orig.len(),
                                    forall|m: int|
                                        0 <= m < rest@.len() ==> (#[trigger] rest@[m]).deep_view()
                                            == orig[done@.len() + m],
                                    forall|m: int|
                                        0 <= m < done@.len() ==> cell_measured(
                                            orig[m],
                                            (#[trigger] done@[m]).deep_view(),
                                        ),
                                decreases rest@.len(),
                            {
                                let c2 = rest.remove(0);
                                done.push(c2);
                            }
                            self.cells = done;
                            proof {
                                assert(!cell_fits(orig[k as int]));
                                assert(!row_fits(old(self)@));
                                assert(final(self)@.cache is None);
                            }
                            return None;
                        },
                    }
                }
                proof {
                    assert(orig.take(orig.len() as int) =~= orig);
                }
                self.cells = done;
                let width_copy = vstd::slice::slice_to_vec(widths.as_slice());
                self.dimension = Some(RowDimension { widths: width_copy, height });
                Some(RowDimension { widths, height })
            },
        }
    }

    /// Measures the row without touching any cache: the cached dimension
    /// when one is present, else the dimension its cells report.
    #[verifier::loop_isolation(false)]
    pub fn peek_dimension(&self) -> (r: Option<RowDimension>)
        ensures
            r is Some <==> row_fits(self@),
            r is Some ==> {
                &&& r->0@.widths.len() == row_eff_widths(self@).len()
                &&& forall|i: int|
                    0 <= i < r->0@.widths.len() ==> r->0@.widths[i] as nat == row_eff_widths(
                        self@,
                    )[i]
                &&& r->0@.height as nat == row_eff_height(self@)
            },
    {
        match &self.dimension {
            Some(d) => {
                let widths = vstd::slice::slice_to_vec(d.widths.as_slice());
                Some(RowDimension { widths, height: d.height })
            },
            None => {
                let ghost cells_v = self@.cells;
                let n = self.cells.len();
                let mut widths: Vec<usize> = Vec::new();
                let mut height: usize = 0;
                let mut i: usize = 0;
                proof {
                    assert(cells_v.take(0) =~= Seq::<CellV>::empty());
                }
                while i < n
                    invariant
                        i <= n,
                        widths@.len() == i,
                        forall|k: int| 0 <= k < i ==> cell_fits(#[trigger] cells_v[k]),
                        forall|k: int|
                            0 <= k < i ==> widths@[k] as nat == cell_eff_width(
                                #[trigger] cells_v[k],
                            ),
                        height as nat == row_max_height(cells_v.take(i as int)),
                    decreases n - i,
                {
                    match self.cells[i].peek_dimension() {
                        Some(d) => {
                            widths.push(d.width);
                            if d.height > height {
                                height = d.height;
                            }
                            proof {
                                assert(cells_v.take(i + 1).drop_last() =~= cells_v.take(i as int));
                                assert(cells_v.take(i + 1).last() == cells_v[i as int]);
                            }
                        },
                        None => {
                            proof {
                                assert(!cell_fits(cells_v[i as int]));
                            }
                            return None;
                        },
                    }
                    i = i + 1;
                }
                proof {
                    assert(cells_v.take(n as int) =~= cells_v);
                }
                Some(RowDimension { widths, height })
            },
        }
    }

    /// Renders the row into the available dimension, producing the styled
    /// grid of cell spans addressed `[line][column]`.
    ///
    /// Returns `None` exactly when some cell cannot be rendered into its
    /// column width and the shared height, or when the number of widths
    /// does not match the number of cells.
    #[verifier::loop_isolation(false)]
    pub fn render(&self, avail: &RowDimension) -> (r: Option<Vec<Vec<TextSegment>>>)
        ensures
            r is Some <==> row_render_ok(self@, avail@),
            r is Some ==> r->0@.len() == avail@.height,
            r is Some ==> forall|l: int|
                0 <= l < avail@.height ==> (#[trigger] r->0@[l])@.len() == self@.cells.len(),
            r is Some ==> forall|l: int, j: int|
                0 <= l < avail@.height && 0 <= j < self@.cells.len() ==> r->0@[l]@[j]@
                    == row_segment_at(self@, avail@, l, j),
    {
        let ghost rv = self@;
        if self.cells.len() != avail.widths.len() {
            return None;
        }
        let ncells = self.cells.len();
        let mut cell_major: Vec<Vec<TextSegment>> = Vec::new();
        let mut j: usize = 0;
        while j < ncells
            invariant
                j <= ncells,
                cell_major@.len() == j,
                forall|k: int|
                    0 <= k < j ==> cell_render_ok(
                        #[trigger] rv.cells[k],
                        CellDimension { width: avail@.widths[k], height: avail@.height },
                    ),
                forall|k: int| 0 <= k < j ==> (#[trigger] cell_major@[k])@.len() == avail@.height,
                forall|k: int, l: int|
                    0 <= k < j && 0 <= l < avail@.height ==> (#[trigger] cell_major@[k]@[l])@
                        == row_segment_at(rv, avail@, l, k),
            decreases ncells - j,
        {
            let cd = CellDimension { width: avail.widths[j], height: avail.height };
            let cell = &self.cells[j];
            proof {
                assert(cell.deep_view() == rv.cells[j as int]);
            }
            match cell.render(cd) {
                Some(lines) => {
                    let style = cell.style();
                    let ghost lines_v = lines.deep_view();
                    let mut lines = lines;
                    let mut colsegs: Vec<TextSegment> = Vec::new();
                    while lines.len() > 0
                        invariant
                            colsegs@.len() + lines@.len() == avail@.height,
                            forall|m: int|
                                0 <= m < lines@.len() ==> (#[trigger] lines@[m])@ == lines_v[
                                    colsegs@.len() + m
                                ],
                            forall|m: int|
                                0 <= m < colsegs@.len() ==> (#[trigger] colsegs@[m])@.text
                                    == lines_v[m] && colsegs@[m]@.style == style,
                        decreases lines@.len(),
                    {
                        let s = lines.remove(0);
                        colsegs.push(TextSegment::new(s, style));
                    }
                    cell_major.push(colsegs);
                },
                None => {
                    proof {
                        assert(!cell_render_ok(rv.cells[j as int], cd));
                    }
                    return None;
                },
            }
            j = j + 1;
        }
        proof {
            assert(row_render_ok(rv, avail@));
        }
        if ncells == 0 {
            let mut grid: Vec<Vec<TextSegment>> = Vec::new();
            let mut l: usize = 0;
            while l < avail.height
                invariant
                    l <= avail@.height,
                    grid@.len() == l,
                    forall|m: int| 0 <= m < l ==> (#[trigger] grid@[m])@.len() == 0,
                decreases avail@.height - l,
            {
                grid.push(Vec::new());
                l = l + 1;
            }
            return Some(grid);
        }
        if avail.height == 0 {
            let grid: Vec<Vec<TextSegment>> = Vec::new();
            return Some(grid);
        }
        let grid = transpose(cell_major);
        Some(grid)
    }

    /// Measures the row; see [`Row::try_dimension`] for the guarded form.
    pub fn dimension(&mut self) -> (r: RowDimension)
        requires
            row_fits(old(self)@),
        ensures
            r@.widths.len() == row_eff_widths(old(self)@).len(),
            forall|i: int|
                0 <= i < r@.widths.len() ==> r@.widths[i] as nat == row_eff_widths(old(self)@)[i],
            r@.height as nat == row_eff_height(old(self)@),
            final(self)@.cache == Some(r@),
            final(self)@.cells.len() == old(self)@.cells.len(),
            forall|i: int|
                0 <= i < old(self)@.cells.len() ==> cell_measured(
                    old(self)@.cells[i],
                    #[trigger] final(self)@.cells[i],
                ),
    {
        self.try_dimension().unwrap()
    }
}

} // verus!
