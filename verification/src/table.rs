//! A table: an ordered sequence of rows sharing reconciled column widths,
//! plus the frame configuration, the color preference and a lazily cached
//! dimension.
//!
//! Construction validates that all rows report the same column count.
//! Measuring reconciles per-column widths as the elementwise maximum of the
//! rows' widths, while every row keeps its own height.

use vstd::prelude::*;

use crate::cell::CellV;
use crate::dimension::{RowDimension, TableDimension, TableDimensionV};
use crate::error::Error;
use crate::row::{
    row_eff_height, row_eff_widths, row_fits, row_render_ok, row_segment_at, Row, RowV,
};
use crate::format::table::{spec_table_style, HorizontalLine, Separator, TableFormat, Border};
use crate::style::{ColorChoice, TextSegment, TextSegmentV};
use vstd::string::StringExecFns;

verus! {

/// Mathematical value of a [`TableStruct`]: its rows, format, color
/// preference and cached dimension.
pub struct TableV {
    /// The rows of the table.
    pub rows: Seq<RowV>,
    /// The frame configuration.
    pub format: TableFormat,
    /// The color preference handed through to the caller.
    pub color_choice: ColorChoice,
    /// The cached dimension, if one has been computed.
    pub cache: Option<TableDimensionV>,
}

/// A table to be rendered for the command line.
#[derive(Debug, Clone)]
pub struct TableStruct {
    rows: Vec<Row>,
    format: TableFormat,
    color_choice: ColorChoice,
    dimension: Option<TableDimension>,
}

impl View for TableStruct {
    type V = TableV;

    closed spec fn view(&self) -> TableV {
        TableV {
            rows: self.rows.deep_view(),
            format: self.format,
            color_choice: self.color_choice,
            cache: match self.dimension {
                Some(d) => Some(d@),
                None => None,
            },
        }
    }
}

/// The column count of a sequence of rows: that of the first row.
pub open spec fn spec_columns(rows: Seq<RowV>) -> nat {
    if rows.len() == 0 {
        0
    } else {
        rows[0].cells.len()
    }
}

/// Whether all rows report the same column count.
pub open spec fn consistent_columns(rows: Seq<RowV>) -> bool {
    forall|i: int|
        0 <= i < rows.len() ==> (#[trigger] rows[i]).cells.len() == spec_columns(rows)
}

/// The width row `r` reports for column `j`, zero outside its columns.
pub open spec fn row_eff_width_at(r: RowV, j: int) -> nat {
    let ws = row_eff_widths(r);
    if 0 <= j < ws.len() {
        ws[j]
    } else {
        0
    }
}

/// The reconciled width of column `j`: the maximum width any row reports
/// for it.
pub open spec fn col_max(rows: Seq<RowV>, j: int) -> nat
    decreases rows.len(),
{
    if rows.len() == 0 {
        0
    } else {
        let rest = col_max(rows.drop_last(), j);
        let w = row_eff_width_at(rows.last(), j);
        if w > rest {
            w
        } else {
            rest
        }
    }
}

/// Whether every row can report a dimension whose widths cover the table's
/// columns.
pub open spec fn table_rows_fit(rows: Seq<RowV>) -> bool {
    forall|i: int|
        0 <= i < rows.len() ==> row_fits(#[trigger] rows[i]) && row_eff_widths(rows[i]).len()
            == spec_columns(rows)
}

/// Whether the table can report a dimension: either one is cached, or every
/// row can report one.
pub open spec fn table_fits(t: TableV) -> bool {
    t.cache is Some || table_rows_fit(t.rows)
}

/// The column widths the table reports: the cached widths when a dimension
/// is cached, else the reconciled maxima over its rows.
pub open spec fn table_eff_widths(t: TableV) -> Seq<nat> {
    match t.cache {
        Some(d) => Seq::new(d.widths.len(), |j: int| d.widths[j] as nat),
        None => Seq::new(spec_columns(t.rows), |j: int| col_max(t.rows, j)),
    }
}

/// The row heights the table reports: the cached heights when a dimension
/// is cached, else each row's own reported height.
pub open spec fn table_eff_heights(t: TableV) -> Seq<nat> {
    match t.cache {
        Some(d) => Seq::new(d.heights.len(), |i: int| d.heights[i] as nat),
        None => Seq::new(t.rows.len(), |i: int| row_eff_height(t.rows[i])),
    }
}

/// The table's reported dimension with widths and heights as machine
/// integers; meaningful where the dimension fits.
pub open spec fn table_eff_dim_usize(t: TableV) -> TableDimensionV {
    TableDimensionV {
        widths: Seq::new(table_eff_widths(t).len(), |j: int| table_eff_widths(t)[j] as usize),
        heights: Seq::new(table_eff_heights(t).len(), |i: int| table_eff_heights(t)[i] as usize),
    }
}

/// One span holding a single frame glyph, in the table's style.
pub open spec fn glyph_seg(c: char, fmt: TableFormat) -> TextSegmentV {
    TextSegmentV { text: seq![c], style: spec_table_style(fmt) }
}

/// The spans of a horizontal line from column `j` on: for every column a
/// run of the filler covering the column's width plus the two fixed spaces,
/// followed by the junction glyph between columns (when a column separator
/// is configured) or the right-end glyph after the last column (when a
/// right border is configured).
pub open spec fn hline_cols(
    line: HorizontalLine,
    fmt: TableFormat,
    widths: Seq<usize>,
    j: int,
) -> Seq<TextSegmentV>
    decreases widths.len() - j,
{
    if j < 0 || j >= widths.len() {
        Seq::empty()
    } else {
        let run = seq![
            TextSegmentV {
                text: crate::text::char_run(line.filler, (widths[j] + 2) as nat),
                style: spec_table_style(fmt),
            },
        ];
        let trail = if j == widths.len() - 1 {
            match fmt.border.right {
                Some(_) => seq![glyph_seg(line.right_end, fmt)],
                None => Seq::empty(),
            }
        } else {
            match fmt.separator.column {
                Some(_) => seq![glyph_seg(line.junction, fmt)],
                None => Seq::empty(),
            }
        };
        run + trail + hline_cols(line, fmt, widths, j + 1)
    }
}

/// The spans of a whole horizontal line: the left-end glyph when a left
/// border is configured, then the per-column runs.
pub open spec fn hline_segs(
    line: HorizontalLine,
    fmt: TableFormat,
    widths: Seq<usize>,
) -> Seq<TextSegmentV> {
    let left = match fmt.border.left {
        Some(_) => seq![glyph_seg(line.left_end, fmt)],
        None => Seq::empty(),
    };
    left + hline_cols(line, fmt, widths, 0)
}

/// The spans of a content line from column `j` on: every cell span is
/// framed by one fixed space on each side in the table's style, followed by
/// the column-separator glyph between columns or the right-border glyph
/// after the last column, each only when configured.
pub open spec fn decorate_cols(
    cells: Seq<TextSegmentV>,
    fmt: TableFormat,
    j: int,
) -> Seq<TextSegmentV>
    decreases cells.len() - j,
{
    if j < 0 || j >= cells.len() {
        Seq::empty()
    } else {
        let space = glyph_seg(' ', fmt);
        let trail = if j == cells.len() - 1 {
            match fmt.border.right {
                Some(v) => seq![glyph_seg(v.filler, fmt)],
                None => Seq::empty(),
            }
        } else {
            match fmt.separator.column {
                Some(v) => seq![glyph_seg(v.filler, fmt)],
                None => Seq::empty(),
            }
        };
        seq![space, cells[j], space] + trail + decorate_cols(cells, fmt, j + 1)
    }
}

/// The spans of a whole content line: the left-border glyph when
/// configured, then the framed cell spans.
pub open spec fn decorate_line(cells: Seq<TextSegmentV>, fmt: TableFormat) -> Seq<TextSegmentV> {
    let left = match fmt.border.left {
        Some(v) => seq![glyph_seg(v.filler, fmt)],
        None => Seq::empty(),
    };
    left + decorate_cols(cells, fmt, 0)
}

/// Line `l` of row `i` of the rendered table.
pub open spec fn content_line(
    row: RowV,
    avail: crate::dimension::RowDimensionV,
    fmt: TableFormat,
    l: int,
) -> Seq<TextSegmentV> {
    decorate_line(Seq::new(row.cells.len(), |j: int| row_segment_at(row, avail, l, j)), fmt)
}

/// A horizontal line as rendered output: one line when the descriptor is
/// present, nothing when it is absent.
pub open spec fn opt_hline(
    line: Option<HorizontalLine>,
    fmt: TableFormat,
    widths: Seq<usize>,
) -> Seq<Seq<TextSegmentV>> {
    match line {
        Some(l) => seq![hline_segs(l, fmt, widths)],
        None => Seq::empty(),
    }
}

/// The separator drawn after the first row: the title separator when
/// configured, else the row separator.
pub open spec fn sep_after_first(fmt: TableFormat) -> Option<HorizontalLine> {
    match fmt.separator.title {
        Some(t) => Some(t),
        None => fmt.separator.row,
    }
}

/// The rendered lines of the table from row `i` on: each row's block of
/// content lines, separated by the row separator (the title separator after
/// the first row, when configured), with the bottom border after the last
/// row.
pub open spec fn table_body(t: TableV, d: TableDimensionV, i: int) -> Seq<Seq<TextSegmentV>>
    decreases t.rows.len() - i,
{
    if i < 0 || i >= t.rows.len() {
        Seq::empty()
    } else {
        let avail = crate::dimension::RowDimensionV { widths: d.widths, height: d.heights[i] };
        let block = Seq::new(
            d.heights[i] as nat,
            |l: int| content_line(t.rows[i], avail, t.format, l),
        );
        if i == t.rows.len() - 1 {
            block + opt_hline(t.format.border.bottom, t.format, d.widths)
        } else {
            let sep = if i == 0 {
                sep_after_first(t.format)
            } else {
                t.format.separator.row
            };
            block + opt_hline(sep, t.format, d.widths) + table_body(t, d, i + 1)
        }
    }
}

/// The rendered lines of the whole table.  A table with no rows renders as
/// nothing at all, borders included: that is this crate's deliberate policy
/// for the empty table.
pub open spec fn table_lines(t: TableV) -> Seq<Seq<TextSegmentV>> {
    if t.rows.len() == 0 {
        Seq::empty()
    } else {
        let d = table_eff_dim_usize(t);
        opt_hline(t.format.border.top, t.format, d.widths) + table_body(t, d, 0)
    }
}

/// Whether the table can be rendered: it reports a dimension whose heights
/// cover the rows, every column width leaves room for the two fixed spaces,
/// and every row can be rendered into the reported widths and its height.
/// A table with no rows renders as nothing and is always renderable.
pub open spec fn table_render_ok(t: TableV) -> bool {
    if t.rows.len() == 0 {
        true
    } else {
        let d = table_eff_dim_usize(t);
        &&& table_fits(t)
        &&& table_eff_heights(t).len() == t.rows.len()
        &&& forall|j: int|
            0 <= j < table_eff_widths(t).len() ==> #[trigger] table_eff_widths(t)[j] + 2
                <= usize::MAX
        &&& forall|i: int|
            0 <= i < t.rows.len() ==> row_render_ok(
                #[trigger] t.rows[i],
                crate::dimension::RowDimensionV { widths: d.widths, height: d.heights[i] },
            )
    }
}

/// Appends one span to a line under construction.
fn push_seg(out: &mut Vec<TextSegment>, seg: TextSegment)
    ensures
        final(out).deep_view() == old(out).deep_view() + seq![seg@],
{
    let ghost prev = out.deep_view();
    out.push(seg);
    proof {
        assert(out.deep_view() =~= prev + seq![seg@]);
    }
}

/// The text of one rendered line: its spans' characters, in order.
pub open spec fn line_text(segs: Seq<TextSegmentV>) -> Seq<char>
    decreases segs.len(),
{
    if segs.len() == 0 {
        Seq::empty()
    } else {
        line_text(segs.drop_last()) + segs.last().text
    }
}

/// The text of a rendered table: every line's text followed by a line
/// break.
pub open spec fn lines_text(lines: Seq<Seq<TextSegmentV>>) -> Seq<char>
    decreases lines.len(),
{
    if lines.len() == 0 {
        Seq::empty()
    } else {
        lines_text(lines.drop_last()) + line_text(lines.last()) + seq!['\n']
    }
}

/// Column-width reconciliation: the width the table reports for a column
/// is the elementwise maximum over its rows — an upper bound on every
/// row's width for that column, attained by some row.
pub proof fn lemma_column_width_reconciled(rows: Seq<RowV>, j: int)
    ensures
        forall|i: int|
            0 <= i < rows.len() ==> row_eff_width_at(#[trigger] rows[i], j) <= col_max(rows, j),
        rows.len() > 0 ==> exists|i: int|
            0 <= i < rows.len() && row_eff_width_at(#[trigger] rows[i], j) == col_max(rows, j),
    decreases rows.len(),
{
    if rows.len() == 0 {
    } else {
        let rest = rows.drop_last();
        lemma_column_width_reconciled(rest, j);
        assert(forall|i: int| 0 <= i < rest.len() ==> rest[i] == rows[i]);
        let w = row_eff_width_at(rows.last(), j);
        if rows.len() == 1 {
            assert(col_max(rest, j) == 0);
            assert(row_eff_width_at(rows[0], j) == col_max(rows, j));
        } else if w > col_max(rest, j) {
            assert(row_eff_width_at(rows[rows.len() - 1], j) == col_max(rows, j));
        } else {
            let i0 = choose|i: int|
                0 <= i < rest.len() && row_eff_width_at(#[trigger] rest[i], j) == col_max(rest, j);
            assert(row_eff_width_at(rows[i0], j) == col_max(rows, j));
        }
    }
}

/// Column-width reconciliation at the table: for a table with no cached
/// dimension, the width it reports for column `j` is exactly the maximum
/// width any of its rows reports for that column — an upper bound on every
/// row, attained by at least one.  (A table holding a cached dimension
/// reports the memoized value instead, as the idempotence of measuring
/// requires, so the cached case is excluded here.)
pub proof fn lemma_table_width_reconciled(t: TableV, j: int)
    requires
        t.cache is None,
        0 <= j < table_eff_widths(t).len(),
    ensures
        forall|i: int|
            0 <= i < t.rows.len() ==> row_eff_width_at(#[trigger] t.rows[i], j)
                <= table_eff_widths(t)[j],
        t.rows.len() > 0 ==> exists|i: int|
            0 <= i < t.rows.len() && row_eff_width_at(#[trigger] t.rows[i], j)
                == table_eff_widths(t)[j],
{
    lemma_column_width_reconciled(t.rows, j);
    assert(table_eff_widths(t)[j] == col_max(t.rows, j));
}

/// Measuring is idempotent: a table holding a cached dimension `d` reports
/// exactly `d`, so measuring again without a reset returns the same value.
pub proof fn lemma_dimension_idempotent(t: TableV, d: TableDimensionV)
    requires
        t.cache == Some(d),
    ensures
        table_fits(t),
        table_eff_dim_usize(t).widths == d.widths,
        table_eff_dim_usize(t).heights == d.heights,
{
    assert(table_eff_dim_usize(t).widths =~= d.widths);
    assert(table_eff_dim_usize(t).heights =~= d.heights);
}

/// After a reset nothing is cached, so the table reports the dimension of
/// the current content: reconciled column maxima and each row's own height.
pub proof fn lemma_reset_recomputes(t: TableV)
    requires
        t.cache is None,
    ensures
        table_eff_widths(t) == Seq::new(spec_columns(t.rows), |j: int| col_max(t.rows, j)),
        table_eff_heights(t) == Seq::new(t.rows.len(), |i: int| row_eff_height(t.rows[i])),
{
}

impl TableStruct {
    /// Builds a horizontal line of the table: left end, filler runs of each
    /// column's width plus two, junctions, right end — each glyph only
    /// where the frame configures it.
    #[verifier::loop_isolation(false)]
    fn hline(&self, line: &HorizontalLine, widths: &Vec<usize>) -> (r: Vec<TextSegment>)
        requires
            forall|j: int| 0 <= j < widths@.len() ==> #[trigger] widths@[j] + 2 <= usize::MAX,
        ensures
            r.deep_view() == hline_segs(*line, self@.format, widths@),
    {
        let ghost fmt = self@.format;
        let style = self.format.text_style();
        let mut r: Vec<TextSegment> = Vec::new();
        proof {
            assert(r.deep_view() =~= Seq::<TextSegmentV>::empty());
        }
        if self.format.border.left.is_some() {
            push_seg(&mut r, TextSegment::new(crate::text::char_to_string(line.left_end), style));
            proof {
                assert(Seq::<TextSegmentV>::empty() + seq![glyph_seg(line.left_end, fmt)] =~= seq![
                    glyph_seg(line.left_end, fmt),
                ]);
            }
        }
        let ghost left_part = r.deep_view();
        proof {
            assert(hline_segs(*line, fmt, widths@) =~= left_part + hline_cols(
                *line,
                fmt,
                widths@,
                0,
            ));
        }
        let n = widths.len();
        let mut j: usize = 0;
        while j < n
            invariant
                j <= n,
                r.deep_view() + hline_cols(*line, fmt, widths@, j as int) == hline_segs(
                    *line,
                    fmt,
                    widths@,
                ),
            decreases n - j,
        {
            let ghost before = r.deep_view();
            let ghost step = hline_cols(*line, fmt, widths@, j as int);
            let run = crate::text::repeat_char(line.filler, widths[j] + 2);
            push_seg(&mut r, TextSegment::new(run, style));
            if j == n - 1 {
                if self.format.border.right.is_some() {
                    push_seg(
                        &mut r,
                        TextSegment::new(crate::text::char_to_string(line.right_end), style),
                    );
                }
            } else {
                if self.format.separator.column.is_some() {
                    push_seg(
                        &mut r,
                        TextSegment::new(crate::text::char_to_string(line.junction), style),
                    );
                }
            }
            proof {
                assert(r.deep_view() + hline_cols(*line, fmt, widths@, j + 1) =~= before + step);
            }
            j = j + 1;
        }
        proof {
            assert(r.deep_view() + hline_cols(*line, fmt, widths@, n as int) =~= r.deep_view());
        }
        r
    }

    /// Frames the cell spans of one content line with the fixed spaces and
    /// the configured vertical glyphs.
    #[verifier::loop_isolation(false)]
    fn decorate(&self, cells: Vec<TextSegment>) -> (r: Vec<TextSegment>)
        ensures
            r.deep_view() == decorate_line(cells.deep_view(), self@.format),
    {
        let ghost fmt = self@.format;
        let ghost cv = cells.deep_view();
        let style = self.format.text_style();
        let mut r: Vec<TextSegment> = Vec::new();
        proof {
            assert(r.deep_view() =~= Seq::<TextSegmentV>::empty());
        }
        if let Some(v) = &self.format.border.left {
            push_seg(&mut r, TextSegment::new(crate::text::char_to_string(v.filler), style));
            proof {
                assert(Seq::<TextSegmentV>::empty() + seq![glyph_seg(v.filler, fmt)] =~= seq![
                    glyph_seg(v.filler, fmt),
                ]);
            }
        }
        proof {
            assert(decorate_line(cv, fmt) =~= r.deep_view() + decorate_cols(cv, fmt, 0));
        }
        let n = cells.len();
        let mut rest = cells;
        let mut j: usize = 0;
        while j < n
            invariant
                j <= n,
                rest@.len() == n - j,
                forall|m: int| 0 <= m < rest@.len() ==> (#[trigger] rest@[m])@ == cv[j + m],
                r.deep_view() + decorate_cols(cv, fmt, j as int) == decorate_line(cv, fmt),
            decreases n - j,
        {
            let ghost before = r.deep_view();
            let ghost step = decorate_cols(cv, fmt, j as int);
            let cellseg = rest.remove(0);
            push_seg(&mut r, TextSegment::new(crate::text::char_to_string(' '), style));
            push_seg(&mut r, cellseg);
            push_seg(&mut r, TextSegment::new(crate::text::char_to_string(' '), style));
            if j == n - 1 {
                if let Some(v) = &self.format.border.right {
                    push_seg(
                        &mut r,
                        TextSegment::new(crate::text::char_to_string(v.filler), style),
                    );
                }
            } else {
                if let Some(v) = &self.format.separator.column {
                    push_seg(
                        &mut r,
                        TextSegment::new(crate::text::char_to_string(v.filler), style),
                    );
                }
            }
            proof {
                assert(r.deep_view() + decorate_cols(cv, fmt, j + 1) =~= before + step);
            }
            j = j + 1;
        }
        proof {
            assert(r.deep_view() + decorate_cols(cv, fmt, n as int) =~= r.deep_view());
        }
        r
    }

    /// Builds a table from its rows and format, validating that every row
    /// has the same number of columns.  Fails with
    /// [`Error::MismatchedColumns`] exactly when two rows differ in column
    /// count.  The color preference starts as [`ColorChoice::Always`].
    pub fn new(rows: Vec<Row>, format: TableFormat) -> (r: Result<TableStruct, Error>)
        ensures
            r is Ok <==> consistent_columns(rows.deep_view()),
            r is Ok ==> r->Ok_0@ == (TableV {
                rows: rows.deep_view(),
                format,
                color_choice: ColorChoice::Always,
                cache: None,
            }),
            r is Err ==> r->Err_0 == Error::MismatchedColumns,
    {
        let ghost rows_v = rows.deep_view();
        if rows.len() >= 2 {
            let columns = rows[0].columns();
            let mut i: usize = 1;
            while i < rows.len()
                invariant
                    1 <= i <= rows_v.len(),
                    rows@.len() == rows_v.len(),
                    forall|k: int| 0 <= k < rows_v.len() ==> rows@[k].deep_view() == rows_v[k],
                    columns == spec_columns(rows_v),
                    forall|k: int|
                        0 <= k < i ==> (#[trigger] rows_v[k]).cells.len() == spec_columns(rows_v),
                decreases rows@.len() - i,
            {
                if rows[i].columns() != columns {
                    proof {
                        assert(rows.deep_view() =~= rows_v);
                        assert(rows_v[i as int].cells.len() != spec_columns(rows_v));
                        assert(!consistent_columns(rows_v));
                    }
                    return Err(Error::MismatchedColumns);
                }
                i = i + 1;
            }
        }
        Ok(TableStruct { rows, format, color_choice: ColorChoice::Always, dimension: None })
    }

    /// The rows of the table.
    pub fn rows(&self) -> (r: &Vec<Row>)
        ensures
            r.deep_view() == self@.rows,
    {
        &self.rows
    }

    /// Sets the border of the table.
    pub fn border(self, border: Border) -> (r: Self)
        ensures
            r@ == (TableV {
                format: TableFormat { border, ..self@.format },
                ..self@
            }),
    {
        let format = TableFormat { border, ..self.format };
        TableStruct { format, ..self }
    }

    /// Sets the column, row and title separators of the table.
    pub fn separator(self, separator: Separator) -> (r: Self)
        ensures
            r@ == (TableV {
                format: TableFormat { separator, ..self@.format },
                ..self@
            }),
    {
        let format = TableFormat { separator, ..self.format };
        TableStruct { format, ..self }
    }

    /// Sets the color preference for printing the table.
    pub fn color_choice(self, color_choice: ColorChoice) -> (r: Self)
        ensures
            r@ == (TableV { color_choice, ..self@ }),
    {
        TableStruct { color_choice, ..self }
    }

    /// The color preference of the table.
    pub fn get_color_choice(&self) -> (r: ColorChoice)
        ensures
            r == self@.color_choice,
    {
        self.color_choice
    }

    /// Replaces the content of one cell.  No cached dimension is dropped:
    /// the caller invalidates them with an explicit reset.  Returns `false`
    /// and leaves the table unchanged when the position is out of range.
    #[verifier::loop_isolation(false)]
    pub fn set_cell_content(&mut self, row: usize, col: usize, content: &str) -> (ok: bool)
        ensures
            ok <==> row < old(self)@.rows.len() && col < old(self)@.rows[row as int].cells.len(),
            !ok ==> final(self)@ == old(self)@,
            ok ==> final(self)@ == (TableV {
                rows: old(self)@.rows.update(
                    row as int,
                    RowV {
                        cells: old(self)@.rows[row as int].cells.update(
                            col as int,
                            CellV {
                                lines: crate::cell::spec_lines(content@),
                                ..old(self)@.rows[row as int].cells[col as int]
                            },
                        ),
                        ..old(self)@.rows[row as int]
                    },
                ),
                ..old(self)@
            }),
    {
        if row >= self.rows.len() {
            return false;
        }
        let mut r = self.rows.remove(row);
        let ok = r.set_cell_content(col, content);
        self.rows.insert(row, r);
        proof {
            if ok {
                assert(final(self)@.rows =~= old(self)@.rows.update(
                    row as int,
                    final(self)@.rows[row as int],
                ));
            } else {
                assert(final(self)@.rows =~= old(self)@.rows);
                assert(final(self)@ == old(self)@);
            }
        }
        ok
    }

    /// Reconciles the rows' dimensions into table-wide column widths and
    /// per-row heights, without touching any cache: widths start from the
    /// first row's and take the elementwise maximum with every later row's;
    /// each row keeps its own height.
    #[verifier::loop_isolation(false)]
    fn compute_dimension(&self) -> (r: Option<TableDimension>)
        ensures
            r is Some <==> table_rows_fit(self@.rows),
            r is Some ==> {
                &&& r->0@.widths.len() == spec_columns(self@.rows)
                &&& forall|j: int|
                    0 <= j < r->0@.widths.len() ==> r->0@.widths[j] as nat == col_max(
                        self@.rows,
                        j,
                    )
                &&& r->0@.heights.len() == self@.rows.len()
                &&& forall|i: int|
                    0 <= i < self@.rows.len() ==> r->0@.heights[i] as nat == row_eff_height(
                        self@.rows[i],
                    )
            },
    {
        let ghost rows_v = self@.rows;
        let n = self.rows.len();
        if n == 0 {
            let d = TableDimension { widths: Vec::new(), heights: Vec::new() };
            return Some(d);
        }
        let cols = self.rows[0].columns();
        let rd0 = match self.rows[0].peek_dimension() {
            Some(d) => d,
            None => {
                proof {
                    assert(!row_fits(rows_v[0]));
                    assert(!table_rows_fit(rows_v));
                }
                return None;
            },
        };
        if rd0.widths.len() != cols {
            proof {
                assert(row_eff_widths(rows_v[0]).len() != spec_columns(rows_v));
                assert(!table_rows_fit(rows_v));
            }
            return None;
        }
        let mut widths = rd0.widths;
        let mut heights: Vec<usize> = Vec::new();
        heights.push(rd0.height);
        proof {
            assert(rows_v.take(1).drop_last() =~= Seq::<RowV>::empty());
            assert(rows_v.take(1).last() == rows_v[0]);
            assert forall|j: int|
                0 <= j < cols implies widths@[j] as nat == col_max(rows_v.take(1), j) by {
                assert(widths@[j] as nat == row_eff_widths(rows_v[0])[j]);
                assert(row_eff_width_at(rows_v[0], j) == row_eff_widths(rows_v[0])[j]);
                assert(col_max(Seq::<RowV>::empty(), j) == 0);
                assert(col_max(rows_v.take(1), j) == row_eff_width_at(rows_v[0], j));
            }
        }
        let mut i: usize = 1;
        while i < n
            invariant
                1 <= i <= n,
                widths@.len() == cols,
                forall|j: int|
                    0 <= j < cols ==> (#[trigger] widths@[j]) as nat == col_max(
                        rows_v.take(i as int),
                        j,
                    ),
                heights@.len() == i,
                forall|k: int|
                    0 <= k < i ==> (#[trigger] heights@[k]) as nat == row_eff_height(rows_v[k]),
                forall|k: int|
                    0 <= k < i ==> row_fits(#[trigger] rows_v[k]) && row_eff_widths(
                        rows_v[k],
                    ).len() == cols,
            decreases n - i,
        {
            let rd = match self.rows[i].peek_dimension() {
                Some(d) => d,
                None => {
                    proof {
                        assert(!row_fits(rows_v[i as int]));
                        assert(!table_rows_fit(rows_v));
                    }
                    return None;
                },
            };
            if rd.widths.len() != cols {
                proof {
                    assert(row_eff_widths(rows_v[i as int]).len() != spec_columns(rows_v));
                    assert(!table_rows_fit(rows_v));
                }
                return None;
            }
            heights.push(rd.height);
            let ghost widths_in = widths@;
            let mut j: usize = 0;
            while j < cols
                invariant
                    j <= cols,
                    widths@.len() == cols,
                    rd.widths@.len() == cols,
                    forall|m: int|
                        0 <= m < j ==> (#[trigger] widths@[m]) as nat == (if row_eff_width_at(
                            rows_v[i as int],
                            m,
                        ) > widths_in[m] as nat {
                            row_eff_width_at(rows_v[i as int], m)
                        } else {
                            widths_in[m] as nat
                        }),
                    forall|m: int| j <= m < cols ==> widths@[m] == widths_in[m],
                decreases cols - j,
            {
                if rd.widths[j] > widths[j] {
                    widths.set(j, rd.widths[j]);
                }
                j = j + 1;
            }
            proof {
                assert(rows_v.take(i + 1).drop_last() =~= rows_v.take(i as int));
                assert(rows_v.take(i + 1).last() == rows_v[i as int]);
                assert(forall|m: int|
                    0 <= m < cols ==> (#[trigger] widths@[m]) as nat == col_max(
                        rows_v.take(i + 1),
                        m,
                    ));
            }
            i = i + 1;
        }
        proof {
            assert(rows_v.take(n as int) =~= rows_v);
        }
        Some(TableDimension { widths, heights })
    }

    /// Measures the table, returning the cached dimension when one is
    /// present, and `None` when some cell's dimension does not fit in
    /// `usize` or some row's widths do not cover the table's columns.  On
    /// success the result is cached.
    pub fn try_dimension(&mut self) -> (r: Option<TableDimension>)
        ensures
            r is Some <==> table_fits(old(self)@),
            r is Some ==> {
                &&& r->0@.widths.len() == table_eff_widths(old(self)@).len()
                &&& forall|j: int|
                    0 <= j < r->0@.widths.len() ==> r->0@.widths[j] as nat == table_eff_widths(
                        old(self)@,
                    )[j]
                &&& r->0@.heights.len() == table_eff_heights(old(self)@).len()
                &&& forall|i: int|
                    0 <= i < r->0@.heights.len() ==> r->0@.heights[i] as nat == table_eff_heights(
                        old(self)@,
                    )[i]
            },
            r is Some ==> final(self)@ == (TableV { cache: Some(r->0@), ..old(self)@ }),
            r is None ==> final(self)@ == old(self)@,
    {
        match &self.dimension {
            Some(d) => {
                let widths = vstd::slice::slice_to_vec(d.widths.as_slice());
                let heights = vstd::slice::slice_to_vec(d.heights.as_slice());
                Some(TableDimension { widths, heights })
            },
            None => {
                match self.compute_dimension() {
                    Some(d) => {
                        let widths = vstd::slice::slice_to_vec(d.widths.as_slice());
                        let heights = vstd::slice::slice_to_vec(d.heights.as_slice());
                        self.dimension = Some(TableDimension { widths, heights });
                        Some(d)
                    },
                    None => None,
                }
            },
        }
    }

    /// Measures the table; see [`TableStruct::try_dimension`] for the
    /// guarded form.
    pub fn dimension(&mut self) -> (r: TableDimension)
        requires
            table_fits(old(self)@),
        ensures
            r@.widths.len() == table_eff_widths(old(self)@).len(),
            forall|j: int|
                0 <= j < r@.widths.len() ==> r@.widths[j] as nat == table_eff_widths(
                    old(self)@,
                )[j],
            r@.heights.len() == table_eff_heights(old(self)@).len(),
            forall|i: int|
                0 <= i < r@.heights.len() ==> r@.heights[i] as nat == table_eff_heights(
                    old(self)@,
                )[i],
            final(self)@ == (TableV { cache: Some(r@), ..old(self)@ }),
    {
        self.try_dimension().unwrap()
    }

    /// Appends one horizontal line, when the descriptor is present.
    #[verifier::loop_isolation(false)]
    fn push_hline(&self, out: &mut Vec<Vec<TextSegment>>, line: Option<HorizontalLine>, widths: &Vec<usize>)
        requires
            forall|j: int| 0 <= j < widths@.len() ==> #[trigger] widths@[j] + 2 <= usize::MAX,
        ensures
            final(out).deep_view() == old(out).deep_view() + opt_hline(line, self@.format, widths@),
    {
        let ghost prev = out.deep_view();
        if let Some(l) = &line {
            let hl = self.hline(l, widths);
            out.push(hl);
            proof {
                assert(out.deep_view() =~= prev + seq![hline_segs(*l, self@.format, widths@)]);
            }
        } else {
            proof {
                assert(prev + opt_hline(line, self@.format, widths@) =~= prev);
            }
        }
    }

    /// Renders one row's block of content lines, each framed by the
    /// table's vertical glyphs and fixed spaces.
    #[verifier::loop_isolation(false)]
    fn row_block(&self, row: &Row, avail: &RowDimension) -> (r: Option<Vec<Vec<TextSegment>>>)
        ensures
            r is Some <==> row_render_ok(row@, avail@),
            r is Some ==> r->0.deep_view() == Seq::new(
                avail@.height as nat,
                |l: int| content_line(row@, avail@, self@.format, l),
            ),
    {
        let ghost rv = row@;
        let ghost avail_v = avail@;
        let grid = match row.render(avail) {
            Some(g) => g,
            None => {
                return None;
            },
        };
        let ghost block = Seq::new(
            avail_v.height as nat,
            |l: int| content_line(rv, avail_v, self@.format, l),
        );
        let height = avail.height;
        let mut grid = grid;
        let mut out: Vec<Vec<TextSegment>> = Vec::new();
        let mut l: usize = 0;
        proof {
            assert(out.deep_view() =~= block.take(0));
        }
        while l < height
            invariant
                l <= height,
                grid@.len() == height - l,
                forall|m: int|
                    0 <= m < grid@.len() ==> (#[trigger] grid@[m])@.len() == rv.cells.len(),
                forall|m: int, jj: int|
                    0 <= m < grid@.len() && 0 <= jj < rv.cells.len() ==> grid@[m]@[jj]@
                        == row_segment_at(rv, avail_v, l + m, jj),
                out.deep_view() == block.take(l as int),
            decreases height - l,
        {
            let segs = grid.remove(0);
            proof {
                assert(segs.deep_view() =~= Seq::new(
                    rv.cells.len(),
                    |jj: int| row_segment_at(rv, avail_v, l as int, jj),
                ));
            }
            let line_out = self.decorate(segs);
            let ghost prev = out.deep_view();
            out.push(line_out);
            proof {
                assert(line_out.deep_view() == block[l as int]);
                assert(out.deep_view() =~= prev.push(block[l as int]));
                assert(block.take(l + 1) =~= block.take(l as int).push(block[l as int]));
            }
            l = l + 1;
        }
        proof {
            assert(block.take(height as int) =~= block);
        }
        Some(out)
    }

    /// Renders the table into lines of styled spans, in drawing order: top
    /// border, each row's block of content lines with separators between
    /// rows (the title separator after the first row, when configured), and
    /// the bottom border.  Borders, separators and the fixed spaces around
    /// cell contents carry the table's style; cell contents carry each
    /// cell's own style.  A table with no rows renders as nothing at all.
    ///
    /// Returns `None` exactly when the table cannot be rendered: its
    /// dimension does not fit in `usize`, or a stale cached dimension no
    /// longer covers the current content.
    #[verifier::loop_isolation(false)]
    #[verifier::rlimit(50)]
    pub fn render(&self) -> (r: Option<Vec<Vec<TextSegment>>>)
        ensures
            r is Some <==> table_render_ok(self@),
            r is Some ==> r->0.deep_view() == table_lines(self@),
    {
        let ghost t = self@;
        let n = self.rows.len();
        if n == 0 {
            let out: Vec<Vec<TextSegment>> = Vec::new();
            proof {
                assert(out.deep_view() =~= table_lines(t));
            }
            return Some(out);
        }
        let dim = match &self.dimension {
            Some(d) => TableDimension {
                widths: vstd::slice::slice_to_vec(d.widths.as_slice()),
                heights: vstd::slice::slice_to_vec(d.heights.as_slice()),
            },
            None => {
                match self.compute_dimension() {
                    Some(d) => d,
                    None => {
                        proof {
                            assert(!table_fits(t));
                        }
                        return None;
                    },
                }
            },
        };
        let ghost dv = table_eff_dim_usize(t);
        proof {
            assert(dim.widths@ =~= dv.widths);
            assert(dim.heights@ =~= dv.heights);
        }
        if dim.heights.len() != n {
            proof {
                assert(table_eff_heights(t).len() != t.rows.len());
            }
            return None;
        }
        let mut j: usize = 0;
        while j < dim.widths.len()
            invariant
                j <= dim.widths@.len(),
                forall|k: int|
                    0 <= k < j ==> #[trigger] table_eff_widths(t)[k] + 2 <= usize::MAX,
            decreases dim.widths@.len() - j,
        {
            if dim.widths[j] > usize::MAX - 2 {
                proof {
                    assert(table_eff_widths(t)[j as int] + 2 > usize::MAX);
                }
                return None;
            }
            j = j + 1;
        }
        let mut out: Vec<Vec<TextSegment>> = Vec::new();
        proof {
            assert(out.deep_view() =~= Seq::<Seq<TextSegmentV>>::empty());
        }
        self.push_hline(&mut out, self.format.border.top, &dim.widths);
        proof {
            assert(out.deep_view() =~= opt_hline(t.format.border.top, t.format, dv.widths));
            assert(out.deep_view() + table_body(t, dv, 0) =~= table_lines(t));
        }
        let mut i: usize = 0;
        while i < n
            invariant
                i <= n,
                out.deep_view() + table_body(t, dv, i as int) == table_lines(t),
                forall|k: int|
                    0 <= k < i ==> row_render_ok(
                        #[trigger] t.rows[k],
                        crate::dimension::RowDimensionV {
                            widths: dv.widths,
                            height: dv.heights[k],
                        },
                    ),
            decreases n - i,
        {
            let ghost row_start = out.deep_view();
            let ghost avail_v = crate::dimension::RowDimensionV {
                widths: dv.widths,
                height: dv.heights[i as int],
            };
            let rd = RowDimension {
                widths: vstd::slice::slice_to_vec(dim.widths.as_slice()),
                height: dim.heights[i],
            };
            proof {
                assert(rd@.widths =~= avail_v.widths);
                assert(rd@ == avail_v);
            }
            let mut block_vec = match self.row_block(&self.rows[i], &rd) {
                Some(b) => b,
                None => {
                    proof {
                        assert(!row_render_ok(t.rows[i as int], avail_v));
                    }
                    return None;
                },
            };
            let ghost block = Seq::new(
                dv.heights[i as int] as nat,
                |l: int| content_line(t.rows[i as int], avail_v, t.format, l),
            );
            proof {
                assert(block_vec.deep_view() =~= block);
            }
            out.append(&mut block_vec);
            proof {
                assert(out.deep_view() =~= row_start + block);
            }
            if i + 1 < n {
                let sepline: Option<HorizontalLine> = if i == 0 {
                    if self.format.separator.title.is_some() {
                        self.format.separator.title
                    } else {
                        self.format.separator.row
                    }
                } else {
                    self.format.separator.row
                };
                let ghost sep_spec = if i == 0 {
                    sep_after_first(t.format)
                } else {
                    t.format.separator.row
                };
                proof {
                    assert(sepline == sep_spec);
                }
                self.push_hline(&mut out, sepline, &dim.widths);
                proof {
                    assert(out.deep_view() =~= row_start + block + opt_hline(
                        sep_spec,
                        t.format,
                        dv.widths,
                    ));
                    assert(table_body(t, dv, i as int) == block + opt_hline(
                        sep_spec,
                        t.format,
                        dv.widths,
                    ) + table_body(t, dv, i + 1));
                    assert(out.deep_view() + table_body(t, dv, i + 1) =~= row_start
                        + table_body(t, dv, i as int));
                }
            } else {
                self.push_hline(&mut out, self.format.border.bottom, &dim.widths);
                proof {
                    assert(out.deep_view() =~= row_start + block + opt_hline(
                        t.format.border.bottom,
                        t.format,
                        dv.widths,
                    ));
                    assert(table_body(t, dv, i as int) == block + opt_hline(
                        t.format.border.bottom,
                        t.format,
                        dv.widths,
                    ));
                    assert(table_body(t, dv, i + 1) =~= Seq::<Seq<TextSegmentV>>::empty());
                    assert(out.deep_view() + table_body(t, dv, i + 1) =~= row_start
                        + table_body(t, dv, i as int));
                }
            }
            i = i + 1;
        }
        proof {
            assert(table_body(t, dv, n as int) =~= Seq::<Seq<TextSegmentV>>::empty());
            assert(out.deep_view() =~= table_lines(t));
            assert(table_render_ok(t));
        }
        Some(out)
    }

    /// Renders the table into plain text: every line's spans concatenated,
    /// each line closed by a line break.  Styles are dropped; see
    /// [`TableStruct::render`] for the styled form.  Returns `None` exactly
    /// when the table cannot be rendered.
    #[verifier::loop_isolation(false)]
    pub fn display(&self) -> (r: Option<crate::display::TableDisplay>)
        ensures
            r is Some <==> table_render_ok(self@),
            r is Some ==> r->0@ == lines_text(table_lines(self@)),
    {
        let lines = match self.render() {
            Some(lines) => lines,
            None => {
                return None;
            },
        };
        let ghost lv = lines.deep_view();
        let mut out = String::new();
        proof {
            assert(lv.take(0) =~= Seq::<Seq<TextSegmentV>>::empty());
            assert(out@ =~= lines_text(lv.take(0)));
        }
        let mut li: usize = 0;
        while li < lines.len()
            invariant
                li <= lines@.len(),
                lines@.len() == lv.len(),
                forall|k: int| 0 <= k < lv.len() ==> (#[trigger] lines@[k]).deep_view() == lv[k],
                out@ == lines_text(lv.take(li as int)),
            decreases lines@.len() - li,
        {
            let line = &lines[li];
            let ghost sv = lv[li as int];
            let ghost line_start = out@;
            proof {
                assert(sv.take(0) =~= Seq::<TextSegmentV>::empty());
                assert(line_text(sv.take(0)) =~= Seq::<char>::empty());
                assert(out@ =~= line_start + line_text(sv.take(0)));
            }
            let mut si: usize = 0;
            while si < line.len()
                invariant
                    si <= line@.len(),
                    line@.len() == sv.len(),
                    out@ == line_start + line_text(sv.take(si as int)),
                decreases line@.len() - si,
            {
                out.append(line[si].text.as_str());
                proof {
                    assert(sv.take(si + 1).drop_last() =~= sv.take(si as int));
                    assert(sv.take(si + 1).last() == sv[si as int]);
                    assert(line@[si as int]@.text == sv[si as int].text);
                    assert(line_start + line_text(sv.take(si as int)) + sv[si as int].text
                        =~= line_start + line_text(sv.take(si + 1)));
                }
                si = si + 1;
            }
            out.append("\n");
            proof {
                reveal_strlit("\n");
                assert("\n"@ =~= seq!['\n']);
                assert(sv.take(sv.len() as int) =~= sv);
                assert(lv.take(li + 1).drop_last() =~= lv.take(li as int));
                assert(lv.take(li + 1).last() == lv[li as int]);
                assert(lines_text(lv.take(li as int)) + line_text(sv) + seq!['\n'] =~= lines_text(
                    lv.take(li + 1),
                ));
                assert(out@ =~= lines_text(lv.take(li + 1)));
            }
            li = li + 1;
        }
        proof {
            assert(lv.take(lv.len() as int) =~= lv);
        }
        Some(crate::display::TableDisplay::new(out))
    }

    /// Drops the cached dimension of the table, of every row and of every
    /// cell, so that the next measurement reflects the current content.
    #[verifier::loop_isolation(false)]
    pub fn reset(&mut self)
        ensures
            final(self)@.cache is None,
            final(self)@.format == old(self)@.format,
            final(self)@.color_choice == old(self)@.color_choice,
            final(self)@.rows.len() == old(self)@.rows.len(),
            forall|i: int|
                0 <= i < old(self)@.rows.len() ==> {
                    let a = old(self)@.rows[i];
                    let b = #[trigger] final(self)@.rows[i];
                    b.cache is None && b.cells.len() == a.cells.len() && forall|j: int|
                        0 <= j < a.cells.len() ==> #[trigger] b.cells[j] == (CellV {
                            cache: None,
                            ..a.cells[j]
                        })
                },
    {
        self.dimension = None;
        let ghost orig = self@.rows;
        let mut rest: Vec<Row> = Vec::new();
        core::mem::swap(&mut self.rows, &mut rest);
        let mut done: Vec<Row> = Vec::new();
        while rest.len() > 0
            invariant
                self.dimension is None,
                done@.len() + rest@.len() == orig.len(),
                forall|k: int|
                    0 <= k < rest@.len() ==> (#[trigger] rest@[k]).deep_view() == orig[
                        done@.len() + k
                    ],
                forall|k: int|
                    0 <= k < done@.len() ==> {
                        let a = orig[k];
                        let b = (#[trigger] done@[k]).deep_view();
                        b.cache is None && b.cells.len() == a.cells.len() && forall|j: int|
                            0 <= j < a.cells.len() ==> #[trigger] b.cells[j] == (CellV {
                                cache: None,
                                ..a.cells[j]
                            })
                    },
            decreases rest@.len(),
        {
            let mut r = rest.remove(0);
            r.reset();
            done.push(r);
        }
        self.rows = done;
    }
}

} // verus!
