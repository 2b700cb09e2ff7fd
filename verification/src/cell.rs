//! A cell: the smallest renderable unit, holding one piece of content
//! (split into lines) and its format, with a lazily cached dimension.

use vstd::prelude::*;
use vstd::string::StrSliceExecFns;

use crate::dimension::CellDimension;
use crate::format::cell::{spec_cell_style, Align, CellFormat, Justify};
use crate::style::TextStyle;
use crate::text::{layout_line, spaces};
use crate::width::{display_width_checked, display_width_of};

verus! {

/// Mathematical value of a [`Cell`]: its content lines, its format and its
/// cached dimension.
pub struct CellV {
    /// The content lines.
    pub lines: Seq<Seq<char>>,
    /// The format of the cell.
    pub format: CellFormat,
    /// The cached dimension, if one has been computed.
    pub cache: Option<CellDimension>,
}

/// A cell of a table.
#[derive(Debug, Clone)]
pub struct Cell {
    lines: Vec<String>,
    format: CellFormat,
    dimension: Option<CellDimension>,
}

impl View for Cell {
    type V = CellV;

    closed spec fn view(&self) -> CellV {
        CellV { lines: self.lines.deep_view(), format: self.format, cache: self.dimension }
    }
}

impl DeepView for Cell {
    type V = CellV;

    open spec fn deep_view(&self) -> CellV {
        self.view()
    }
}

/// Index of the first line break in `s`, or `-1` if there is none.
pub open spec fn first_line_break(s: Seq<char>) -> int
    decreases s.len(),
{
    if s.len() == 0 {
        -1
    } else if s[0] == '\n' {
        0
    } else {
        let rest = first_line_break(s.skip(1));
        if rest < 0 {
            -1
        } else {
            rest + 1
        }
    }
}

/// The characters of a line that ends at the line break at index `i` of
/// `s`: everything before the break, with a carriage return that belongs to
/// the break (`\r\n`) dropped as well.
pub open spec fn line_before_break(s: Seq<char>, i: int) -> Seq<char> {
    if i > 0 && s[i - 1] == '\r' {
        s.take(i - 1)
    } else {
        s.take(i)
    }
}

/// The lines of a piece of content: content is split at every line break
/// (`\n` or `\r\n`), the terminators are not part of any line, and a
/// trailing line break does not open a final empty line.
pub open spec fn spec_lines(s: Seq<char>) -> Seq<Seq<char>>
    decreases s.len(),
{
    if s.len() == 0 {
        Seq::empty()
    } else {
        let i = first_line_break(s);
        if 0 <= i < s.len() {
            seq![line_before_break(s, i)] + spec_lines(s.skip(i + 1))
        } else {
            seq![s]
        }
    }
}

proof fn lemma_first_line_break_bounds(s: Seq<char>)
    ensures
        first_line_break(s) >= 0 ==> first_line_break(s) < s.len() && s[first_line_break(s)]
            == '\n',
        first_line_break(s) < 0 ==> forall|k: int| 0 <= k < s.len() ==> s[k] != '\n',
        forall|k: int| 0 <= k < first_line_break(s) ==> s[k] != '\n',
    decreases s.len(),
{
    if s.len() == 0 {
    } else if s[0] == '\n' {
    } else {
        let t = s.skip(1);
        lemma_first_line_break_bounds(t);
        assert(forall|k: int| 0 <= k < t.len() ==> t[k] == s[k + 1]);
        if first_line_break(s) < 0 {
            assert forall|k: int| 0 <= k < s.len() implies s[k] != '\n' by {
                if k > 0 {
                    assert(s[k] == t[k - 1]);
                }
            }
        } else {
            assert forall|k: int| 0 <= k < first_line_break(s) implies s[k] != '\n' by {
                if k > 0 {
                    assert(s[k] == t[k - 1]);
                }
            }
        }
    }
}

/// `first_line_break` is determined by where the first `'\n'` stands.
proof fn lemma_first_line_break_at(s: Seq<char>, i: int)
    requires
        0 <= i < s.len(),
        s[i] == '\n',
        forall|k: int| 0 <= k < i ==> s[k] != '\n',
    ensures
        first_line_break(s) == i,
    decreases s.len(),
{
    if i == 0 {
    } else {
        assert(forall|k: int| 0 <= k < s.skip(1).len() ==> s.skip(1)[k] == s[k + 1]);
        lemma_first_line_break_at(s.skip(1), i - 1);
    }
}

proof fn lemma_first_line_break_none(s: Seq<char>)
    requires
        forall|k: int| 0 <= k < s.len() ==> s[k] != '\n',
    ensures
        first_line_break(s) < 0,
    decreases s.len(),
{
    if s.len() == 0 {
    } else {
        assert(forall|k: int| 0 <= k < s.skip(1).len() ==> s.skip(1)[k] == s[k + 1]);
        lemma_first_line_break_none(s.skip(1));
    }
}

/// Splits content at line breaks.
fn split_lines(content: &str) -> (r: Vec<String>)
    ensures
        r.deep_view() == spec_lines(content@),
{
    let n = content.unicode_len();
    let mut r: Vec<String> = Vec::new();
    let mut start: usize = 0;
    let mut j: usize = 0;
    proof {
        assert(content@.skip(0) =~= content@);
        assert(r.deep_view() =~= Seq::<Seq<char>>::empty());
        assert(r.deep_view() + spec_lines(content@) =~= spec_lines(content@));
    }
    while j < n
        invariant
            n == content@.len(),
            start <= j <= n,
            r.deep_view() + spec_lines(content@.skip(start as int)) == spec_lines(content@),
            forall|k: int| start <= k < j ==> content@[k] != '\n',
        decreases n - j,
    {
        let c = content.get_char(j);
        if c == '\u{a}' {
            let ghost prev = r.deep_view();
            let end = if j > start && content.get_char(j - 1) == '\u{d}' {
                j - 1
            } else {
                j
            };
            let line = content.substring_char(start, end).to_owned();
            r.push(line);
            proof {
                let rest = content@.skip(start as int);
                assert(forall|k: int| 0 <= k < rest.len() ==> rest[k] == content@[start + k]);
                lemma_first_line_break_at(rest, j - start);
                assert(line_before_break(rest, j - start) =~= content@.subrange(
                    start as int,
                    end as int,
                ));
                assert(rest.skip(j - start + 1) =~= content@.skip(j + 1));
                assert(spec_lines(rest) == seq![line_before_break(rest, j - start)] + spec_lines(
                    content@.skip(j + 1),
                ));
                assert(r.deep_view() =~= prev + seq![line@]);
                assert(prev + (seq![line_before_break(rest, j - start)] + spec_lines(
                    content@.skip(j + 1),
                )) =~= (prev + seq![line@]) + spec_lines(content@.skip(j + 1)));
            }
            start = j + 1;
        }
        j = j + 1;
    }
    if start < n {
        let ghost prev = r.deep_view();
        let line = content.substring_char(start, n).to_owned();
        proof {
            let rest = content@.skip(start as int);
            assert(forall|k: int| 0 <= k < rest.len() ==> rest[k] == content@[start + k]);
            lemma_first_line_break_none(rest);
            assert(rest =~= content@.subrange(start as int, n as int));
            assert(spec_lines(rest) == seq![rest]);
        }
        r.push(line);
        proof {
            let rest = content@.skip(start as int);
            assert(r.deep_view() =~= prev + seq![line@]);
            assert(prev + seq![rest] =~= prev + seq![line@]);
        }
    } else {
        proof {
            assert(content@.skip(start as int) =~= Seq::<char>::empty());
            assert(r.deep_view() + spec_lines(Seq::<char>::empty()) =~= r.deep_view());
        }
    }
    r
}

/// The widest display width among a cell's content lines.
pub open spec fn cell_max_line_width(lines: Seq<Seq<char>>) -> nat
    decreases lines.len(),
{
    if lines.len() == 0 {
        0
    } else {
        let rest = cell_max_line_width(lines.drop_last());
        let w = display_width_of(lines.last());
        if w > rest {
            w
        } else {
            rest
        }
    }
}

/// Every line's display width is bounded by the maximum.
pub proof fn lemma_max_line_width_bound(lines: Seq<Seq<char>>, i: int)
    requires
        0 <= i < lines.len(),
    ensures
        display_width_of(lines[i]) <= cell_max_line_width(lines),
    decreases lines.len(),
{
    if i == lines.len() - 1 {
    } else {
        lemma_max_line_width_bound(lines.drop_last(), i);
    }
}

/// Width a cell requires: its widest line plus left and right padding.
pub open spec fn cell_math_width(c: CellV) -> nat {
    (cell_max_line_width(c.lines) + c.format.padding.left + c.format.padding.right) as nat
}

/// Height a cell requires: its line count plus top and bottom padding.
pub open spec fn cell_math_height(c: CellV) -> nat {
    (c.lines.len() + c.format.padding.top + c.format.padding.bottom) as nat
}

/// The width the cell reports: the cached width when a dimension is cached,
/// else the width of the current content.
pub open spec fn cell_eff_width(c: CellV) -> nat {
    match c.cache {
        Some(d) => d.width as nat,
        None => cell_math_width(c),
    }
}

/// The height the cell reports: the cached height when a dimension is
/// cached, else the height of the current content.
pub open spec fn cell_eff_height(c: CellV) -> nat {
    match c.cache {
        Some(d) => d.height as nat,
        None => cell_math_height(c),
    }
}

/// Whether the cell can report a dimension: either one is cached, or the
/// dimension of the current content fits in `usize`.
pub open spec fn cell_fits(c: CellV) -> bool {
    c.cache is Some || (cell_math_width(c) <= usize::MAX && cell_math_height(c) <= usize::MAX)
}

/// Number of blank lines drawn above the content for the cell's vertical
/// alignment, slack included.
pub open spec fn cell_blank_before(c: CellV, avail_height: int) -> int {
    match c.format.align {
        Align::Top => c.format.padding.top as int,
        Align::Bottom => avail_height - cell_eff_height(c) + c.format.padding.top,
        Align::Center => (avail_height - cell_eff_height(c)) / 2 + c.format.padding.top,
    }
}

/// Number of leading space columns drawn before every content line for the
/// cell's justification.
pub open spec fn cell_lead(c: CellV, avail_width: int) -> int {
    match c.format.justify {
        Justify::Left => c.format.padding.left as int,
        Justify::Right => avail_width - cell_eff_width(c) + c.format.padding.left,
        Justify::Center => (avail_width - cell_eff_width(c)) / 2 + c.format.padding.left,
    }
}

/// Line `i` of the cell rendered into `avail`: a content line laid out with
/// its leading and trailing spaces, or a fully blank line.
pub open spec fn cell_line_at(c: CellV, avail: CellDimension, i: int) -> Seq<char> {
    let blank = cell_blank_before(c, avail.height as int);
    if blank <= i < blank + c.lines.len() {
        let line = c.lines[i - blank];
        let lead = cell_lead(c, avail.width as int);
        spaces(lead as nat) + line + spaces((avail.width - lead - display_width_of(line)) as nat)
    } else {
        spaces(avail.width as nat)
    }
}

/// Whether the cell can be rendered into `avail`: the cell reports a
/// dimension, the available dimension covers it, and — also with a stale
/// cached dimension — every line of the current content still fits.
pub open spec fn cell_render_ok(c: CellV, avail: CellDimension) -> bool {
    let blank = cell_blank_before(c, avail.height as int);
    let lead = cell_lead(c, avail.width as int);
    &&& cell_fits(c)
    &&& avail.width >= cell_eff_width(c)
    &&& avail.height >= cell_eff_height(c)
    &&& blank + c.lines.len() <= avail.height
    &&& forall|j: int|
        0 <= j < c.lines.len() ==> lead + display_width_of(#[trigger] c.lines[j]) <= avail.width
}

impl Cell {
    /// Creates a new cell from its content and format; the content is split
    /// at line breaks (`\n` or `\r\n`) and no dimension is computed yet.
    pub fn new(content: &str, format: CellFormat) -> (r: Cell)
        ensures
            r@.lines == spec_lines(content@),
            r@.format == format,
            r@.cache is None,
    {
        Cell { lines: split_lines(content), format, dimension: None }
    }

    /// Replaces the content of the cell.  A cached dimension is kept as it
    /// is: the caller invalidates it with an explicit reset.
    pub fn set_content(&mut self, content: &str)
        ensures
            final(self)@ == (CellV { lines: spec_lines(content@), ..old(self)@ }),
    {
        self.lines = split_lines(content);
    }

    /// Drops the cached dimension, so that the next measurement reflects the
    /// current content.
    pub fn reset(&mut self)
        ensures
            final(self)@ == (CellV { cache: None, ..old(self)@ }),
    {
        self.dimension = None;
    }

    /// The style applied to every span this cell emits.
    pub fn style(&self) -> (r: TextStyle)
        ensures
            r == spec_cell_style(self@.format),
    {
        self.format.text_style()
    }

    /// Measures the current content, without touching the cache.
    fn compute_dimension(&self) -> (r: Option<CellDimension>)
        ensures
            match r {
                Some(d) => d.width as nat == cell_math_width(self@) && d.height as nat
                    == cell_math_height(self@),
                None => cell_math_width(self@) > usize::MAX || cell_math_height(self@)
                    > usize::MAX,
            },
    {
        let ghost lines = self@.lines;
        let mut maxw: usize = 0;
        let mut i: usize = 0;
        proof {
            assert(lines.take(0) =~= Seq::<Seq<char>>::empty());
        }
        while i < self.lines.len()
            invariant
                i <= self.lines.len(),
                lines == self@.lines,
                self.lines@.len() == lines.len(),
                forall|k: int| 0 <= k < lines.len() ==> self.lines@[k]@ == lines[k],
                maxw as nat == cell_max_line_width(lines.take(i as int)),
            decreases self.lines.len() - i,
        {
            proof {
                assert(lines.take(i + 1).drop_last() =~= lines.take(i as int));
                assert(lines.take(i + 1).last() == lines[i as int]);
            }
            match display_width_checked(self.lines[i].as_str()) {
                Some(w) => {
                    if w > maxw {
                        maxw = w;
                    }
                },
                None => {
                    proof {
                        lemma_max_line_width_bound(lines, i as int);
                    }
                    return None;
                },
            }
            i = i + 1;
        }
        proof {
            assert(lines.take(lines.len() as int) =~= lines);
        }
        let w1 = match maxw.checked_add(self.format.padding.left) {
            Some(w) => w,
            None => {
                return None;
            },
        };
        let width = match w1.checked_add(self.format.padding.right) {
            Some(w) => w,
            None => {
                return None;
            },
        };
        let h1 = match self.lines.len().checked_add(self.format.padding.top) {
            Some(h) => h,
            None => {
                return None;
            },
        };
        let height = match h1.checked_add(self.format.padding.bottom) {
            Some(h) => h,
            None => {
                return None;
            },
        };
        Some(CellDimension { width, height })
    }

    /// Measures the cell without touching the cache: the cached dimension
    /// when one is present, else the dimension of the current content.
    pub fn peek_dimension(&self) -> (r: Option<CellDimension>)
        ensures
            r is Some <==> cell_fits(self@),
            r is Some ==> r->0.width as nat == cell_eff_width(self@) && r->0.height as nat
                == cell_eff_height(self@),
    {
        match self.dimension {
            Some(d) => Some(d),
            None => self.compute_dimension(),
        }
    }

    /// Measures the cell, returning the cached dimension when one is
    /// present, and `None` when the dimension of the current content does
    /// not fit in `usize`.  On success the result is cached.
    pub fn try_dimension(&mut self) -> (r: Option<CellDimension>)
        ensures
            r is Some <==> cell_fits(old(self)@),
            r is Some ==> r->0.width as nat == cell_eff_width(old(self)@) && r->0.height as nat
                == cell_eff_height(old(self)@),
            r is Some ==> final(self)@ == (CellV { cache: r, ..old(self)@ }),
            r is None ==> final(self)@ == old(self)@,
    {
        match self.dimension {
            Some(d) => Some(d),
            None => {
                match self.compute_dimension() {
                    Some(d) => {
                        self.dimension = Some(d);
                        Some(d)
                    },
                    None => None,
                }
            },
        }
    }

    /// Measures the cell; see [`Cell::try_dimension`] for the guarded form
    /// that does not ask the caller to know that the dimension fits.
    pub fn dimension(&mut self) -> (r: CellDimension)
        requires
            cell_fits(old(self)@),
        ensures
            r.width as nat == cell_eff_width(old(self)@),
            r.height as nat == cell_eff_height(old(self)@),
            final(self)@ == (CellV { cache: Some(r), ..old(self)@ }),
    {
        self.try_dimension().unwrap()
    }

    /// Renders the cell into the available dimension, producing one string
    /// per output line: the content lines, placed by the cell's alignment
    /// and justification, surrounded by blank lines and space fill.
    ///
    /// Returns `None` exactly when the cell cannot be rendered into
    /// `avail` — the available dimension is smaller than the reported one,
    /// or a stale cached dimension no longer covers the current content.
    #[verifier::loop_isolation(false)]
    pub fn render(&self, avail: CellDimension) -> (r: Option<Vec<String>>)
        ensures
            r is Some <==> cell_render_ok(self@, avail),
            r is Some ==> r->0@.len() == avail.height,
            r is Some ==> forall|i: int|
                0 <= i < avail.height ==> r->0@[i]@ == cell_line_at(self@, avail, i),
    {
        let ghost c = self@;
        let d = match self.dimension {
            Some(d) => d,
            None => {
                match self.compute_dimension() {
                    Some(d) => d,
                    None => {
                        return None;
                    },
                }
            },
        };
        proof {
            assert(d.width as nat == cell_eff_width(c));
            assert(d.height as nat == cell_eff_height(c));
        }
        if avail.width < d.width || avail.height < d.height {
            return None;
        }
        let blank: usize = match self.format.align {
            Align::Top => self.format.padding.top,
            Align::Bottom => {
                match (avail.height - d.height).checked_add(self.format.padding.top) {
                    Some(b) => b,
                    None => {
                        return None;
                    },
                }
            },
            Align::Center => {
                match ((avail.height - d.height) / 2).checked_add(self.format.padding.top) {
                    Some(b) => b,
                    None => {
                        return None;
                    },
                }
            },
        };
        proof {
            assert(blank as int == cell_blank_before(c, avail.height as int));
        }
        let nlines = self.lines.len();
        let content_end = match blank.checked_add(nlines) {
            Some(e) => {
                if e > avail.height {
                    return None;
                } else {
                    e
                }
            },
            None => {
                return None;
            },
        };
        let lead: usize = if nlines == 0 {
            0
        } else {
            match self.format.justify {
                Justify::Left => self.format.padding.left,
                Justify::Right => {
                    match (avail.width - d.width).checked_add(self.format.padding.left) {
                        Some(l) => l,
                        None => {
                            proof {
                                assert(cell_lead(c, avail.width as int) + display_width_of(
                                    c.lines[0],
                                ) > avail.width);
                            }
                            return None;
                        },
                    }
                },
                Justify::Center => {
                    match ((avail.width - d.width) / 2).checked_add(self.format.padding.left) {
                        Some(l) => l,
                        None => {
                            proof {
                                assert(cell_lead(c, avail.width as int) + display_width_of(
                                    c.lines[0],
                                ) > avail.width);
                            }
                            return None;
                        },
                    }
                },
            }
        };
        proof {
            if nlines > 0 {
                assert(lead as int == cell_lead(c, avail.width as int));
            }
        }
        let mut out: Vec<String> = Vec::new();
        let mut i: usize = 0;
        while i < blank
            invariant
                i <= blank,
                blank as int == cell_blank_before(c, avail.height as int),
                out@.len() == i,
                forall|k: int| 0 <= k < i ==> out@[k]@ == cell_line_at(c, avail, k),
            decreases blank - i,
        {
            out.push(crate::text::spaces_string(avail.width));
            i = i + 1;
        }
        let mut j: usize = 0;
        while j < nlines
            invariant
                j <= nlines,
                nlines == self.lines@.len(),
                c == self@,
                c.lines.len() == nlines,
                forall|k: int| 0 <= k < nlines ==> self.lines@[k]@ == c.lines[k],
                blank as int == cell_blank_before(c, avail.height as int),
                nlines > 0 ==> lead as int == cell_lead(c, avail.width as int),
                blank + nlines <= avail.height,
                out@.len() == blank + j,
                forall|k: int| 0 <= k < blank + j ==> out@[k]@ == cell_line_at(c, avail, k),
                forall|k: int|
                    0 <= k < j ==> cell_lead(c, avail.width as int) + display_width_of(
                        #[trigger] c.lines[k],
                    ) <= avail.width,
            decreases nlines - j,
        {
            let line = &self.lines[j];
            let w = match display_width_checked(line.as_str()) {
                Some(w) => w,
                None => {
                    proof {
                        assert(cell_lead(c, avail.width as int) + display_width_of(
                            c.lines[j as int],
                        ) > avail.width);
                    }
                    return None;
                },
            };
            let total = match lead.checked_add(w) {
                Some(t) => {
                    if t > avail.width {
                        proof {
                            assert(cell_lead(c, avail.width as int) + display_width_of(
                                c.lines[j as int],
                            ) > avail.width);
                        }
                        return None;
                    } else {
                        t
                    }
                },
                None => {
                    proof {
                        assert(cell_lead(c, avail.width as int) + display_width_of(
                            c.lines[j as int],
                        ) > avail.width);
                    }
                    return None;
                },
            };
            out.push(layout_line(lead, line.as_str(), w, avail.width));
            j = j + 1;
        }
        let mut k: usize = content_end;
        while k < avail.height
            invariant
                content_end <= k <= avail.height,
                content_end == blank + nlines,
                c == self@,
                c.lines.len() == nlines,
                blank as int == cell_blank_before(c, avail.height as int),
                out@.len() == k,
                forall|m: int| 0 <= m < k ==> out@[m]@ == cell_line_at(c, avail, m),
            decreases avail.height - k,
        {
            out.push(crate::text::spaces_string(avail.width));
            k = k + 1;
        }
        proof {
            assert(cell_render_ok(c, avail));
        }
        Some(out)
    }
}

} // verus!
