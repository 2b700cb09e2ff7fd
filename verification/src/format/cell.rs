//! Configuration of a single cell: justification, vertical alignment,
//! padding, and color attributes.

use vstd::prelude::*;

use crate::style::{Color, TextStyle};

verus! {

/// Horizontal placement of content within a cell's allotted width.
#[derive(Debug, Clone, Copy, PartialEq, Eq, Structural)]
pub enum Justify {
    /// Justifies contents to the left.
    Left,
    /// Justifies contents to the right.
    Right,
    /// Justifies contents to the center.
    Center,
}

impl Default for Justify {
    /// The default justification is `Left`.
    fn default() -> (r: Self)
        ensures
            r == Justify::Left,
    {
        Justify::Left
    }
}

/// Vertical placement of content within a cell's allotted height.
#[derive(Debug, Clone, Copy, PartialEq, Eq, Structural)]
pub enum Align {
    /// Aligns contents to the top.
    Top,
    /// Aligns contents to the bottom.
    Bottom,
    /// Aligns contents to the center.
    Center,
}

impl Default for Align {
    /// The default alignment is `Top`.
    fn default() -> (r: Self)
        ensures
            r == Align::Top,
    {
        Align::Top
    }
}

/// Blank columns and lines added around the contents of a cell.
#[derive(Debug, Clone, Copy, PartialEq, Eq, Structural)]
pub struct Padding {
    /// Left padding.
    pub left: usize,
    /// Right padding.
    pub right: usize,
    /// Top padding.
    pub top: usize,
    /// Bottom padding.
    pub bottom: usize,
}

impl Default for Padding {
    /// The default padding is zero on every side.
    fn default() -> (r: Self)
        ensures
            r == (Padding { left: 0, right: 0, top: 0, bottom: 0 }),
    {
        Padding { left: 0, right: 0, top: 0, bottom: 0 }
    }
}

impl Padding {
    /// Creates a new builder for [`Padding`].
    pub fn builder() -> (r: PaddingBuilder)
        ensures
            r.0 == (Padding { left: 0, right: 0, top: 0, bottom: 0 }),
    {
        PaddingBuilder(Padding { left: 0, right: 0, top: 0, bottom: 0 })
    }
}

/// Builder for [`Padding`].
#[derive(Debug)]
pub struct PaddingBuilder(pub Padding);

impl PaddingBuilder {
    /// Sets the left padding of a cell.
    pub fn left(self, left_padding: usize) -> (r: Self)
        ensures
            r.0 == (Padding { left: left_padding, ..self.0 }),
    {
        PaddingBuilder(Padding { left: left_padding, ..self.0 })
    }

    /// Sets the right padding of a cell.
    pub fn right(self, right_padding: usize) -> (r: Self)
        ensures
            r.0 == (Padding { right: right_padding, ..self.0 }),
    {
        PaddingBuilder(Padding { right: right_padding, ..self.0 })
    }

    /// Sets the top padding of a cell.
    pub fn top(self, top_padding: usize) -> (r: Self)
        ensures
            r.0 == (Padding { top: top_padding, ..self.0 }),
    {
        PaddingBuilder(Padding { top: top_padding, ..self.0 })
    }

    /// Sets the bottom padding of a cell.
    pub fn bottom(self, bottom_padding: usize) -> (r: Self)
        ensures
            r.0 == (Padding { bottom: bottom_padding, ..self.0 }),
    {
        PaddingBuilder(Padding { bottom: bottom_padding, ..self.0 })
    }

    /// Builds the [`Padding`].
    pub fn build(self) -> (r: Padding)
        ensures
            r == self.0,
    {
        self.0
    }
}

/// Configuration of a cell's format.
#[derive(Debug, Clone, Copy, PartialEq, Eq, Structural)]
pub struct CellFormat {
    /// Horizontal justification of the contents.
    pub justify: Justify,
    /// Vertical alignment of the contents.
    pub align: Align,
    /// Padding around the contents.
    pub padding: Padding,
    /// Foreground color of the contents, if any.
    pub foreground_color: Option<Color>,
    /// Background color of the contents, if any.
    pub background_color: Option<Color>,
    /// Whether the contents are bold.
    pub bold: bool,
    /// Whether the contents are underlined.
    pub underline: bool,
}

/// The format every cell starts from: left-justified, top-aligned, no
/// padding, no colors, not bold, not underlined.
pub open spec fn spec_default_cell_format() -> CellFormat {
    CellFormat {
        justify: Justify::Left,
        align: Align::Top,
        padding: Padding { left: 0, right: 0, top: 0, bottom: 0 },
        foreground_color: None,
        background_color: None,
        bold: false,
        underline: false,
    }
}

/// The composite style a cell's format gives to every span the cell emits.
pub open spec fn spec_cell_style(f: CellFormat) -> TextStyle {
    TextStyle {
        foreground_color: f.foreground_color,
        background_color: f.background_color,
        bold: f.bold,
        underline: f.underline,
    }
}

impl Default for CellFormat {
    /// The default format: left-justified, top-aligned, no padding, no
    /// colors, not bold, not underlined.
    fn default() -> (r: Self)
        ensures
            r == spec_default_cell_format(),
    {
        CellFormat {
            justify: Justify::Left,
            align: Align::Top,
            padding: Padding { left: 0, right: 0, top: 0, bottom: 0 },
            foreground_color: None,
            background_color: None,
            bold: false,
            underline: false,
        }
    }
}

impl CellFormat {
    /// Creates a new builder for [`CellFormat`].
    pub fn builder() -> (r: CellFormatBuilder)
        ensures
            r.0 == spec_default_cell_format(),
    {
        CellFormatBuilder(CellFormat::default())
    }

    /// The style applied to every span this cell emits.
    pub fn text_style(&self) -> (r: TextStyle)
        ensures
            r == spec_cell_style(*self),
    {
        TextStyle {
            foreground_color: self.foreground_color,
            background_color: self.background_color,
            bold: self.bold,
            underline: self.underline,
        }
    }
}

/// Builder for [`CellFormat`].
#[derive(Debug)]
pub struct CellFormatBuilder(pub CellFormat);

impl CellFormatBuilder {
    /// Justifies the contents of a cell.
    pub fn justify(self, justify: Justify) -> (r: Self)
        ensures
            r.0 == (CellFormat { justify, ..self.0 }),
    {
        CellFormatBuilder(CellFormat { justify, ..self.0 })
    }

    /// Aligns the contents of a cell.
    pub fn align(self, align: Align) -> (r: Self)
        ensures
            r.0 == (CellFormat { align, ..self.0 }),
    {
        CellFormatBuilder(CellFormat { align, ..self.0 })
    }

    /// Sets the padding of a cell.
    pub fn padding(self, padding: Padding) -> (r: Self)
        ensures
            r.0 == (CellFormat { padding, ..self.0 }),
    {
        CellFormatBuilder(CellFormat { padding, ..self.0 })
    }

    /// Sets the foreground color of a cell.
    pub fn foreground_color(self, foreground_color: Option<Color>) -> (r: Self)
        ensures
            r.0 == (CellFormat { foreground_color, ..self.0 }),
    {
        CellFormatBuilder(CellFormat { foreground_color, ..self.0 })
    }

    /// Sets the background color of a cell.
    pub fn background_color(self, background_color: Option<Color>) -> (r: Self)
        ensures
            r.0 == (CellFormat { background_color, ..self.0 }),
    {
        CellFormatBuilder(CellFormat { background_color, ..self.0 })
    }

    /// Sets the contents of a cell to be bold.
    pub fn bold(self, bold: bool) -> (r: Self)
        ensures
            r.0 == (CellFormat { bold, ..self.0 }),
    {
        CellFormatBuilder(CellFormat { bold, ..self.0 })
    }

    /// Sets the contents of a cell to be underlined.
    pub fn underline(self, underline: bool) -> (r: Self)
        ensures
            r.0 == (CellFormat { underline, ..self.0 }),
    {
        CellFormatBuilder(CellFormat { underline, ..self.0 })
    }

    /// Builds the [`CellFormat`].
    pub fn build(self) -> (r: CellFormat)
        ensures
            r == self.0,
    {
        self.0
    }
}

} // verus!
