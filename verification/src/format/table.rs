//! Configuration of a table's frame: border and separator glyphs and the
//! style the frame is drawn with.  An absent line descriptor means the
//! corresponding element is omitted entirely, not drawn with a default
//! glyph.

use vstd::prelude::*;

use crate::style::{Color, TextStyle};

verus! {

/// A vertical line of a table: an outer border or a column separator.
#[derive(Debug, Clone, Copy, PartialEq, Eq, Structural)]
pub struct VerticalLine {
    /// The glyph the line is drawn with.
    pub filler: char,
}

impl Default for VerticalLine {
    /// The default vertical line is drawn with `|`.
    fn default() -> (r: Self)
        ensures
            r == (VerticalLine { filler: '|' }),
    {
        VerticalLine { filler: '|' }
    }
}

impl VerticalLine {
    /// Creates a new vertical line drawn with the given glyph.
    pub fn new(filler: char) -> (r: Self)
        ensures
            r == (VerticalLine { filler }),
    {
        VerticalLine { filler }
    }
}

/// A horizontal line of a table: an outer border or a row separator.
#[derive(Debug, Clone, Copy, PartialEq, Eq, Structural)]
pub struct HorizontalLine {
    /// The glyph at the left end of the line.
    pub left_end: char,
    /// The glyph at the right end of the line.
    pub right_end: char,
    /// The glyph where the line crosses a column separator.
    pub junction: char,
    /// The glyph the body of the line is drawn with.
    pub filler: char,
}

impl Default for HorizontalLine {
    /// The default horizontal line: `+` ends and junctions, `-` filler.
    fn default() -> (r: Self)
        ensures
            r == (HorizontalLine { left_end: '+', right_end: '+', junction: '+', filler: '-' }),
    {
        HorizontalLine { left_end: '+', right_end: '+', junction: '+', filler: '-' }
    }
}

impl HorizontalLine {
    /// Creates a new horizontal line from its four glyphs.
    pub fn new(left_end: char, right_end: char, junction: char, filler: char) -> (r: Self)
        ensures
            r == (HorizontalLine { left_end, right_end, junction, filler }),
    {
        HorizontalLine { left_end, right_end, junction, filler }
    }
}

/// The outer borders of a table; an absent side is omitted entirely.
#[derive(Debug, Clone, Copy, PartialEq, Eq, Structural)]
pub struct Border {
    /// Top border, if any.
    pub top: Option<HorizontalLine>,
    /// Bottom border, if any.
    pub bottom: Option<HorizontalLine>,
    /// Left border, if any.
    pub left: Option<VerticalLine>,
    /// Right border, if any.
    pub right: Option<VerticalLine>,
}

/// The border every table starts from: all four sides present with their
/// default glyphs.
pub open spec fn spec_default_border() -> Border {
    Border {
        top: Some(HorizontalLine { left_end: '+', right_end: '+', junction: '+', filler: '-' }),
        bottom: Some(HorizontalLine { left_end: '+', right_end: '+', junction: '+', filler: '-' }),
        left: Some(VerticalLine { filler: '|' }),
        right: Some(VerticalLine { filler: '|' }),
    }
}

impl Border {
    /// Creates a new builder for [`Border`], starting with no border on any
    /// side.
    pub fn builder() -> (r: BorderBuilder)
        ensures
            r.0 == (Border { top: None, bottom: None, left: None, right: None }),
    {
        BorderBuilder(Border { top: None, bottom: None, left: None, right: None })
    }
}

impl Default for Border {
    /// The default border has all four sides, with default glyphs.
    fn default() -> (r: Self)
        ensures
            r == spec_default_border(),
    {
        Border {
            top: Some(HorizontalLine::default()),
            bottom: Some(HorizontalLine::default()),
            left: Some(VerticalLine::default()),
            right: Some(VerticalLine::default()),
        }
    }
}

/// Builder for [`Border`].
#[derive(Debug)]
pub struct BorderBuilder(pub Border);

impl BorderBuilder {
    /// Sets the top border of a table.
    pub fn top(self, top: HorizontalLine) -> (r: Self)
        ensures
            r.0 == (Border { top: Some(top), ..self.0 }),
    {
        BorderBuilder(Border { top: Some(top), ..self.0 })
    }

    /// Sets the bottom border of a table.
    pub fn bottom(self, bottom: HorizontalLine) -> (r: Self)
        ensures
            r.0 == (Border { bottom: Some(bottom), ..self.0 }),
    {
        BorderBuilder(Border { bottom: Some(bottom), ..self.0 })
    }

    /// Sets the left border of a table.
    pub fn left(self, left: VerticalLine) -> (r: Self)
        ensures
            r.0 == (Border { left: Some(left), ..self.0 }),
    {
        BorderBuilder(Border { left: Some(left), ..self.0 })
    }

    /// Sets the right border of a table.
    pub fn right(self, right: VerticalLine) -> (r: Self)
        ensures
            r.0 == (Border { right: Some(right), ..self.0 }),
    {
        BorderBuilder(Border { right: Some(right), ..self.0 })
    }

    /// Builds the [`Border`].
    pub fn build(self) -> (r: Border)
        ensures
            r == self.0,
    {
        self.0
    }
}

/// The inner separators of a table; an absent descriptor is omitted
/// entirely.
#[derive(Debug, Clone, Copy, PartialEq, Eq, Structural)]
pub struct Separator {
    /// Separator between columns, if any.
    pub column: Option<VerticalLine>,
    /// Separator between rows, if any.
    pub row: Option<HorizontalLine>,
    /// Separator drawn after the first row instead of the row separator, if
    /// any.
    pub title: Option<HorizontalLine>,
}

/// The separator every table starts from: column and row separators with
/// default glyphs and no title separator.
pub open spec fn spec_default_separator() -> Separator {
    Separator {
        column: Some(VerticalLine { filler: '|' }),
        row: Some(HorizontalLine { left_end: '+', right_end: '+', junction: '+', filler: '-' }),
        title: None,
    }
}

impl Separator {
    /// Creates a new builder for [`Separator`], starting with no separators.
    pub fn builder() -> (r: SeparatorBuilder)
        ensures
            r.0 == (Separator { column: None, row: None, title: None }),
    {
        SeparatorBuilder(Separator { column: None, row: None, title: None })
    }
}

impl Default for Separator {
    /// The default separator has column and row separators and no title
    /// separator.
    fn default() -> (r: Self)
        ensures
            r == spec_default_separator(),
    {
        Separator {
            column: Some(VerticalLine::default()),
            row: Some(HorizontalLine::default()),
            title: None,
        }
    }
}

/// Builder for [`Separator`].
#[derive(Debug)]
pub struct SeparatorBuilder(pub Separator);

impl SeparatorBuilder {
    /// Sets the column separator of a table.
    pub fn column(self, column: Option<VerticalLine>) -> (r: Self)
        ensures
            r.0 == (Separator { column, ..self.0 }),
    {
        SeparatorBuilder(Separator { column, ..self.0 })
    }

    /// Sets the row separator of a table.
    pub fn row(self, row: Option<HorizontalLine>) -> (r: Self)
        ensures
            r.0 == (Separator { row, ..self.0 }),
    {
        SeparatorBuilder(Separator { row, ..self.0 })
    }

    /// Sets the title separator of a table.
    ///
    /// When the title separator is absent, the row separator is drawn in its
    /// place after the first row.
    pub fn title(self, title: Option<HorizontalLine>) -> (r: Self)
        ensures
            r.0 == (Separator { title, ..self.0 }),
    {
        SeparatorBuilder(Separator { title, ..self.0 })
    }

    /// Builds the [`Separator`].
    pub fn build(self) -> (r: Separator)
        ensures
            r == self.0,
    {
        self.0
    }
}

/// Configuration of a table's format: its frame and the style the frame is
/// drawn with.
#[derive(Debug, Clone, Copy, PartialEq, Eq, Structural)]
pub struct TableFormat {
    /// The outer borders.
    pub border: Border,
    /// The inner separators.
    pub separator: Separator,
    /// Foreground color of borders and separators, if any.
    pub foreground_color: Option<Color>,
    /// Background color of borders and separators, if any.
    pub background_color: Option<Color>,
    /// Whether borders and separators are bold.
    pub bold: bool,
}

/// The format every table starts from: default border and separator, no
/// colors, not bold.
pub open spec fn spec_default_table_format() -> TableFormat {
    TableFormat {
        border: spec_default_border(),
        separator: spec_default_separator(),
        foreground_color: None,
        background_color: None,
        bold: false,
    }
}

/// The composite style a table's format gives to borders, separators and the
/// fixed spaces around cell contents.
pub open spec fn spec_table_style(f: TableFormat) -> TextStyle {
    TextStyle {
        foreground_color: f.foreground_color,
        background_color: f.background_color,
        bold: f.bold,
        underline: false,
    }
}

impl Default for TableFormat {
    /// The default format: default border and separators, no colors, not
    /// bold.
    fn default() -> (r: Self)
        ensures
            r == spec_default_table_format(),
    {
        TableFormat {
            border: Border::default(),
            separator: Separator::default(),
            foreground_color: None,
            background_color: None,
            bold: false,
        }
    }
}

impl TableFormat {
    /// Creates a new builder for [`TableFormat`].
    pub fn builder() -> (r: TableFormatBuilder)
        ensures
            r.0 == spec_default_table_format(),
    {
        TableFormatBuilder(TableFormat::default())
    }

    /// The style applied to the borders and separators of the table.
    pub fn text_style(&self) -> (r: TextStyle)
        ensures
            r == spec_table_style(*self),
    {
        TextStyle {
            foreground_color: self.foreground_color,
            background_color: self.background_color,
            bold: self.bold,
            underline: false,
        }
    }
}

/// Builder for [`TableFormat`].
#[derive(Debug)]
pub struct TableFormatBuilder(pub TableFormat);

impl TableFormatBuilder {
    /// Sets the border of a table.
    pub fn border(self, border: Border) -> (r: Self)
        ensures
            r.0 == (TableFormat { border, ..self.0 }),
    {
        TableFormatBuilder(TableFormat { border, ..self.0 })
    }

    /// Sets the separators of a table.
    pub fn separator(self, separator: Separator) -> (r: Self)
        ensures
            r.0 == (TableFormat { separator, ..self.0 }),
    {
        TableFormatBuilder(TableFormat { separator, ..self.0 })
    }

    /// Sets the foreground color of borders and separators of a table.
    pub fn foreground_color(self, foreground_color: Option<Color>) -> (r: Self)
        ensures
            r.0 == (TableFormat { foreground_color, ..self.0 }),
    {
        TableFormatBuilder(TableFormat { foreground_color, ..self.0 })
    }

    /// Sets the background color of borders and separators of a table.
    pub fn background_color(self, background_color: Option<Color>) -> (r: Self)
        ensures
            r.0 == (TableFormat { background_color, ..self.0 }),
    {
        TableFormatBuilder(TableFormat { background_color, ..self.0 })
    }

    /// Sets the boldness of borders and separators of a table.
    pub fn bold(self, bold: bool) -> (r: Self)
        ensures
            r.0 == (TableFormat { bold, ..self.0 }),
    {
        TableFormatBuilder(TableFormat { bold, ..self.0 })
    }

    /// Builds the [`TableFormat`].
    pub fn build(self) -> (r: TableFormat)
        ensures
            r == self.0,
    {
        self.0
    }
}

} // verus!
