//! Style value objects: colors, the color-emission preference, the
//! composite text style applied to a span of output, and one styled text
//! segment of a rendered line.

use vstd::prelude::*;

verus! {

/// A terminal color.
#[derive(Debug, Clone, Copy, PartialEq, Eq, Structural)]
pub enum Color {
    /// Black.
    Black,
    /// Blue.
    Blue,
    /// Green.
    Green,
    /// Red.
    Red,
    /// Cyan.
    Cyan,
    /// Magenta.
    Magenta,
    /// Yellow.
    Yellow,
    /// White.
    White,
    /// A color from the 256-color palette.
    Ansi256(u8),
    /// A 24-bit color.
    Rgb(u8, u8, u8),
}

/// When color codes should be emitted by a sink; the core only carries the
/// preference through to the caller.
#[derive(Debug, Clone, Copy, PartialEq, Eq, Structural)]
pub enum ColorChoice {
    /// Always emit colors.
    Always,
    /// Always emit ANSI color codes.
    AlwaysAnsi,
    /// Emit colors when the sink believes the terminal supports them.
    Auto,
    /// Never emit colors.
    Never,
}

/// The composite style of a span of text: each attribute is independently
/// optional or off.
#[derive(Debug, Clone, Copy, PartialEq, Eq, Structural)]
pub struct TextStyle {
    /// Foreground color, if any.
    pub foreground_color: Option<Color>,
    /// Background color, if any.
    pub background_color: Option<Color>,
    /// Whether the span is bold.
    pub bold: bool,
    /// Whether the span is underlined.
    pub underline: bool,
}

impl TextStyle {
    /// The style with no attribute set.
    pub fn plain() -> (r: TextStyle)
        ensures
            r == (TextStyle {
                foreground_color: None,
                background_color: None,
                bold: false,
                underline: false,
            }),
    {
        TextStyle { foreground_color: None, background_color: None, bold: false, underline: false }
    }
}

/// One styled span of a rendered output line.
#[derive(Debug, Clone)]
pub struct TextSegment {
    /// The characters of the span.
    pub text: String,
    /// The style the span is drawn with.
    pub style: TextStyle,
}

/// Mathematical value of a [`TextSegment`]: its characters and its style.
pub struct TextSegmentV {
    /// The characters of the span.
    pub text: Seq<char>,
    /// The style the span is drawn with.
    pub style: TextStyle,
}

impl View for TextSegment {
    type V = TextSegmentV;

    open spec fn view(&self) -> TextSegmentV {
        TextSegmentV { text: self.text@, style: self.style }
    }
}

impl DeepView for TextSegment {
    type V = TextSegmentV;

    open spec fn deep_view(&self) -> TextSegmentV {
        self.view()
    }
}

impl TextSegment {
    /// Builds a segment from its text and style.
    pub fn new(text: String, style: TextStyle) -> (r: TextSegment)
        ensures
            r@.text == text@,
            r@.style == style,
    {
        TextSegment { text, style }
    }
}

} // verus!
