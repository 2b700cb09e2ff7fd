//! Formatting configuration for tables and cells.

pub mod cell;
pub mod table;

pub use cell::{Align, CellFormat, CellFormatBuilder, Justify, Padding, PaddingBuilder};
pub use table::{
    Border, BorderBuilder, HorizontalLine, Separator, SeparatorBuilder, TableFormat,
    TableFormatBuilder, VerticalLine,
};
