//! Renders tabular data as aligned, styled text for terminal output.
//!
//! A table is built from rows of cells.  Every cell measures the display
//! width of its content (skipping ANSI escape sequences and honouring
//! wide characters), the table reconciles those measurements into uniform
//! column widths and per-row heights, and rendering produces one styled
//! text segment per drawn element, line by line, ready to be written to
//! any terminal sink.

pub mod cell;
pub mod dimension;
pub mod display;
pub mod error;
pub mod row;
pub mod title;
pub mod format;
pub mod style;
pub mod table;
pub mod text;
pub mod utils;
pub mod width;

pub use cell::Cell;
pub use dimension::{CellDimension, RowDimension, TableDimension};
pub use display::TableDisplay;
pub use error::{Error, TableSizeError};
pub use row::Row;
pub use style::{Color, ColorChoice, TextSegment, TextStyle};
pub use table::TableStruct;
pub use title::{with_title, Title};
pub use utils::transpose;
pub use width::{display_width, display_width_checked};
