use cli_table::format::{CellFormat, Justify, Padding};
use cli_table::{Cell, CellDimension, Row, TableStruct};

fn default_cell(content: &str) -> Cell {
    Cell::new(content, CellFormat::builder().build())
}

#[test]
fn test_into_row() {
    let row = Row::new(vec![default_cell("Hello"), default_cell("World")]);
    assert_eq!(2, row.columns());
}

#[test]
fn test_into_row_with_style() {
    let row = Row::new(vec![
        Cell::new("Hello", CellFormat::builder().bold(true).build()),
        default_cell("World"),
    ]);
    assert_eq!(2, row.columns());
}

#[test]
fn test_row_from_str_arr() {
    let table: TableStruct = TableStruct::new(
        vec![
            Row::new(vec![default_cell("Hello"), default_cell("World")]),
            Row::new(vec![default_cell("Scooby"), default_cell("Doo")]),
        ],
        cli_table::format::TableFormat::builder().build(),
    )
    .unwrap();
    assert_eq!(2, table.rows().len());
    assert_eq!(2, table.rows()[0].columns());
    assert_eq!(2, table.rows()[1].columns());
}

#[test]
fn crlf_breaks_lines_and_strips_the_carriage_return() {
    let cell = default_cell("a\r\nb");
    let mut probe = default_cell("a\r\nb");
    let d = probe.dimension();
    assert_eq!(CellDimension { width: 1, height: 2 }, d);
    let lines = cell.render(d).unwrap();
    assert_eq!(vec!["a", "b"], lines);
}

#[test]
fn lone_carriage_return_stays_in_the_line() {
    let mut cell = default_cell("a\rb");
    let d = cell.dimension();
    // the carriage return is kept (it measures zero columns)
    assert_eq!(CellDimension { width: 2, height: 1 }, d);
    let lines = cell.render(d).unwrap();
    assert_eq!(vec!["a\rb"], lines);
}

#[test]
fn trailing_line_break_opens_no_empty_line() {
    let mut unix = default_cell("a\n");
    assert_eq!(CellDimension { width: 1, height: 1 }, unix.dimension());
    let mut dos = default_cell("a\r\n");
    assert_eq!(CellDimension { width: 1, height: 1 }, dos.dimension());
    let lines = dos.render(CellDimension { width: 1, height: 1 }).unwrap();
    assert_eq!(vec!["a"], lines);
}

#[test]
fn row_dimension_takes_cell_maxima() {
    let mut row = Row::new(vec![default_cell("aaa"), default_cell("b\nb\nb")]);
    let d = row.dimension();
    assert_eq!(vec![3, 1], d.widths);
    assert_eq!(3, d.height);
}

#[test]
fn cell_dimension_counts_lines_and_padding() {
    let padding = Padding::builder().left(1).right(2).top(1).bottom(0).build();
    let mut cell = Cell::new("ab\ncdef", CellFormat::builder().padding(padding).build());
    let d = cell.dimension();
    assert_eq!(CellDimension { width: 7, height: 3 }, d);
}

#[test]
fn cell_render_right_justify_with_padding() {
    let padding = Padding::builder().right(2).build();
    let cell = Cell::new(
        "10",
        CellFormat::builder().justify(Justify::Right).padding(padding).build(),
    );
    let lines = cell.render(CellDimension { width: 6, height: 1 }).unwrap();
    assert_eq!(1, lines.len());
    assert_eq!("  10  ", lines[0]);
}

#[test]
fn cell_render_center_justify() {
    let cell = Cell::new("ab", CellFormat::builder().justify(Justify::Center).build());
    let lines = cell.render(CellDimension { width: 5, height: 1 }).unwrap();
    assert_eq!(" ab  ", lines[0]);
}

#[test]
fn cell_render_center_align_multiline() {
    let cell = Cell::new(
        "a\nbb\nccc",
        CellFormat::builder().align(cli_table::format::Align::Center).build(),
    );
    let mut probe = Cell::new("a\nbb\nccc", CellFormat::builder().build());
    let d = probe.dimension();
    assert_eq!(CellDimension { width: 3, height: 3 }, d);
    let lines = cell.render(CellDimension { width: 5, height: 5 }).unwrap();
    assert_eq!(
        vec!["     ", "a    ", "bb   ", "ccc  ", "     "],
        lines
    );
}

#[test]
fn cell_render_bottom_align() {
    let cell = Cell::new(
        "x",
        CellFormat::builder().align(cli_table::format::Align::Bottom).build(),
    );
    let lines = cell.render(CellDimension { width: 1, height: 3 }).unwrap();
    assert_eq!(vec![" ", " ", "x"], lines);
}

#[test]
fn cell_render_fails_when_space_is_short() {
    let cell = Cell::new("hello", CellFormat::builder().build());
    assert!(cell.render(CellDimension { width: 4, height: 1 }).is_none());
    assert!(cell.render(CellDimension { width: 5, height: 0 }).is_none());
    assert!(cell.render(CellDimension { width: 5, height: 1 }).is_some());
}

#[test]
fn row_render_reports_cell_styles() {
    let row = Row::new(vec![
        Cell::new("a", CellFormat::builder().bold(true).build()),
        Cell::new("b", CellFormat::builder().underline(true).build()),
    ]);
    let avail = cli_table::RowDimension { widths: vec![1, 1], height: 1 };
    let grid = row.render(&avail).unwrap();
    assert_eq!(1, grid.len());
    assert_eq!(2, grid[0].len());
    assert_eq!("a", grid[0][0].text);
    assert!(grid[0][0].style.bold);
    assert!(!grid[0][0].style.underline);
    assert_eq!("b", grid[0][1].text);
    assert!(grid[0][1].style.underline);
}

#[test]
fn transpose_swaps_axes() {
    let v = vec![vec![1, 2], vec![3, 4], vec![5, 6]];
    let t = cli_table::transpose(v);
    assert_eq!(vec![vec![1, 3, 5], vec![2, 4, 6]], t);
}

#[test]
fn transpose_hands_back_empty_grids() {
    let v: Vec<Vec<u8>> = Vec::new();
    assert_eq!(0, cli_table::transpose(v).len());
    let v2: Vec<Vec<u8>> = vec![vec![], vec![]];
    assert_eq!(2, cli_table::transpose(v2).len());
}
