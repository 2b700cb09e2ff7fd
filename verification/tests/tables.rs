use cli_table::format::{
    Border, CellFormat, HorizontalLine, Separator, TableFormat, VerticalLine,
};
use cli_table::{Cell, Error, Row, TableStruct};

fn cell(content: &str) -> Cell {
    Cell::new(content, CellFormat::builder().build())
}

fn row(contents: &[&str]) -> Row {
    let mut cells = Vec::new();
    for c in contents {
        cells.push(cell(c));
    }
    Row::new(cells)
}

fn default_table(rows: Vec<Row>) -> TableStruct {
    TableStruct::new(rows, TableFormat::builder().build()).unwrap()
}

#[test]
fn construction_accepts_equal_column_counts() {
    let t = TableStruct::new(
        vec![row(&["a", "b"]), row(&["c", "d"]), row(&["e", "f"])],
        TableFormat::builder().build(),
    );
    assert!(t.is_ok());
}

#[test]
fn construction_rejects_mismatched_columns() {
    let t = TableStruct::new(
        vec![row(&["a", "b"]), row(&["c", "d", "e"])],
        TableFormat::builder().build(),
    );
    assert!(matches!(t, Err(Error::MismatchedColumns)));
}

#[test]
fn construction_accepts_single_row() {
    let t = TableStruct::new(vec![row(&["a", "b", "c"])], TableFormat::builder().build());
    assert!(t.is_ok());
}

#[test]
fn error_message_names_the_mismatch() {
    assert_eq!(
        "All rows in the table should have same number of cells/columns",
        Error::MismatchedColumns.message()
    );
}

#[test]
fn table_size_error_keeps_its_message() {
    let e = cli_table::TableSizeError::new("table too small");
    assert_eq!("table too small", e.message());
}

#[test]
fn dimension_reconciles_column_widths() {
    let mut t = default_table(vec![row(&["aaa", "b"]), row(&["c", "dddd"])]);
    let d = t.dimension();
    assert_eq!(vec![3, 4], d.widths);
    assert_eq!(vec![1, 1], d.heights);
}

#[test]
fn dimension_is_idempotent() {
    let mut t = default_table(vec![row(&["aaa", "b"]), row(&["c", "dddd"])]);
    let first = t.dimension();
    let second = t.dimension();
    assert_eq!(first, second);
}

#[test]
fn dimension_keeps_each_rows_height() {
    let mut t = default_table(vec![row(&["a\nb", "c"]), row(&["d", "e"])]);
    let d = t.dimension();
    assert_eq!(vec![2, 1], d.heights);
}

#[test]
fn render_round_trip() {
    let t = default_table(vec![
        row(&["Name", "Age"]),
        row(&["Tom", "10"]),
        row(&["Jerry", "15"]),
    ]);
    let text = t.display().unwrap();
    let expected = "+-------+-----+\n\
                    | Name  | Age |\n\
                    +-------+-----+\n\
                    | Tom   | 10  |\n\
                    +-------+-----+\n\
                    | Jerry | 15  |\n\
                    +-------+-----+\n";
    assert_eq!(expected, text.text());
}

#[test]
fn render_uses_title_separator_after_first_row_only() {
    let separator = Separator::builder()
        .column(Some(VerticalLine::new('|')))
        .row(Some(HorizontalLine::new('+', '+', '+', '-')))
        .title(Some(HorizontalLine::new('+', '+', '+', '=')))
        .build();
    let format = TableFormat::builder()
        .border(Border::builder().build())
        .separator(separator)
        .build();
    let t = TableStruct::new(vec![row(&["a"]), row(&["b"]), row(&["c"])], format).unwrap();
    let text = t.display().unwrap();
    assert_eq!(" a \n===\n b \n---\n c \n", text.text());
}

#[test]
fn render_omits_absent_borders_and_separators() {
    let format = TableFormat::builder()
        .border(Border::builder().build())
        .separator(Separator::builder().build())
        .build();
    let t = TableStruct::new(vec![row(&["a", "b"]), row(&["c", "d"])], format).unwrap();
    let text = t.display().unwrap();
    assert_eq!(" a  b \n c  d \n", text.text());
}

#[test]
fn zero_rows_render_as_nothing() {
    let t = default_table(Vec::new());
    let lines = t.render().unwrap();
    assert_eq!(0, lines.len());
    assert_eq!("", t.display().unwrap().text());
}

#[test]
fn render_emits_table_style_on_frame_and_cell_style_on_content() {
    let format = TableFormat::builder().bold(true).build();
    let t = TableStruct::new(
        vec![Row::new(vec![Cell::new(
            "x",
            CellFormat::builder().underline(true).build(),
        )])],
        format,
    )
    .unwrap();
    let lines = t.render().unwrap();
    // first line is the top border, drawn in the table's bold style
    assert!(lines[0][0].style.bold);
    // the second line holds: left border, space, cell, space, right border
    let content = &lines[1];
    assert_eq!(5, content.len());
    assert!(content[0].style.bold);
    assert!(!content[0].style.underline);
    assert_eq!("x", content[2].text);
    assert!(content[2].style.underline);
    assert!(!content[2].style.bold);
}

#[test]
fn stale_cache_fails_render_and_reset_recovers() {
    let mut t = default_table(vec![row(&["ab"])]);
    let before = t.dimension();
    assert_eq!(vec![2], before.widths);
    assert!(t.set_cell_content(0, 0, "abcdef"));
    // the cached dimension no longer covers the content
    assert!(t.render().is_none());
    t.reset();
    let after = t.dimension();
    assert_eq!(vec![6], after.widths);
    assert_eq!("+--------+\n| abcdef |\n+--------+\n", t.display().unwrap().text());
}

#[test]
fn reset_recomputes_from_current_content() {
    let mut t = default_table(vec![row(&["ab"])]);
    let first = t.dimension();
    t.reset();
    let second = t.dimension();
    assert_eq!(first, second);
}

#[test]
fn set_cell_content_rejects_out_of_range() {
    let mut t = default_table(vec![row(&["a"])]);
    assert!(!t.set_cell_content(1, 0, "x"));
    assert!(!t.set_cell_content(0, 1, "x"));
}

#[test]
fn color_choice_is_carried_through() {
    let t = default_table(Vec::new()).color_choice(cli_table::ColorChoice::Never);
    assert_eq!(cli_table::ColorChoice::Never, t.get_color_choice());
}

#[test]
fn colorized_content_aligns_like_plain_content() {
    let t = default_table(vec![row(&["\u{1b}[31mhi\u{1b}[0m"]), row(&["four"])]);
    let text = t.display().unwrap();
    let expected = format!(
        "+------+\n| \u{1b}[31mhi\u{1b}[0m   |\n+------+\n| four |\n+------+\n"
    );
    assert_eq!(expected, text.text());
}
