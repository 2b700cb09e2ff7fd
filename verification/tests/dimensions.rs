use cli_table::format::{Align, Border, CellFormat, HorizontalLine, Justify, Separator, TableFormat, VerticalLine};
use cli_table::{
    Cell, CellDimension, Row, RowDimension, TableDimension, TableDisplay, TextStyle, Title,
};

#[test]
fn row_dimension_splits_into_cell_dimensions() {
    let rd = RowDimension { widths: vec![3, 5], height: 2 };
    let cds = rd.cell_dimensions();
    assert_eq!(
        vec![
            CellDimension { width: 3, height: 2 },
            CellDimension { width: 5, height: 2 },
        ],
        cds
    );
}

#[test]
fn table_dimension_splits_into_row_dimensions() {
    let td = TableDimension { widths: vec![3, 5], heights: vec![1, 2] };
    let rds = td.row_dimensions();
    assert_eq!(2, rds.len());
    assert_eq!(vec![3, 5], rds[0].widths);
    assert_eq!(1, rds[0].height);
    assert_eq!(vec![3, 5], rds[1].widths);
    assert_eq!(2, rds[1].height);
}

#[test]
fn defaults_match_the_documented_choices() {
    assert_eq!(Justify::Left, Justify::default());
    assert_eq!(Align::Top, Align::default());
    let line = HorizontalLine::default();
    assert_eq!(HorizontalLine::new('+', '+', '+', '-'), line);
    assert_eq!(VerticalLine::new('|'), VerticalLine::default());
    let border = Border::default();
    assert_eq!(Some(line), border.top);
    assert_eq!(Some(line), border.bottom);
    let sep = Separator::default();
    assert_eq!(Some(line), sep.row);
    assert_eq!(None, sep.title);
}

#[test]
fn plain_style_has_no_attributes() {
    let style = TextStyle::plain();
    assert_eq!(None, style.foreground_color);
    assert_eq!(None, style.background_color);
    assert!(!style.bold);
    assert!(!style.underline);
}

#[test]
fn table_display_holds_its_text() {
    let d = TableDisplay::new(String::from("| a |\n"));
    assert_eq!("| a |\n", d.text());
}

struct User;

impl Title for User {
    fn title() -> Row {
        Row::new(vec![
            Cell::new("ID", CellFormat::builder().bold(true).build()),
            Cell::new("Name", CellFormat::builder().bold(true).build()),
        ])
    }
}

#[test]
fn title_row_leads_the_table() {
    let rows = vec![Row::new(vec![
        Cell::new("1", CellFormat::builder().build()),
        Cell::new("Scooby", CellFormat::builder().build()),
    ])];
    let table = cli_table::with_title(User::title(), rows, TableFormat::builder().build()).unwrap();
    let text = table.display().unwrap();
    assert_eq!(
        "+----+--------+\n| ID | Name   |\n+----+--------+\n| 1  | Scooby |\n+----+--------+\n",
        text.text()
    );
}

#[test]
fn with_title_rejects_mismatched_columns() {
    let rows = vec![Row::new(vec![Cell::new("1", CellFormat::builder().build())])];
    assert!(cli_table::with_title(User::title(), rows, TableFormat::builder().build()).is_err());
}
