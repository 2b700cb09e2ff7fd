//! Title rows for tables built from record types.

use vstd::prelude::*;

use crate::error::Error;
use crate::format::table::TableFormat;
use crate::row::Row;
use crate::style::ColorChoice;
use crate::table::{consistent_columns, TableStruct, TableV};

verus! {

/// A type that has a title row: the row of column headings shown above
/// rows built from its values.
pub trait Title {
    /// Returns the title row of the type.
    fn title() -> Row;
}

/// Builds a table whose first row is the given title row, followed by the
/// data rows.  Fails with [`Error::MismatchedColumns`] exactly when the
/// title and the data rows do not all have the same column count.
pub fn with_title(title: Row, rows: Vec<Row>, format: TableFormat) -> (r: Result<
    TableStruct,
    Error,
>)
    ensures
        r is Ok <==> consistent_columns(seq![title@] + rows.deep_view()),
        r is Ok ==> r->Ok_0@ == (TableV {
            rows: seq![title@] + rows.deep_view(),
            format,
            color_choice: ColorChoice::Always,
            cache: None,
        }),
        r is Err ==> r->Err_0 == Error::MismatchedColumns,
{
    let ghost title_v = title@;
    let ghost rows_v = rows.deep_view();
    let mut all: Vec<Row> = Vec::new();
    all.push(title);
    let mut rest = rows;
    all.append(&mut rest);
    proof {
        assert(all.deep_view() =~= seq![title_v] + rows_v);
    }
    TableStruct::new(all, format)
}

} // verus!
