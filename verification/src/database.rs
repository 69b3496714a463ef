//! The answer of a database to one statement, as the cells of a table.

use vstd::prelude::*;
use crate::decimal::{decimal, decimal_string};

verus! {

/// A value as a database hands it out.
pub enum SqlValue {
    /// No value.
    Null,
    /// A whole number.
    Integer(i64),
    /// A number with a fraction, in the notation in which it is to be
    /// shown.
    Real(String),
    /// A text.
    Text(String),
    /// Bytes, which are not shown.
    Blob,
}

/// What a cell is: two marks and the text to show.
pub struct CellView {
    pub is_null: bool,
    pub is_blob: bool,
    pub value: Seq<char>,
}

/// One cell of a result table.
pub struct Cell {
    pub is_null: bool,
    pub is_blob: bool,
    pub value: String,
}

impl View for Cell {
    type V = CellView;

    open spec fn view(&self) -> CellView {
        CellView { is_null: self.is_null, is_blob: self.is_blob, value: self.value@ }
    }
}

impl SqlValue {
    /// The text that shows this value: `(NULL)` and `(BLOB)` for what
    /// has none, a text as it is, an integer in decimal notation.
    pub open spec fn shown(self) -> Seq<char> {
        match self {
            SqlValue::Null => "(NULL)"@,
            SqlValue::Blob => "(BLOB)"@,
            SqlValue::Text(text) => text@,
            SqlValue::Real(text) => text@,
            SqlValue::Integer(number) => decimal(number as int),
        }
    }

    /// The cell that shows this value.
    pub open spec fn cell(self) -> CellView {
        CellView { is_null: self is Null, is_blob: self is Blob, value: self.shown() }
    }
}

/// The cells that show `values`, one for one.
pub open spec fn cells(values: Seq<SqlValue>) -> Seq<CellView> {
    values.map_values(|value: SqlValue| value.cell())
}

/// The cells of `row`.
pub open spec fn row_view(row: Seq<Cell>) -> Seq<CellView> {
    row.map_values(|cell: Cell| cell@)
}

impl Cell {
    /// The cell that shows `value`.
    pub fn from_value(value: &SqlValue) -> (cell: Cell)
        ensures
            cell@ == value.cell(),
    {
        match value {
            SqlValue::Null => Cell {
                is_null: true,
                is_blob: false,
                value: String::from_str("(NULL)"),
            },
            SqlValue::Blob => Cell {
                is_null: false,
                is_blob: true,
                value: String::from_str("(BLOB)"),
            },
            SqlValue::Text(text) => Cell { is_null: false, is_blob: false, value: text.clone() },
            SqlValue::Real(text) => Cell { is_null: false, is_blob: false, value: text.clone() },
            SqlValue::Integer(number) => Cell {
                is_null: false,
                is_blob: false,
                value: decimal_string(*number),
            },
        }
    }
}

/// The answer to one statement: the statement, the names of the
/// columns, and the rows.
pub struct QueryAnswer<'a> {
    pub sql: &'a str,
    pub headers: Vec<String>,
    pub rows: Vec<Vec<Cell>>,
}

impl<'a> QueryAnswer<'a> {
    /// The cells of one row of values.
    pub fn create_vec_row(values: &Vec<SqlValue>) -> (row: Vec<Cell>)
        ensures
            row_view(row@) == cells(values@),
    {
        let mut row: Vec<Cell> = Vec::new();
        let mut i: usize = 0;
        while i < values.len()
            invariant
                i <= values.len(),
                row_view(row@) == cells(values@.take(i as int)),
            decreases values.len() - i,
        {
            let ghost before = row@;
            let cell = Cell::from_value(&values[i]);
            row.push(cell);
            proof {
                let next = cells(values@.take(i + 1));
                assert(row_view(before).len() == i);
                assert forall|k: int| 0 <= k < i + 1 implies row_view(row@)[k] == next[k] by {
                    if k < i {
                        assert(row_view(before)[k] == cells(values@.take(i as int))[k]);
                    }
                }
                assert(row_view(row@) =~= next);
            }
            i += 1;
        }
        assert(values@.take(i as int) =~= values@);
        row
    }

    /// The answer to `sql` when the database returned `rows` under the
    /// column names `headers`.
    pub fn from_rows(sql: &'a str, headers: Vec<String>, rows: &Vec<Vec<SqlValue>>) -> (answer:
        QueryAnswer<'a>)
        ensures
            answer.sql@ == sql@,
            answer.headers == headers,
            answer.rows.len() == rows.len(),
            forall|i: int|
                0 <= i < rows.len() ==> row_view(#[trigger] answer.rows[i]@) == cells(rows[i]@),
    {
        let mut shown: Vec<Vec<Cell>> = Vec::new();
        let mut i: usize = 0;
        while i < rows.len()
            invariant
                i <= rows.len(),
                shown.len() == i,
                forall|k: int| 0 <= k < i ==> row_view(#[trigger] shown[k]@) == cells(rows[k]@),
            decreases rows.len() - i,
        {
            let row = Self::create_vec_row(&rows[i]);
            shown.push(row);
            i += 1;
        }
        QueryAnswer { sql, headers, rows: shown }
    }
}

} // verus!
