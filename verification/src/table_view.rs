//! What the table of a CSV document shows.

use vstd::prelude::*;

use crate::csv_preview::{strings_view, CsvPreview, CsvPreviewV};
use crate::text::{decimal, push_decimal};

verus! {

/// What stands in place of the table: an error, or that there is nothing.
pub open spec fn message_spec(p: CsvPreviewV) -> Option<Seq<char>> {
    match p.error {
        Some(e) => Some(e),
        None => if p.rows.len() == 0 || p.column_count == 0 {
            Some("This CSV file is empty."@)
        } else {
            None
        },
    }
}

/// The heading of a column: the first row has it; a column without one is
/// numbered, from 1 on.
pub open spec fn heading_spec(p: CsvPreviewV, column: int) -> Seq<char> {
    if p.rows.len() > 0 && column < p.rows[0].len() && p.rows[0][column].len() > 0 {
        p.rows[0][column]
    } else {
        "Column "@ + decimal((column + 1) as nat)
    }
}

/// A cell of a row; a row that ends before it has an empty one.
pub open spec fn cell_spec(p: CsvPreviewV, row: int, column: int) -> Seq<char> {
    if 0 <= row < p.rows.len() && column < p.rows[row].len() {
        p.rows[row][column]
    } else {
        ""@
    }
}

/// How many rows stand below the headings.
pub open spec fn data_rows_spec(p: CsvPreviewV) -> nat {
    if p.rows.len() == 0 { 0 } else { (p.rows.len() - 1) as nat }
}

/// What stands below a table that is not shown whole.
pub open spec fn notice_spec(p: CsvPreviewV) -> Option<Seq<char>> {
    if p.truncated {
        Some(
            "Preview reached a safety limit (50000 rows, 256 columns, 1000000 cells, or 16 MiB of displayed text)."@,
        )
    } else {
        None
    }
}

impl CsvPreview {
    /// What stands in place of the table, if it cannot be shown.
    pub fn message(&self) -> (r: Option<String>)
        ensures
            crate::buffer::opt_text(r) == message_spec(self@),
    {
        match &self.error {
            Some(e) => Some(e.clone()),
            None => {
                if self.rows.len() == 0 || self.column_count == 0 {
                    Some("This CSV file is empty.".to_owned())
                } else {
                    None
                }
            },
        }
    }

    /// The heading of a column.
    pub fn heading(&self, column: usize) -> (r: String)
        requires
            column < usize::MAX,
        ensures
            r@ == heading_spec(self@, column as int),
    {
        if self.rows.len() > 0 && column < self.rows[0].len() {
            assert(self@.rows[0] == strings_view(self.rows@[0]@));
            assert(self@.rows[0][column as int] == self.rows@[0]@[column as int]@);
            if !self.rows[0][column].as_str().is_empty() {
                return self.rows[0][column].clone();
            }
        }
        proof {
            if self.rows.len() > 0 {
                assert(self@.rows[0] == strings_view(self.rows@[0]@));
            }
        }
        let mut out: String = "Column ".to_owned();
        push_decimal(&mut out, (column + 1) as u64);
        out
    }

    /// A cell; the headings are row 0.
    pub fn cell(&self, row: usize, column: usize) -> (r: &str)
        ensures
            r@ == cell_spec(self@, row as int, column as int),
    {
        if row < self.rows.len() {
            assert(self@.rows[row as int] == strings_view(self.rows@[row as int]@));
            if column < self.rows[row].len() {
                assert(self@.rows[row as int][column as int]
                    == self.rows@[row as int]@[column as int]@);
                return self.rows[row][column].as_str();
            }
        }
        ""
    }

    /// How many rows stand below the headings.
    pub fn data_rows(&self) -> (r: usize)
        ensures
            r == data_rows_spec(self@),
    {
        self.rows.len().saturating_sub(1)
    }

    /// What stands below the table.
    pub fn notice(&self) -> (r: Option<&'static str>)
        ensures
            match r {
                Some(m) => notice_spec(self@) == Some(m@),
                None => notice_spec(self@) is None,
            },
    {
        if self.truncated {
            Some(
                "Preview reached a safety limit (50000 rows, 256 columns, 1000000 cells, or 16 MiB of displayed text).",
            )
        } else {
            None
        }
    }
}

} // verus!
