use vstd::prelude::*;

verus! {

/// Everything that can go wrong while building or filling a table.
#[derive(Debug, Clone, Copy, PartialEq, Eq, Structural)]
pub enum TableError {
    /// A column was given an empty name.
    InvalidName,
    /// A requested truncation width lies above `MAX_TRUNCATE_WIDTH`.
    TruncationTooWide,
    /// A table was built from an empty column list.
    NoColumns,
    /// A row's value count differs from the table's column count.
    ColumnCountMismatch,
    /// The table already holds `MAX_TABLE_ROWS` rows.
    RowLimitExceeded,
    /// A cell splits into more than `MAX_CELL_LINES` lines.
    TooManyLines,
}

impl TableError {
    /// The wording of each failure; rendering inserts it in place of a
    /// cell that cannot be formatted.
    pub open spec fn spec_message(self) -> Seq<char> {
        match self {
            TableError::InvalidName => "column name cannot be empty"@,
            TableError::TruncationTooWide => "truncation width exceeds the maximum allowed"@,
            TableError::NoColumns => "table must have at least one column"@,
            TableError::ColumnCountMismatch => "row length does not match the column count"@,
            TableError::RowLimitExceeded => "table is already at its maximum row count"@,
            TableError::TooManyLines => "cell content exceeds the maximum line count"@,
        }
    }

    /// A human-readable description of the failure.
    pub fn message(&self) -> (r: String)
        ensures
            r@ == self.spec_message(),
    {
        match self {
            TableError::InvalidName => String::from_str("column name cannot be empty"),
            TableError::TruncationTooWide => String::from_str(
                "truncation width exceeds the maximum allowed",
            ),
            TableError::NoColumns => String::from_str("table must have at least one column"),
            TableError::ColumnCountMismatch => String::from_str(
                "row length does not match the column count",
            ),
            TableError::RowLimitExceeded => String::from_str(
                "table is already at its maximum row count",
            ),
            TableError::TooManyLines => String::from_str("cell content exceeds the maximum line count"),
        }
    }
}

} // verus!
