//! Renders tabular data as aligned, fixed-width text: per-column
//! truncation with an ellipsis, left or right justification, and
//! multiline cells aligned across each row.

pub mod column;
pub mod error;
pub mod table;
pub mod text;

pub use column::Column;
pub use column::Justification;
pub use column::MAX_CELL_LINES;
pub use column::MAX_TRUNCATE_WIDTH;
pub use error::TableError;
pub use table::MAX_TABLE_ROWS;
pub use table::Table;
pub use text::split_lines;
