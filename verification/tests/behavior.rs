use tabular::Column;
use tabular::Justification;
use tabular::Table;
use tabular::TableError;

fn table_of(columns: Vec<Column>, rows: Vec<Vec<&str>>) -> Table {
    let mut table = Table::new(columns).unwrap();
    for row in rows {
        table
            .add_row(row.into_iter().map(|v| v.to_string()).collect())
            .unwrap();
    }
    table
}

#[test]
fn two_left_columns_align() {
    let table = table_of(
        vec![
            Column::new("Name", 0, Justification::Left).unwrap(),
            Column::new("Age", 0, Justification::Left).unwrap(),
        ],
        vec![vec!["John Doe", "30"], vec!["Jane Smith", "25"]],
    );
    assert_eq!(
        table.render(),
        "Name       Age\n---------- ---\nJohn Doe   30 \nJane Smith 25 \n"
    );
}

#[test]
fn long_value_gets_ellipsis() {
    let table = table_of(
        vec![Column::new("Name", 10, Justification::Left).unwrap()],
        vec![vec!["Extremely Long Name"]],
    );
    assert_eq!(table.render(), "Name      \n----------\nExtreme...\n");
}

#[test]
fn ellipsis_line_has_exact_width() {
    let col = Column::new("Name", 10, Justification::Left).unwrap();
    let lines = col.format_cell("Extremely Long Name").unwrap();
    assert_eq!(lines.len(), 1);
    assert_eq!(lines[0], "Extreme...");
    assert_eq!(lines[0].chars().count(), 10);
    assert!(lines[0].ends_with("..."));
}

#[test]
fn zero_truncation_grows_to_longest_line() {
    let table = table_of(
        vec![Column::new("Description", 0, Justification::Right).unwrap()],
        vec![vec!["Hello"], vec!["ABCDEFGHIJKLMNOPQRST"]],
    );
    assert_eq!(
        table.render(),
        "         Description\n--------------------\n               Hello\nABCDEFGHIJKLMNOPQRST\n"
    );
}

#[test]
fn zero_truncation_never_shortens() {
    let table = table_of(
        vec![Column::new("D", 0, Justification::Left).unwrap()],
        vec![vec!["a value kept whole"]],
    );
    assert!(table.render().contains("a value kept whole"));
}

#[test]
fn effective_width_covers_name_and_ellipsis() {
    let narrow = Column::new("Wide Header", 3, Justification::Left).unwrap();
    assert_eq!(narrow.truncate_at, 11);
    let tiny = Column::new("ab", 1, Justification::Left).unwrap();
    assert_eq!(tiny.truncate_at, 3);
    let wide = Column::new("ab", 7, Justification::Left).unwrap();
    assert_eq!(wide.truncate_at, 7);
    let off = Column::new("Wide Header", 0, Justification::Left).unwrap();
    assert_eq!(off.truncate_at, 0);
}

#[test]
fn header_never_truncated() {
    let table = table_of(
        vec![Column::new("Wide Header", 3, Justification::Left).unwrap()],
        vec![],
    );
    assert_eq!(table.render(), "Wide Header\n-----------\n");
}

#[test]
fn padding_matches_justification() {
    let left = Column::new("Num", 0, Justification::Left).unwrap();
    let lines = left.format_cell("7").unwrap();
    assert_eq!(lines[0], "7  ");
    let mut right = Column::new("Num", 0, Justification::Left).unwrap();
    right.set_justification(Justification::Right);
    let lines = right.format_cell("7").unwrap();
    assert_eq!(lines[0], "  7");
}

#[test]
fn unicode_counts_scalar_values() {
    let table = table_of(
        vec![Column::new("W", 0, Justification::Left).unwrap()],
        vec![vec!["héllo"], vec!["ab"]],
    );
    assert_eq!(table.render(), "W    \n-----\nhéllo\nab   \n");
}

#[test]
fn multiline_row_aligns_columns() {
    let table = table_of(
        vec![
            Column::new("A", 0, Justification::Left).unwrap(),
            Column::new("B", 0, Justification::Left).unwrap(),
            Column::new("C", 0, Justification::Left).unwrap(),
        ],
        vec![vec!["x", "one\ntwo", "y"]],
    );
    assert_eq!(table.render(), "A B   C\n- --- -\nx one y\n  two  \n");
}

#[test]
fn multiline_three_against_one() {
    let table = table_of(
        vec![
            Column::new("A", 0, Justification::Left).unwrap(),
            Column::new("B", 0, Justification::Left).unwrap(),
        ],
        vec![vec!["p\nq\nr", "solo"]],
    );
    assert_eq!(
        table.render(),
        "A B   \n- ----\np solo\nq     \nr     \n"
    );
}

#[test]
fn render_is_idempotent() {
    let table = table_of(
        vec![
            Column::new("Name", 5, Justification::Left).unwrap(),
            Column::new("Age", 0, Justification::Right).unwrap(),
        ],
        vec![vec!["John Doe", "30"], vec!["Jane\nSmith", "25"]],
    );
    assert_eq!(table.render(), table.render());
}

#[test]
fn construction_failures() {
    assert_eq!(Table::new(vec![]).unwrap_err(), TableError::NoColumns);
    assert_eq!(
        Column::new("", 0, Justification::Left).unwrap_err(),
        TableError::InvalidName
    );
    assert_eq!(
        Column::new("X", 6000, Justification::Left).unwrap_err(),
        TableError::TruncationTooWide
    );
}

#[test]
fn column_count_mismatch_leaves_table_unchanged() {
    let mut table = table_of(
        vec![
            Column::new("A", 0, Justification::Left).unwrap(),
            Column::new("B", 0, Justification::Left).unwrap(),
        ],
        vec![vec!["1", "2"]],
    );
    let before = table.render();
    assert_eq!(
        table.add_row(vec!["only one".to_string()]).unwrap_err(),
        TableError::ColumnCountMismatch
    );
    assert_eq!(table.rows.len(), 1);
    assert_eq!(table.render(), before);
}

#[test]
fn oversized_cell_rejects_whole_row() {
    let mut table = table_of(
        vec![
            Column::new("A", 0, Justification::Left).unwrap(),
            Column::new("B", 0, Justification::Left).unwrap(),
        ],
        vec![vec!["1", "2"]],
    );
    let before = table.render();
    let long_cell = "\n".repeat(5000);
    assert_eq!(long_cell.split('\n').count(), 5001);
    assert_eq!(
        table
            .add_row(vec!["a widening value".to_string(), long_cell])
            .unwrap_err(),
        TableError::TooManyLines
    );
    assert_eq!(table.rows.len(), 1);
    assert_eq!(table.columns[0].max_length, 1);
    assert_eq!(table.render(), before);
}

#[test]
fn cell_at_line_ceiling_is_accepted() {
    let mut table = table_of(
        vec![Column::new("A", 0, Justification::Left).unwrap()],
        vec![],
    );
    let cell = "\n".repeat(4999);
    assert_eq!(cell.split('\n').count(), 5000);
    table.add_row(vec![cell]).unwrap();
    assert_eq!(table.rows.len(), 1);
}

#[test]
fn error_messages_are_stable() {
    assert_eq!(
        TableError::TooManyLines.message(),
        "cell content exceeds the maximum line count"
    );
    assert_eq!(
        TableError::NoColumns.message(),
        "table must have at least one column"
    );
}
