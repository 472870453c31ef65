use vstd::prelude::*;

use crate::column::Column;
use crate::column::MAX_CELL_LINES;
use crate::column::format_line_spec;
use crate::column::lemma_padding_width;
use crate::error::TableError;
use crate::text::dashes_string;
use crate::text::lemma_max_inner_len_bound;
use crate::text::lemma_split_lines_nonempty;
use crate::text::max_inner_len;
use crate::text::repeat_char;
use crate::text::split_lines;
use crate::text::split_value;

verus! {

/// Most rows a table may hold.
pub const MAX_TABLE_ROWS: usize = 5000000;

/// An ordered list of columns and an ordered list of rows; each row holds
/// one raw string value per column.
#[derive(Debug)]
pub struct Table {
    pub columns: Vec<Column>,
    pub rows: Vec<Vec<String>>,
}

/// `col` after its running maximum has absorbed the lines of `value`.
pub open spec fn column_after_update(col: Column, value: Seq<char>) -> Column {
    (Column {
        max_length: (if max_inner_len(split_lines(value)) > col.max_length as nat {
            max_inner_len(split_lines(value))
        } else {
            col.max_length as nat
        }) as usize,
        ..col
    })
}

/// The cells of one output line joined by single spaces.
pub open spec fn join_cells(cells: Seq<Seq<char>>) -> Seq<char>
    decreases cells.len(),
{
    if cells.len() == 0 {
        Seq::empty()
    } else if cells.len() == 1 {
        cells[0]
    } else {
        join_cells(cells.drop_last()) + seq![' '] + cells.last()
    }
}

/// What the header shows for one column: the first line of the formatted
/// name or, for a name beyond the line ceiling, the failure's wording.
pub open spec fn header_cell(col: Column) -> Seq<char> {
    if split_lines(col.name@).len() > MAX_CELL_LINES {
        TableError::TooManyLines.spec_message()
    } else {
        format_line_spec(col, split_lines(col.name@)[0])
    }
}

/// The header line: every column's header cell, space-separated.
pub open spec fn header_line(cols: Seq<Column>) -> Seq<char> {
    join_cells(cols.map_values(|c: Column| header_cell(c)))
}

/// The separator line: a run of dashes per column, space-separated.
pub open spec fn separator_line(cols: Seq<Column>) -> Seq<char> {
    join_cells(cols.map_values(|c: Column| repeat_char('-', c.rendered_width())))
}

/// Each cell of `row` formatted by its column: one line list per column.
pub open spec fn formatted_row(cols: Seq<Column>, row: Seq<Seq<char>>) -> Seq<Seq<Seq<char>>> {
    Seq::new(
        cols.len(),
        |c: int| split_lines(row[c]).map_values(|l: Seq<char>| format_line_spec(cols[c], l)),
    )
}

/// Output line `l` of one row: each column's line `l`, or a blank field
/// of the column's rendered width where the column has fewer lines.
pub open spec fn row_line(cols: Seq<Column>, cells: Seq<Seq<Seq<char>>>, l: int) -> Seq<char> {
    join_cells(
        Seq::new(
            cols.len(),
            |c: int|
                if l < cells[c].len() {
                    cells[c][l]
                } else {
                    repeat_char(' ', cols[c].rendered_width())
                },
        ),
    )
}

/// The given lines concatenated, each ended by a newline.
pub open spec fn lines_text(lines: Seq<Seq<char>>) -> Seq<char>
    decreases lines.len(),
{
    if lines.len() == 0 {
        Seq::empty()
    } else {
        lines_text(lines.drop_last()) + lines.last() + seq!['\n']
    }
}

/// All output lines of one row: as many as its longest cell has lines.
pub open spec fn row_text(cols: Seq<Column>, row: Seq<Seq<char>>) -> Seq<char> {
    let cells = formatted_row(cols, row);
    lines_text(Seq::new(max_inner_len(cells), |l: int| row_line(cols, cells, l)))
}

/// The data rows' text, in insertion order.
pub open spec fn rows_text(cols: Seq<Column>, rows: Seq<Seq<Seq<char>>>) -> Seq<char>
    decreases rows.len(),
{
    if rows.len() == 0 {
        Seq::empty()
    } else {
        rows_text(cols, rows.drop_last()) + row_text(cols, rows.last())
    }
}

impl Table {
    /// Validity: at least one well-formed column; every row matches the
    /// column count; every stored cell respects the line ceiling; and
    /// every column's running maximum covers every line stored under it.
    pub open spec fn wf(&self) -> bool {
        &&& 0 < self.columns@.len()
        &&& self.rows@.len() <= MAX_TABLE_ROWS
        &&& forall|c: int| 0 <= c < self.columns@.len() ==> (#[trigger] self.columns@[c]).wf()
        &&& forall|r: int|
            0 <= r < self.rows@.len() ==> (#[trigger] self.rows@[r])@.len() == self.columns@.len()
        &&& forall|r: int, c: int|
            0 <= r < self.rows@.len() && 0 <= c < self.columns@.len() ==> split_lines(
                (#[trigger] self.rows@[r]@[c])@,
            ).len() <= MAX_CELL_LINES
        &&& forall|r: int, c: int|
            0 <= r < self.rows@.len() && 0 <= c < self.columns@.len() ==> max_inner_len(
                split_lines((#[trigger] self.rows@[r]@[c])@),
            ) <= self.columns@[c].max_length
    }

    /// The full rendered text: header line, separator line, then every
    /// row in insertion order, each output line ended by a newline.
    pub open spec fn render_spec(&self) -> Seq<char> {
        header_line(self.columns@) + seq!['\n'] + separator_line(self.columns@) + seq!['\n']
            + rows_text(self.columns@, self.rows.deep_view())
    }

    /// Builds a table over `columns`; fails exactly when the list is
    /// empty. The table starts with no rows.
    pub fn new(columns: Vec<Column>) -> (r: Result<Table, TableError>)
        requires
            forall|c: int| 0 <= c < columns@.len() ==> (#[trigger] columns@[c]).wf(),
        ensures
            match r {
                Ok(t) => {
                    &&& columns@.len() > 0
                    &&& t.columns@ == columns@
                    &&& t.rows@ == Seq::<Vec<String>>::empty()
                    &&& t.wf()
                },
                Err(e) => {
                    &&& columns@.len() == 0
                    &&& e == TableError::NoColumns
                },
            },
    {
        if columns.is_empty() {
            return Err(TableError::NoColumns);
        }
        Ok(Table { columns, rows: Vec::new() })
    }

    /// Appends one row. Every check runs before any state change, so a
    /// rejected row leaves the table exactly as it was; an accepted row
    /// is stored whole and folded into every column's running maximum.
    pub fn add_row(&mut self, row: Vec<String>) -> (r: Result<(), TableError>)
        requires
            old(self).wf(),
        ensures
            final(self).wf(),
            match r {
                Ok(()) => {
                    &&& row@.len() == old(self).columns@.len()
                    &&& old(self).rows@.len() < MAX_TABLE_ROWS
                    &&& forall|c: int|
                        0 <= c < row@.len() ==> split_lines((#[trigger] row@[c])@).len()
                            <= MAX_CELL_LINES
                    &&& final(self).rows@ == old(self).rows@.push(row)
                    &&& final(self).columns@.len() == old(self).columns@.len()
                    &&& forall|c: int|
                        0 <= c < old(self).columns@.len() ==> final(self).columns@[c]
                            == column_after_update(
                            (#[trigger] old(self).columns@[c]),
                            row@[c]@,
                        )
                },
                Err(e) => {
                    &&& *final(self) == *old(self)
                    &&& (e == TableError::ColumnCountMismatch || e == TableError::RowLimitExceeded
                        || e == TableError::TooManyLines)
                    &&& (e == TableError::ColumnCountMismatch <==> row@.len() != old(
                        self,
                    ).columns@.len())
                    &&& (e == TableError::RowLimitExceeded <==> row@.len() == old(
                        self,
                    ).columns@.len() && old(self).rows@.len() >= MAX_TABLE_ROWS)
                    &&& (e == TableError::TooManyLines <==> row@.len() == old(self).columns@.len()
                        && old(self).rows@.len() < MAX_TABLE_ROWS && exists|c: int|
                        0 <= c < row@.len() && split_lines((#[trigger] row@[c])@).len()
                            > MAX_CELL_LINES)
                },
            },
    {
        if row.len() != self.columns.len() {
            return Err(TableError::ColumnCountMismatch);
        }
        if self.rows.len() >= MAX_TABLE_ROWS {
            return Err(TableError::RowLimitExceeded);
        }
        let mut c: usize = 0;
        while c < row.len()
            invariant
                old(self).wf(),
                *self == *old(self),
                row@.len() == old(self).columns@.len(),
                old(self).rows@.len() < MAX_TABLE_ROWS,
                c <= row@.len(),
                forall|k: int|
                    0 <= k < c ==> split_lines((#[trigger] row@[k])@).len() <= MAX_CELL_LINES,
            decreases row@.len() - c,
        {
            let lines = split_value(row[c].as_str());
            if lines.len() > MAX_CELL_LINES {
                proof {
                    assert(split_lines(row@[c as int]@).len() > MAX_CELL_LINES);
                }
                return Err(TableError::TooManyLines);
            }
            c = c + 1;
        }
        let mut c: usize = 0;
        while c < row.len()
            invariant
                old(self).wf(),
                row@.len() == old(self).columns@.len(),
                old(self).rows@.len() < MAX_TABLE_ROWS,
                c <= row@.len(),
                self.rows == old(self).rows,
                self.columns@.len() == old(self).columns@.len(),
                forall|k: int|
                    0 <= k < row@.len() ==> split_lines((#[trigger] row@[k])@).len()
                        <= MAX_CELL_LINES,
                forall|k: int|
                    0 <= k < c ==> self.columns@[k] == column_after_update(
                        (#[trigger] old(self).columns@[k]),
                        row@[k]@,
                    ),
                forall|k: int|
                    0 <= k < c ==> (#[trigger] self.columns@[k]).wf(),
                forall|k: int|
                    0 <= k < c ==> (#[trigger] self.columns@[k]).max_length as nat >= max_inner_len(
                        split_lines(row@[k]@),
                    ),
                forall|k: int|
                    0 <= k < c ==> (#[trigger] self.columns@[k]).max_length >= old(
                        self,
                    ).columns@[k].max_length,
                forall|k: int|
                    c <= k < row@.len() ==> self.columns@[k] == (#[trigger] old(self).columns@[k]),
            decreases row@.len() - c,
        {
            proof {
                assert(self.columns@[c as int] == old(self).columns@[c as int]);
                assert(old(self).columns@[c as int].wf());
            }
            self.columns[c].update_max_length(row[c].as_str());
            proof {
                assert(self.columns@[c as int] =~= column_after_update(
                    old(self).columns@[c as int],
                    row@[c as int]@,
                ));
            }
            c = c + 1;
        }
        self.rows.push(row);
        proof {
            assert(self.rows@ == old(self).rows@.push(row));
            assert forall|r: int|
                0 <= r < self.rows@.len() implies (#[trigger] self.rows@[r])@.len()
                == self.columns@.len() by {
                if r < old(self).rows@.len() {
                    assert(self.rows@[r] == old(self).rows@[r]);
                    assert(old(self).rows@[r]@.len() == old(self).columns@.len());
                } else {
                    assert(self.rows@[r] == row);
                }
            }
            assert forall|r: int, cc: int|
                0 <= r < self.rows@.len() && 0 <= cc < self.columns@.len() implies split_lines(
                (#[trigger] self.rows@[r]@[cc])@,
            ).len() <= MAX_CELL_LINES by {
                if r < old(self).rows@.len() {
                    assert(self.rows@[r] == old(self).rows@[r]);
                    assert(split_lines(old(self).rows@[r]@[cc]@).len() <= MAX_CELL_LINES);
                } else {
                    assert(self.rows@[r] == row);
                }
            }
            assert forall|r: int, cc: int|
                0 <= r < self.rows@.len() && 0 <= cc < self.columns@.len() implies max_inner_len(
                split_lines((#[trigger] self.rows@[r]@[cc])@),
            ) <= self.columns@[cc].max_length by {
                if r < old(self).rows@.len() {
                    assert(self.rows@[r] == old(self).rows@[r]);
                    assert(max_inner_len(split_lines(old(self).rows@[r]@[cc]@)) <= old(
                        self,
                    ).columns@[cc].max_length);
                    assert(self.columns@[cc].max_length >= old(self).columns@[cc].max_length);
                } else {
                    assert(self.rows@[r] == row);
                    assert(self.columns@[cc].max_length as nat >= max_inner_len(
                        split_lines(row@[cc]@),
                    ));
                }
            }
        }
        Ok(())
    }

    /// Renders the header line: every column's name formatted by that
    /// column, first line only; a name beyond the line ceiling degrades
    /// to the failure's wording in that column's slot.
    fn render_header(&self) -> (r: String)
        ensures
            r@ == header_line(self.columns@),
    {
        let ghost cells = self.columns@.map_values(|c: Column| header_cell(c));
        let mut out = String::new();
        let mut c: usize = 0;
        proof {
            assert(self.columns@.subrange(0, 0).map_values(|c: Column| header_cell(c)) =~= Seq::<
                Seq<char>,
            >::empty());
        }
        while c < self.columns.len()
            invariant
                c <= self.columns@.len(),
                out@ == join_cells(
                    self.columns@.subrange(0, c as int).map_values(|c: Column| header_cell(c)),
                ),
            decreases self.columns@.len() - c,
        {
            let col = &self.columns[c];
            let cell: String = match col.format_cell(col.name.as_str()) {
                Ok(lines) => {
                    proof {
                        lemma_split_lines_nonempty(col.name@);
                    }
                    lines[0].clone()
                },
                Err(e) => e.message(),
            };
            assert(cell@ == header_cell(self.columns@[c as int]));
            if c > 0 {
                out.append(" ");
                proof {
                    reveal_strlit(" ");
                    assert(" "@ =~= seq![' ']);
                }
            }
            out.append(cell.as_str());
            proof {
                let prefix = self.columns@.subrange(0, c as int).map_values(
                    |c: Column| header_cell(c),
                );
                let next = self.columns@.subrange(0, c + 1).map_values(|c: Column| header_cell(c));
                assert(next.drop_last() =~= prefix);
                assert(next.last() == header_cell(self.columns@[c as int]));
            }
            c = c + 1;
        }
        proof {
            assert(self.columns@.subrange(0, self.columns@.len() as int) =~= self.columns@);
        }
        out
    }

    /// Renders the separator line: a run of dashes per column across its
    /// rendered width, space-separated.
    fn render_separator(&self) -> (r: String)
        ensures
            r@ == separator_line(self.columns@),
    {
        let mut out = String::new();
        let mut c: usize = 0;
        proof {
            assert(self.columns@.subrange(0, 0).map_values(
                |cc: Column| repeat_char('-', cc.rendered_width()),
            ) =~= Seq::<Seq<char>>::empty());
        }
        while c < self.columns.len()
            invariant
                c <= self.columns@.len(),
                out@ == join_cells(
                    self.columns@.subrange(0, c as int).map_values(
                        |cc: Column| repeat_char('-', cc.rendered_width()),
                    ),
                ),
            decreases self.columns@.len() - c,
        {
            let col = &self.columns[c];
            let width = if col.truncate_at > 0 {
                col.truncate_at
            } else {
                col.max_length
            };
            let cell = dashes_string(width);
            if c > 0 {
                out.append(" ");
                proof {
                    reveal_strlit(" ");
                    assert(" "@ =~= seq![' ']);
                }
            }
            out.append(cell.as_str());
            proof {
                let prefix = self.columns@.subrange(0, c as int).map_values(
                    |cc: Column| repeat_char('-', cc.rendered_width()),
                );
                let next = self.columns@.subrange(0, c + 1).map_values(
                    |cc: Column| repeat_char('-', cc.rendered_width()),
                );
                assert(next.drop_last() =~= prefix);
                assert(next.last() == repeat_char(
                    '-',
                    self.columns@[c as int].rendered_width(),
                ));
            }
            c = c + 1;
        }
        proof {
            assert(self.columns@.subrange(0, self.columns@.len() as int) =~= self.columns@);
        }
        out
    }

    /// Renders one row: each cell formatted by its column, then one
    /// output line per line index up to the row's tallest cell, shorter
    /// cells filled with blank fields.
    fn render_row(&self, row: &Vec<String>) -> (r: String)
        requires
            row@.len() == self.columns@.len(),
            self.columns@.len() > 0,
        ensures
            r@ == row_text(self.columns@, row.deep_view()),
    {
        let ghost fr = formatted_row(self.columns@, row.deep_view());
        let mut cells: Vec<Vec<String>> = Vec::new();
        let mut c: usize = 0;
        while c < self.columns.len()
            invariant
                row@.len() == self.columns@.len(),
                fr == formatted_row(self.columns@, row.deep_view()),
                c <= self.columns@.len(),
                cells@.len() == c,
                forall|k: int| 0 <= k < c ==> (#[trigger] cells@[k]).deep_view() == fr[k],
            decreases self.columns@.len() - c,
        {
            let fl = self.columns[c].format_lines(row[c].as_str());
            proof {
                assert(row.deep_view()[c as int] == row@[c as int]@);
                assert(fl.deep_view() =~= fr[c as int]);
            }
            cells.push(fl);
            c = c + 1;
        }
        let mut max_lines: usize = 0;
        let mut c: usize = 0;
        proof {
            assert(fr.subrange(0, 0) =~= Seq::<Seq<Seq<char>>>::empty());
        }
        while c < cells.len()
            invariant
                cells@.len() == fr.len(),
                forall|k: int| 0 <= k < fr.len() ==> (#[trigger] cells@[k]).deep_view() == fr[k],
                c <= fr.len(),
                max_lines as nat == max_inner_len(fr.subrange(0, c as int)),
            decreases cells@.len() - c,
        {
            let count = cells[c].len();
            if count > max_lines {
                max_lines = count;
            }
            proof {
                assert(fr.subrange(0, c + 1).drop_last() =~= fr.subrange(0, c as int));
                assert(fr.subrange(0, c + 1).last() == fr[c as int]);
                assert(cells@[c as int].deep_view().len() == cells@[c as int]@.len());
            }
            c = c + 1;
        }
        proof {
            assert(fr.subrange(0, fr.len() as int) =~= fr);
        }
        let mut out = String::new();
        let mut l: usize = 0;
        proof {
            assert(Seq::new(0, |k: int| row_line(self.columns@, fr, k))
                =~= Seq::<Seq<char>>::empty());
        }
        while l < max_lines
            invariant
                row@.len() == self.columns@.len(),
                self.columns@.len() > 0,
                fr == formatted_row(self.columns@, row.deep_view()),
                cells@.len() == fr.len(),
                forall|k: int| 0 <= k < fr.len() ==> (#[trigger] cells@[k]).deep_view() == fr[k],
                max_lines as nat == max_inner_len(fr),
                l <= max_lines,
                out@ == lines_text(Seq::new(l as nat, |k: int| row_line(self.columns@, fr, k))),
            decreases max_lines - l,
        {
            let line = self.render_row_line(&cells, Ghost(fr), l);
            out.append(line.as_str());
            out.append("\n");
            proof {
                reveal_strlit("\n");
                assert("\n"@ =~= seq!['\n']);
                let prev = Seq::new(l as nat, |k: int| row_line(self.columns@, fr, k));
                let next = Seq::new((l + 1) as nat, |k: int| row_line(self.columns@, fr, k));
                assert(next.drop_last() =~= prev);
            }
            l = l + 1;
        }
        out
    }

    /// Renders output line `l` of one row from the formatted cells: each
    /// column's line `l`, or a blank field where the column is shorter.
    fn render_row_line(&self, cells: &Vec<Vec<String>>, Ghost(fr): Ghost<Seq<Seq<Seq<char>>>>, l: usize) -> (r:
        String)
        requires
            cells@.len() == self.columns@.len(),
            forall|k: int| 0 <= k < fr.len() ==> (#[trigger] cells@[k]).deep_view() == fr[k],
            fr.len() == self.columns@.len(),
        ensures
            r@ == row_line(self.columns@, fr, l as int),
    {
        let ghost entries = Seq::new(
            self.columns@.len(),
            |c: int|
                if l < fr[c].len() {
                    fr[c][l as int]
                } else {
                    repeat_char(' ', self.columns@[c].rendered_width())
                },
        );
        let mut line = String::new();
        let mut c: usize = 0;
        proof {
            assert(entries.subrange(0, 0) =~= Seq::<Seq<char>>::empty());
        }
        while c < cells.len()
            invariant
                cells@.len() == self.columns@.len(),
                forall|k: int| 0 <= k < fr.len() ==> (#[trigger] cells@[k]).deep_view() == fr[k],
                fr.len() == self.columns@.len(),
                entries == Seq::new(
                    self.columns@.len(),
                    |cc: int|
                        if l < fr[cc].len() {
                            fr[cc][l as int]
                        } else {
                            repeat_char(' ', self.columns@[cc].rendered_width())
                        },
                ),
                c <= cells@.len(),
                line@ == join_cells(entries.subrange(0, c as int)),
            decreases cells@.len() - c,
        {
            if c > 0 {
                line.append(" ");
                proof {
                    reveal_strlit(" ");
                    assert(" "@ =~= seq![' ']);
                }
            }
            if l < cells[c].len() {
                line.append(cells[c][l].as_str());
                proof {
                    assert(cells@[c as int].deep_view()[l as int] == cells@[c as int]@[l as int]@);
                }
            } else {
                let blank = self.columns[c].format_empty();
                line.append(blank.as_str());
                proof {
                    assert(cells@[c as int].deep_view().len() == cells@[c as int]@.len());
                }
            }
            proof {
                let prefix = entries.subrange(0, c as int);
                let next = entries.subrange(0, c + 1);
                assert(next.drop_last() =~= prefix);
                assert(next.last() == entries[c as int]);
            }
            c = c + 1;
        }
        proof {
            assert(entries.subrange(0, entries.len() as int) =~= entries);
        }
        line
    }

    /// The rendered table: header, separator, then every row, each output
    /// line ended by a newline. Rendering reads the table and nothing
    /// else, so unchanged state renders to identical text.
    pub fn render(&self) -> (r: String)
        requires
            self.wf(),
        ensures
            r@ == self.render_spec(),
    {
        let mut out = self.render_header();
        out.append("\n");
        let sep = self.render_separator();
        out.append(sep.as_str());
        out.append("\n");
        proof {
            reveal_strlit("\n");
            assert("\n"@ =~= seq!['\n']);
            assert(self.rows.deep_view().subrange(0, 0) =~= Seq::<Seq<Seq<char>>>::empty());
        }
        let ghost head = header_line(self.columns@) + seq!['\n'] + separator_line(self.columns@)
            + seq!['\n'];
        assert(out@ == head);
        let mut i: usize = 0;
        while i < self.rows.len()
            invariant
                self.wf(),
                head == header_line(self.columns@) + seq!['\n'] + separator_line(self.columns@)
                    + seq!['\n'],
                i <= self.rows@.len(),
                out@ == head + rows_text(
                    self.columns@,
                    self.rows.deep_view().subrange(0, i as int),
                ),
            decreases self.rows@.len() - i,
        {
            let text = self.render_row(&self.rows[i]);
            out.append(text.as_str());
            proof {
                let dv = self.rows.deep_view();
                assert(dv[i as int] == self.rows@[i as int].deep_view());
                let prefix = dv.subrange(0, i as int);
                let next = dv.subrange(0, i + 1);
                assert(next.drop_last() =~= prefix);
                assert(next.last() == dv[i as int]);
            }
            i = i + 1;
        }
        proof {
            let dv = self.rows.deep_view();
            assert(dv.subrange(0, dv.len() as int) =~= dv);
        }
        out
    }
}

/// Law: in a well-formed table every formatted data-cell line is exactly
/// its column's rendered width, whatever the justification.
pub proof fn lemma_cell_width(t: Table, r: int, c: int, l: int)
    requires
        t.wf(),
        0 <= r < t.rows@.len(),
        0 <= c < t.columns@.len(),
        0 <= l < formatted_row(t.columns@, t.rows.deep_view()[r])[c].len(),
    ensures
        formatted_row(t.columns@, t.rows.deep_view()[r])[c][l].len()
            == t.columns@[c].rendered_width(),
{
    let row = t.rows.deep_view()[r];
    assert(row[c] == t.rows@[r]@[c]@);
    let lines = split_lines(row[c]);
    lemma_max_inner_len_bound(lines, l);
    lemma_padding_width(t.columns@[c], lines[l]);
}

} // verus!
