use vstd::prelude::*;

use crate::error::TableError;
use crate::text::lemma_first_line_len;
use crate::text::max_inner_len;
use crate::text::repeat_char;
use crate::text::spaces_string;
use crate::text::split_lines;
use crate::text::split_value;

verus! {

/// Widest truncation width a caller may request.
pub const MAX_TRUNCATE_WIDTH: usize = 5000;

/// Most lines a single cell may hold.
pub const MAX_CELL_LINES: usize = 5000;

/// Which side of a cell the padding goes on.
#[derive(Debug, Clone, Copy, PartialEq, Eq, Structural)]
pub enum Justification {
    Left,
    Right,
}

/// Display policy for one table column: header text, truncation width,
/// justification, and the running maximum content width seen so far.
#[derive(Debug, Clone)]
#[verifier::ext_equal]
pub struct Column {
    pub name: String,
    pub truncate_at: usize,
    pub justification: Justification,
    pub max_length: usize,
}

/// The three-character ellipsis that marks a truncated line.
pub open spec fn ellipsis() -> Seq<char> {
    seq!['.', '.', '.']
}

/// `line` cut to `t` characters, ellipsis included, when it is longer
/// than a nonzero truncation width `t`; otherwise the line itself.
pub open spec fn truncated(line: Seq<char>, t: nat) -> Seq<char> {
    if t > 0 && line.len() > t {
        line.subrange(0, (if t >= 3 { t - 3 } else { 0 }) as int) + ellipsis()
    } else {
        line
    }
}

/// `line` padded with spaces to width `w`: after the text for `Left`,
/// before it for `Right`. A line at least `w` long is left as it is.
pub open spec fn padded(line: Seq<char>, w: nat, j: Justification) -> Seq<char> {
    if line.len() < w {
        match j {
            Justification::Left => line + repeat_char(' ', (w - line.len()) as nat),
            Justification::Right => repeat_char(' ', (w - line.len()) as nat) + line,
        }
    } else {
        line
    }
}

/// One line of a cell, truncated to the column's truncation width and
/// padded to its rendered width.
pub open spec fn format_line_spec(col: Column, line: Seq<char>) -> Seq<char> {
    padded(truncated(line, col.truncate_at as nat), col.rendered_width(), col.justification)
}

/// The effective truncation width for a request `t` and a name of `n`
/// characters: `max(t, 3, n)` when `t` is nonzero, else zero.
pub open spec fn effective_truncate(t: nat, n: nat) -> nat {
    if t == 0 {
        0
    } else if t >= 3 && t >= n {
        t
    } else if n >= 3 {
        n
    } else {
        3
    }
}

impl Column {
    /// Validity: the name is non-empty, `max_length` covers the name, and
    /// a nonzero truncation width leaves room for the ellipsis and the
    /// whole name.
    pub open spec fn wf(&self) -> bool {
        &&& self.name@.len() > 0
        &&& self.max_length >= self.name@.len()
        &&& self.truncate_at > 0 ==> self.truncate_at >= 3 && self.truncate_at >= self.name@.len()
    }

    /// The width every formatted line of this column is laid out to.
    pub open spec fn rendered_width(&self) -> nat {
        if self.truncate_at > 0 {
            self.truncate_at as nat
        } else {
            self.max_length as nat
        }
    }

    /// Builds a column. A nonzero requested truncation width is widened
    /// to at least 3 and at least the name's character count, so the
    /// header is never clipped and the ellipsis always fits.
    pub fn new(name: &str, truncate_at: usize, justification: Justification) -> (r: Result<
        Column,
        TableError,
    >)
        ensures
            match r {
                Ok(col) => {
                    &&& name@.len() > 0
                    &&& truncate_at <= MAX_TRUNCATE_WIDTH
                    &&& col.wf()
                    &&& col.name@ == name@
                    &&& col.justification == justification
                    &&& col.max_length == name@.len()
                    &&& col.truncate_at == effective_truncate(truncate_at as nat, name@.len())
                },
                Err(e) => {
                    &&& name@.len() == 0 || truncate_at > MAX_TRUNCATE_WIDTH
                    &&& (e == TableError::InvalidName <==> name@.len() == 0)
                    &&& (e == TableError::TruncationTooWide <==> name@.len() > 0 && truncate_at
                        > MAX_TRUNCATE_WIDTH)
                },
            },
    {
        if name.is_empty() {
            return Err(TableError::InvalidName);
        }
        if truncate_at > MAX_TRUNCATE_WIDTH {
            return Err(TableError::TruncationTooWide);
        }
        let name_len = name.unicode_len();
        let effective = if truncate_at == 0 {
            0
        } else if truncate_at >= 3 && truncate_at >= name_len {
            truncate_at
        } else if name_len >= 3 {
            name_len
        } else {
            3
        };
        Ok(
            Column {
                name: String::from_str(name),
                truncate_at: effective,
                justification,
                max_length: name_len,
            },
        )
    }

    /// Replaces the justification; every other field is untouched.
    pub fn set_justification(&mut self, j: Justification)
        ensures
            final(self).justification == j,
            final(self).name == old(self).name,
            final(self).truncate_at == old(self).truncate_at,
            final(self).max_length == old(self).max_length,
    {
        self.justification = j;
    }

    /// Raises `max_length` to the longest line of `value`; it never
    /// shrinks, so the running maximum is monotone over row ingestion.
    pub fn update_max_length(&mut self, value: &str)
        ensures
            final(self).name == old(self).name,
            final(self).truncate_at == old(self).truncate_at,
            final(self).justification == old(self).justification,
            final(self).max_length as nat == if max_inner_len(split_lines(value@)) > old(
                self,
            ).max_length as nat {
                max_inner_len(split_lines(value@))
            } else {
                old(self).max_length as nat
            },
    {
        let lines = split_value(value);
        let mut i: usize = 0;
        proof {
            assert(split_lines(value@).subrange(0, 0) =~= Seq::<Seq<char>>::empty());
        }
        while i < lines.len()
            invariant
                lines@.len() == split_lines(value@).len(),
                forall|k: int|
                    0 <= k < lines@.len() ==> (#[trigger] lines@[k])@ == split_lines(value@)[k],
                i <= lines@.len(),
                self.name == old(self).name,
                self.truncate_at == old(self).truncate_at,
                self.justification == old(self).justification,
                self.max_length as nat == if max_inner_len(
                    split_lines(value@).subrange(0, i as int),
                ) > old(self).max_length as nat {
                    max_inner_len(split_lines(value@).subrange(0, i as int))
                } else {
                    old(self).max_length as nat
                },
            decreases lines@.len() - i,
        {
            let len = lines[i].as_str().unicode_len();
            if len > self.max_length {
                self.max_length = len;
            }
            proof {
                let all = split_lines(value@);
                assert(all.subrange(0, i + 1).drop_last() =~= all.subrange(0, i as int));
                assert(all.subrange(0, i + 1).last() == all[i as int]);
            }
            i = i + 1;
        }
        proof {
            assert(split_lines(value@).subrange(0, lines@.len() as int) =~= split_lines(value@));
        }
    }

    /// Formats a whole cell: splits on newlines, then truncates and pads
    /// each line independently. Fails exactly when the cell splits into
    /// more than `MAX_CELL_LINES` lines.
    pub fn format_cell(&self, cell_value: &str) -> (r: Result<Vec<String>, TableError>)
        ensures
            match r {
                Ok(lines) => {
                    &&& split_lines(cell_value@).len() <= MAX_CELL_LINES
                    &&& lines@.len() == split_lines(cell_value@).len()
                    &&& forall|i: int|
                        0 <= i < lines@.len() ==> (#[trigger] lines@[i])@ == format_line_spec(
                            *self,
                            split_lines(cell_value@)[i],
                        )
                },
                Err(e) => {
                    &&& split_lines(cell_value@).len() > MAX_CELL_LINES
                    &&& e == TableError::TooManyLines
                },
            },
    {
        let lines = split_value(cell_value);
        if lines.len() > MAX_CELL_LINES {
            return Err(TableError::TooManyLines);
        }
        Ok(self.format_lines_of(lines))
    }

    /// Formats an already split cell, line by line; rendering uses this
    /// for stored rows, whose line counts `add_row` has validated.
    fn format_lines_of(&self, lines: Vec<String>) -> (r: Vec<String>)
        ensures
            r@.len() == lines@.len(),
            forall|i: int|
                0 <= i < lines@.len() ==> (#[trigger] r@[i])@ == format_line_spec(
                    *self,
                    lines@[i]@,
                ),
    {
        let mut out: Vec<String> = Vec::new();
        let mut i: usize = 0;
        while i < lines.len()
            invariant
                i <= lines@.len(),
                out@.len() == i,
                forall|k: int|
                    0 <= k < i ==> (#[trigger] out@[k])@ == format_line_spec(*self, lines@[k]@),
            decreases lines@.len() - i,
        {
            out.push(self.format_line(lines[i].as_str()));
            i = i + 1;
        }
        out
    }

    /// Splits a cell and formats every line; the caller answers for the
    /// line count. Rendering uses this for rows `add_row` accepted.
    pub(crate) fn format_lines(&self, cell_value: &str) -> (r: Vec<String>)
        ensures
            r@.len() == split_lines(cell_value@).len(),
            forall|i: int|
                0 <= i < r@.len() ==> (#[trigger] r@[i])@ == format_line_spec(
                    *self,
                    split_lines(cell_value@)[i],
                ),
    {
        let lines = split_value(cell_value);
        self.format_lines_of(lines)
    }

    /// Lays out one line of a cell: truncation first, then padding to the
    /// rendered width.
    fn format_line(&self, line: &str) -> (r: String)
        ensures
            r@ == format_line_spec(*self, line@),
    {
        let value_len = line.unicode_len();
        let mut result: String = if self.truncate_at > 0 && value_len > self.truncate_at {
            let truncate_pos = if self.truncate_at >= 3 {
                self.truncate_at - 3
            } else {
                0
            };
            let mut t = String::from_str(line.substring_char(0, truncate_pos));
            t.append("...");
            proof {
                reveal_strlit("...");
                assert("..."@ =~= ellipsis());
            }
            t
        } else {
            String::from_str(line)
        };
        let ghost trunc = truncated(line@, self.truncate_at as nat);
        assert(result@ == trunc);
        let width = if self.truncate_at > 0 {
            self.truncate_at
        } else {
            self.max_length
        };
        let result_len = result.as_str().unicode_len();
        if result_len < width {
            let padding = spaces_string(width - result_len);
            match self.justification {
                Justification::Left => {
                    result.append(padding.as_str());
                    result
                },
                Justification::Right => {
                    let mut padded_line = padding;
                    padded_line.append(result.as_str());
                    padded_line
                },
            }
        } else {
            result
        }
    }

    /// A blank field: spaces across the column's rendered width. It fills
    /// this column's slot on output lines where a sibling column has more
    /// lines than this one.
    pub fn format_empty(&self) -> (r: String)
        ensures
            r@ == repeat_char(' ', self.rendered_width()),
    {
        let width = if self.truncate_at > 0 {
            self.truncate_at
        } else {
            self.max_length
        };
        spaces_string(width)
    }
}

/// Law: the header text of a well-formed column is never truncated — the
/// first line of the name passes through truncation unchanged, because a
/// nonzero truncation width is at least the name's character count.
pub proof fn lemma_header_never_truncated(col: Column)
    requires
        col.wf(),
    ensures
        truncated(split_lines(col.name@)[0], col.truncate_at as nat) == split_lines(col.name@)[0],
{
    lemma_first_line_len(col.name@);
}

/// Law: a line longer than a nonzero truncation width formats to exactly
/// the rendered width and ends in the three-dot ellipsis.
pub proof fn lemma_ellipsis_correct(col: Column, line: Seq<char>)
    requires
        col.wf(),
        col.truncate_at > 0,
        line.len() > col.truncate_at,
    ensures
        format_line_spec(col, line).len() == col.rendered_width(),
        format_line_spec(col, line).subrange(
            col.truncate_at - 3,
            col.truncate_at as int,
        ) == ellipsis(),
{
    let t = col.truncate_at as nat;
    let tr = truncated(line, t);
    assert(tr.len() == t);
    assert(format_line_spec(col, line) == tr);
    assert(tr.subrange(t - 3, t as int) =~= ellipsis());
}

/// Law: with truncation off no line is ever shortened — formatting only
/// pads, and the result is at least as long as the line itself.
pub proof fn lemma_no_truncation(col: Column, line: Seq<char>)
    requires
        col.truncate_at == 0,
    ensures
        truncated(line, col.truncate_at as nat) == line,
        format_line_spec(col, line).len() >= line.len(),
{
}

/// Law: a formatted line is exactly as long as the column's rendered
/// width — for any line when truncation is on, and for any line the
/// running maximum has absorbed when it is off.
pub proof fn lemma_padding_width(col: Column, line: Seq<char>)
    requires
        col.wf(),
        col.truncate_at == 0 ==> line.len() <= col.max_length,
    ensures
        format_line_spec(col, line).len() == col.rendered_width(),
{
}

/// Law: `Left` pads on the right, so the text fills the leftmost
/// positions; `Right` pads on the left, so the text ends the line. The
/// padding is spaces only.
pub proof fn lemma_justification(col: Column, line: Seq<char>)
    ensures
        col.justification is Left ==> format_line_spec(col, line) == truncated(
            line,
            col.truncate_at as nat,
        ) + repeat_char(
            ' ',
            (format_line_spec(col, line).len() - truncated(line, col.truncate_at as nat).len()) as nat,
        ),
        col.justification is Right ==> format_line_spec(col, line) == repeat_char(
            ' ',
            (format_line_spec(col, line).len() - truncated(line, col.truncate_at as nat).len()) as nat,
        ) + truncated(line, col.truncate_at as nat),
{
    let tr = truncated(line, col.truncate_at as nat);
    let out = format_line_spec(col, line);
    if tr.len() < col.rendered_width() {
        assert(out.len() == col.rendered_width());
    } else {
        assert(out == tr);
        assert(repeat_char(' ', 0) =~= Seq::<char>::empty());
        assert(tr + Seq::<char>::empty() =~= tr);
        assert(Seq::<char>::empty() + tr =~= tr);
    }
}

} // verus!
