//! The canonical text dump: one line per row, in storage order.
//!
//! A line is the row's label, the separator ` - `, one bracketed tile
//! character per cell, and a newline.

use vstd::prelude::*;
use crate::cell::Cell;
use crate::grid::{GridView, MapData};
use crate::text::push_char;

verus! {

/// The character of the decimal digit `d`.
pub open spec fn digit_char(d: nat) -> char {
    ('0' as u8 + d) as char
}

/// The decimal numeral of `n`, without padding.
pub open spec fn decimal(n: nat) -> Seq<char>
    decreases n,
{
    if n < 10 {
        seq![digit_char(n)]
    } else {
        decimal(n / 10).push(digit_char(n % 10))
    }
}

/// A row label: the signed decimal numeral of `n`, padded with a zero to
/// two characters.
pub open spec fn label_text(n: int) -> Seq<char> {
    if n < 0 {
        seq!['-'] + decimal((-n) as nat)
    } else if n < 10 {
        seq!['0'] + decimal(n as nat)
    } else {
        decimal(n as nat)
    }
}

/// What separates the label of a line from its tiles.
pub open spec fn separator() -> Seq<char> {
    seq![' ', '-', ' ']
}

/// One cell of a line: its tile character in brackets.
pub open spec fn tile_text(cell: Cell) -> Seq<char> {
    seq!['[', cell.type_floor.spec_to_char(), ']']
}

/// The tiles of a row, in storage order.
pub open spec fn cells_text(row: Seq<Cell>) -> Seq<char> {
    row.map_values(|cell: Cell| tile_text(cell)).flatten()
}

impl GridView {
    /// The number that labels a row: rows count up from `1`, or down from
    /// the declared height where the row origin is inverted.
    pub open spec fn row_label(self, row: int) -> int {
        if self.invert_row {
            self.height - row
        } else {
            row + 1
        }
    }

    /// The line of one row.
    pub open spec fn line(self, row: int) -> Seq<char> {
        label_text(self.row_label(row)) + separator() + cells_text(self.rows[row]) + seq!['\n']
    }

    /// The lines of all rows, first row first.
    pub open spec fn lines(self) -> Seq<Seq<char>> {
        Seq::new(self.rows.len(), |row: int| self.line(row))
    }

    /// The whole dump.
    pub open spec fn dump(self) -> Seq<char> {
        self.lines().flatten()
    }
}

/// The character of a decimal digit.
fn digit(d: usize) -> (c: char)
    requires
        d < 10,
    ensures
        c == digit_char(d as nat),
{
    ('0' as u8 + d as u8) as char
}

/// Appends the decimal numeral of `n`.
fn push_decimal(text: &mut String, n: usize)
    ensures
        final(text)@ == old(text)@ + decimal(n as nat),
    decreases n,
{
    if n >= 10 {
        push_decimal(text, n / 10);
    }
    push_char(text, digit(n % 10));
}

/// Appends the label of `row`.
fn push_label(text: &mut String, height: usize, invert: bool, row: usize)
    requires
        row < usize::MAX,
    ensures
        final(text)@ == old(text)@ + label_text(
            if invert {
                height - row
            } else {
                row + 1
            },
        ),
{
    if invert {
        if height >= row {
            let n = height - row;
            if n < 10 {
                push_char(text, '0');
            }
            push_decimal(text, n);
        } else {
            push_char(text, '-');
            push_decimal(text, row - height);
        }
    } else {
        let n = row + 1;
        if n < 10 {
            push_char(text, '0');
        }
        push_decimal(text, n);
    }
}

impl<const X: usize, const Y: usize> MapData<X, Y> {
    /// The canonical dump of the map as it is now.
    pub fn format_map(&self) -> (text: String)
        ensures
            text@ == self@.dump(),
    {
        let mut text = String::new();
        let mut row: usize = 0;
        while row < Y
            invariant
                row <= Y,
                text@ == self@.lines().take(row as int).flatten(),
            decreases Y - row,
        {
            let ghost done = text@;
            push_label(&mut text, self.map_size_y, self.invert_row_origin, row);
            push_char(&mut text, ' ');
            push_char(&mut text, '-');
            push_char(&mut text, ' ');
            let ghost head = text@;
            let ghost tiles = self@.rows[row as int].map_values(|cell: Cell| tile_text(cell));
            let mut col: usize = 0;
            while col < X
                invariant
                    row < Y,
                    col <= X,
                    tiles == self@.rows[row as int].map_values(|cell: Cell| tile_text(cell)),
                    text@ == head + tiles.take(col as int).flatten(),
                decreases X - col,
            {
                let c = self.cells[row][col].type_floor.to_char();
                push_char(&mut text, '[');
                push_char(&mut text, c);
                push_char(&mut text, ']');
                proof {
                    assert(tiles.take(col + 1) =~= tiles.take(col as int).push(tiles[col as int]));
                    tiles.take(col as int).lemma_flatten_push(tiles[col as int]);
                }
                col = col + 1;
            }
            push_char(&mut text, '\n');
            proof {
                let lines = self@.lines();
                assert(tiles.take(X as int) =~= tiles);
                assert(text@ =~= done + lines[row as int]);
                assert(lines.take(row + 1) =~= lines.take(row as int).push(lines[row as int]));
                lines.take(row as int).lemma_flatten_push(lines[row as int]);
            }
            row = row + 1;
        }
        proof {
            assert(self@.lines().take(Y as int) =~= self@.lines());
        }
        text
    }
}

/// How many newline characters a text holds.
pub open spec fn newline_count(text: Seq<char>) -> nat {
    text.filter(|c: char| c == '\n').len()
}

/// A text without a newline character counts none.
proof fn lemma_no_newline_counts_zero(text: Seq<char>)
    requires
        forall|i: int| 0 <= i < text.len() ==> text[i] != '\n',
    ensures
        newline_count(text) == 0,
    decreases text.len(),
{
    reveal(Seq::filter);
    if text.len() > 0 {
        lemma_no_newline_counts_zero(text.drop_last());
    }
}

/// A decimal numeral is a non-empty run of digits.
pub proof fn lemma_decimal_is_digits(n: nat)
    ensures
        decimal(n).len() >= 1,
        forall|i: int| 0 <= i < decimal(n).len() ==> '0' <= #[trigger] decimal(n)[i] <= '9',
    decreases n,
{
    if n >= 10 {
        lemma_decimal_is_digits(n / 10);
    }
}

/// A label is at least two characters wide, exactly two for a number of
/// one or two digits, and holds nothing but digits after an optional sign.
pub proof fn lemma_label_text_shape(n: int)
    ensures
        label_text(n).len() >= 2,
        0 <= n < 100 ==> label_text(n).len() == 2,
        n >= 0 ==> forall|i: int| 0 <= i < label_text(n).len() ==> '0' <= #[trigger] label_text(n)[i] <= '9',
        forall|i: int| 0 <= i < label_text(n).len() ==> #[trigger] label_text(n)[i] != '\n',
{
    if n < 0 {
        lemma_decimal_is_digits((-n) as nat);
    } else {
        lemma_decimal_is_digits(n as nat);
        if n >= 10 {
            lemma_decimal_is_digits((n / 10) as nat);
        }
    }
}

/// The tiles of a row are three characters per cell: an opening bracket,
/// the tile character of the cell, a closing bracket.
pub proof fn lemma_cells_text_shape(row: Seq<Cell>)
    ensures
        cells_text(row).len() == 3 * row.len(),
        forall|col: int|
            0 <= col < row.len() ==> {
                &&& cells_text(row)[3 * col] == '['
                &&& cells_text(row)[3 * col + 1] == (#[trigger] row[col]).type_floor.spec_to_char()
                &&& cells_text(row)[3 * col + 2] == ']'
            },
    decreases row.len(),
{
    let tile = |cell: Cell| tile_text(cell);
    if row.len() > 0 {
        let front = row.drop_last();
        lemma_cells_text_shape(front);
        assert(row.map_values(tile) =~= front.map_values(tile).push(tile_text(row.last())));
        front.map_values(tile).lemma_flatten_push(tile_text(row.last()));
        assert forall|col: int| 0 <= col < row.len() implies {
            &&& cells_text(row)[3 * col] == '['
            &&& cells_text(row)[3 * col + 1] == (#[trigger] row[col]).type_floor.spec_to_char()
            &&& cells_text(row)[3 * col + 2] == ']'
        } by {
            if col < front.len() {
                assert(front[col] == row[col]);
            }
        }
    }
}

/// No tile of a row is a newline.
proof fn lemma_cells_text_one_line(row: Seq<Cell>)
    ensures
        forall|i: int| 0 <= i < cells_text(row).len() ==> cells_text(row)[i] != '\n',
{
    lemma_cells_text_shape(row);
    assert forall|i: int| 0 <= i < cells_text(row).len() implies cells_text(row)[i] != '\n' by {
        let col = i / 3;
        assert(row[col].type_floor.spec_to_char() != '\n');
    }
}

impl GridView {
    /// The labels run strictly one way: up from `1`, or down from the
    /// declared height where the row origin is inverted.
    pub proof fn lemma_row_labels_monotonic(self, first: int, second: int)
        requires
            first < second,
        ensures
            self.row_label(0) == if self.invert_row { self.height } else { 1 },
            self.invert_row ==> self.row_label(first) > self.row_label(second),
            !self.invert_row ==> self.row_label(first) < self.row_label(second),
            self.row_label(first + 1) - self.row_label(first) == if self.invert_row { -1int } else { 1 },
    {
    }

    /// On a rectangular grid every row carries a positive label, so no sign
    /// is ever printed.
    pub proof fn lemma_row_labels_positive(self, row: int)
        requires
            self.rectangular(),
            0 <= row < self.rows.len(),
        ensures
            1 <= self.row_label(row) <= self.height,
    {
    }

    /// The line of a row ends in a newline and holds no other.
    pub proof fn lemma_line_is_one_line(self, row: int)
        ensures
            self.line(row).last() == '\n',
            forall|i: int| 0 <= i < self.line(row).len() - 1 ==> self.line(row)[i] != '\n',
            newline_count(self.line(row)) == 1,
    {
        let body = label_text(self.row_label(row)) + separator() + cells_text(self.rows[row]);
        lemma_label_text_shape(self.row_label(row));
        lemma_cells_text_one_line(self.rows[row]);
        assert forall|i: int| 0 <= i < body.len() implies body[i] != '\n' by {
            let label = label_text(self.row_label(row));
            if i < label.len() {
                assert(body[i] == label[i]);
            } else if i < label.len() + 3 {
                assert(body[i] == separator()[i - label.len()]);
            } else {
                assert(body[i] == cells_text(self.rows[row])[i - label.len() - 3]);
            }
        }
        lemma_no_newline_counts_zero(body);
        reveal(Seq::filter);
    }

    /// The first `n` lines hold `n` newlines.
    proof fn lemma_newlines_of_lines(self, n: int)
        requires
            0 <= n <= self.rows.len(),
        ensures
            newline_count(self.lines().take(n).flatten()) == n,
        decreases n,
    {
        let lines = self.lines();
        let newline = |c: char| c == '\n';
        if n == 0 {
            reveal(Seq::filter);
        } else {
            self.lemma_newlines_of_lines(n - 1);
            self.lemma_line_is_one_line(n - 1);
            assert(lines.take(n) =~= lines.take(n - 1).push(lines[n - 1]));
            lines.take(n - 1).lemma_flatten_push(lines[n - 1]);
            Seq::filter_distributes_over_add(lines.take(n - 1).flatten(), lines[n - 1], newline);
        }
    }

    /// The dump has exactly one line per row: as many newlines as rows, the
    /// declared height of them on a rectangular grid, and each line holds
    /// the tiles of its row, the declared width of them.
    pub proof fn lemma_dump_shape(self)
        ensures
            self.lines().len() == self.rows.len(),
            newline_count(self.dump()) == self.rows.len(),
            self.rectangular() ==> newline_count(self.dump()) == self.height,
            self.rectangular() ==> forall|row: int|
                0 <= row < self.rows.len() ==> cells_text(#[trigger] self.rows[row]).len() == 3
                    * self.width,
    {
        self.lemma_newlines_of_lines(self.rows.len() as int);
        assert(self.lines().take(self.rows.len() as int) =~= self.lines());
        if self.rectangular() {
            assert forall|row: int| 0 <= row < self.rows.len() implies cells_text(
                #[trigger] self.rows[row],
            ).len() == 3 * self.width by {
                lemma_cells_text_shape(self.rows[row]);
            }
        }
    }
}

} // verus!
