//! Grids as text: 256 lines of 256 characters, through a character table.

use crate::bytegrid::{cell_addr, Grid, GRID_SIDE};
use crate::encoding::{Encoding, EncodingError};
use vstd::prelude::*;

verus! {

/// The character that some systems put before the end of a line.
pub open spec fn carriage_return() -> char {
    '\r'
}

/// A line without the carriage returns at its end.
pub open spec fn trimmed(line: Seq<char>) -> Seq<char>
    decreases line.len(),
{
    if line.len() > 0 && line.last() == carriage_return() {
        trimmed(line.drop_last())
    } else {
        line
    }
}

/// How many characters of a line go into its row of the grid.
pub open spec fn row_width(line: Seq<char>) -> int {
    if trimmed(line).len() < GRID_SIDE {
        trimmed(line).len() as int
    } else {
        GRID_SIDE as int
    }
}

/// Whether the table has every character that goes into the grid from the
/// first `n` lines.
pub open spec fn readable(table: Encoding, lines: Seq<Vec<char>>, n: int) -> bool {
    forall|i: int| 0 <= i < n ==> table.knows(trimmed(#[trigger] lines[i]@), row_width(lines[i]@))
}

/// The numbers, counted from one, of those among the first `n` lines that
/// hold more characters than a row has cells.
pub open spec fn long_lines(lines: Seq<Vec<char>>, n: int) -> Seq<usize>
    decreases n,
{
    if n <= 0 {
        Seq::empty()
    } else if trimmed(lines[n - 1]@).len() > GRID_SIDE {
        long_lines(lines, n - 1).push(n as usize)
    } else {
        long_lines(lines, n - 1)
    }
}

/// What the cell in column `x` and row `y` holds in the grid read from the
/// first `n` lines: the byte for character `x` of line `y`, or zero where
/// there is no such line or character.
pub open spec fn text_cell(table: Encoding, lines: Seq<Vec<char>>, n: int, x: u8, y: u8) -> u8 {
    if y < n && x < row_width(lines[y as int]@) {
        table.char_to_byte@[trimmed(lines[y as int]@)[x as int] as u32]
    } else {
        0
    }
}

/// How many of `count` lines go into the rows of a grid.
pub open spec fn rows_read(count: int) -> int {
    if count < GRID_SIDE {
        count
    } else {
        GRID_SIDE as int
    }
}

/// The end of a line without the carriage returns at its end.
fn trimmed_len(line: &Vec<char>) -> (end: usize)
    ensures
        end <= line@.len(),
        trimmed(line@) == line@.subrange(0, end as int),
{
    let mut end: usize = line.len();
    assert(line@.subrange(0, end as int) =~= line@);
    while end > 0 && line[end - 1] == '\r'
        invariant
            end <= line@.len(),
            trimmed(line@) == trimmed(line@.subrange(0, end as int)),
        decreases end,
    {
        assert(line@.subrange(0, end as int).drop_last() =~= line@.subrange(0, end - 1));
        end -= 1;
    }
    end
}

/// A row of zero bytes.
fn blank_row() -> (row: Vec<u8>)
    ensures
        row@.len() == GRID_SIDE,
        forall|k: int| 0 <= k < GRID_SIDE ==> row@[k] == 0,
{
    let mut row: Vec<u8> = Vec::new();
    let mut fill: usize = 0;
    while fill < GRID_SIDE
        invariant
            fill <= GRID_SIDE,
            row@.len() == fill,
            forall|k: int| 0 <= k < fill ==> row@[k] == 0,
        decreases GRID_SIDE - fill,
    {
        row.push(0);
        fill += 1;
    }
    row
}

impl Grid<u8> {
    /// Writes the first `count` bytes of `row` into row `y` of the grid.
    fn set_row(&mut self, y: u8, row: &Vec<u8>, count: usize)
        requires
            count <= GRID_SIDE,
            row@.len() == GRID_SIDE,
        ensures
            forall|col: u8, other: u8|
                other != y ==> final(self)@[#[trigger] cell_addr(col, other)] == old(
                    self,
                )@[cell_addr(col, other)],
            forall|col: u8|
                col < count ==> final(self)@[#[trigger] cell_addr(col, y)] == row@[col as int],
            forall|col: u8|
                col >= count ==> final(self)@[#[trigger] cell_addr(col, y)] == old(
                    self,
                )@[cell_addr(col, y)],
    {
        let mut x: usize = 0;
        while x < count
            invariant
                x <= count <= GRID_SIDE,
                row@.len() == GRID_SIDE,
                forall|col: u8, other: u8|
                    other != y ==> self@[#[trigger] cell_addr(col, other)] == old(
                        self,
                    )@[cell_addr(col, other)],
                forall|col: u8| col < x ==> self@[#[trigger] cell_addr(col, y)] == row@[col as int],
                forall|col: u8|
                    col >= x ==> self@[#[trigger] cell_addr(col, y)] == old(self)@[cell_addr(
                        col,
                        y,
                    )],
            decreases count - x,
        {
            proof {
                self.lemma_view_len();
            }
            self.set_xy(x as u8, y, row[x]);
            x += 1;
        }
    }

    /// Reads a grid from its lines of text: character `x` of line `y`, taken
    /// through the table, is the byte in column `x` of row `y`. Carriage
    /// returns at the end of a line are left out. Hands out the grid and the
    /// numbers of the lines that were longer than a row.
    ///
    /// Fails with `InvalidData` where a character that would go into one of
    /// the 256 rows is not in the table, and with `TooManyLines` where these
    /// rows can be read but more lines follow them.
    pub fn load(lines: &Vec<Vec<char>>, encoding: &Encoding) -> (r: Result<
        (Grid<u8>, Vec<usize>),
        EncodingError,
    >)
        ensures
            match r {
                Ok((grid, warnings)) => {
                    &&& lines@.len() <= GRID_SIDE
                    &&& readable(*encoding, lines@, lines@.len() as int)
                    &&& warnings@ == long_lines(lines@, lines@.len() as int)
                    &&& forall|x: u8, y: u8| #[trigger]
                        grid@[cell_addr(x, y)] == text_cell(
                            *encoding,
                            lines@,
                            lines@.len() as int,
                            x,
                            y,
                        )
                },
                Err(EncodingError::InvalidData) => !readable(
                    *encoding,
                    lines@,
                    rows_read(lines@.len() as int),
                ),
                Err(EncodingError::TooManyLines(count)) => {
                    &&& count == lines@.len()
                    &&& count > GRID_SIDE
                    &&& readable(*encoding, lines@, GRID_SIDE as int)
                },
                Err(_) => false,
            },
    {
        let mut result = Grid::new();
        let mut warnings: Vec<usize> = Vec::new();
        let rows: usize = if lines.len() < GRID_SIDE {
            lines.len()
        } else {
            GRID_SIDE
        };
        let mut i: usize = 0;
        while i < rows
            invariant
                i <= rows <= GRID_SIDE,
                rows == rows_read(lines@.len() as int),
                readable(*encoding, lines@, i as int),
                warnings@ == long_lines(lines@, i as int),
                forall|x: u8, y: u8| #[trigger]
                    result@[cell_addr(x, y)] == text_cell(*encoding, lines@, i as int, x, y),
            decreases rows - i,
        {
            let line = &lines[i];
            let end = trimmed_len(line);
            let text = vstd::slice::slice_subrange(line.as_slice(), 0, end);
            let mut row = blank_row();
            match encoding.decode_utf8(text, row.as_mut_slice()) {
                Ok((produced, tail)) => {
                    if tail.len() > 0 {
                        warnings.push(i + 1);
                    }
                    let ghost before = result@;
                    result.set_row(i as u8, &row, produced);
                    proof {
                        assert(text@ == trimmed(line@));
                        assert(produced == row_width(line@));
                        assert forall|col: u8, y: u8| #[trigger]
                            result@[cell_addr(col, y)] == text_cell(
                                *encoding,
                                lines@,
                                i + 1,
                                col,
                                y,
                            ) by {
                            assert(before[cell_addr(col, y)] == text_cell(
                                *encoding,
                                lines@,
                                i as int,
                                col,
                                y,
                            ));
                            if y == i && col < produced {
                                assert(result@[cell_addr(col, i as u8)] == row@[col as int]);
                                assert(row@[col as int] == encoding.char_to_byte@[text@[col as int] as u32]);
                            }
                        }
                    }
                },
                Err(e) => {
                    return Err(e);
                },
            }
            i += 1;
        }
        if lines.len() > GRID_SIDE {
            return Err(EncodingError::TooManyLines(lines.len()));
        }
        Ok((result, warnings))
    }

    /// Writes the grid as text: 256 lines, each of the 256 characters that
    /// the table gives for the bytes of a row, and a line end.
    pub fn save(&self, encoding: &Encoding) -> (text: Vec<char>)
        ensures
            text@.len() == 256 * 257,
            forall|x: u8, y: u8|
                text@[y * 257 + x] == encoding.byte_to_char@[(#[trigger] self@[cell_addr(
                    x,
                    y,
                )]) as int],
            forall|y: u8| #[trigger] text@[y * 257 + 256] == '\n',
    {
        let mut text: Vec<char> = Vec::new();
        let mut y: usize = 0;
        while y < GRID_SIDE
            invariant
                y <= GRID_SIDE,
                text@.len() == y * 257,
                forall|col: u8, row: u8|
                    row < y ==> text@[row * 257 + col] == encoding.byte_to_char@[(
                    #[trigger] self@[cell_addr(col, row)]) as int],
                forall|row: u8| row < y ==> #[trigger] text@[row * 257 + 256] == '\n',
            decreases GRID_SIDE - y,
        {
            let mut x: usize = 0;
            while x < GRID_SIDE
                invariant
                    x <= GRID_SIDE,
                    y < GRID_SIDE,
                    text@.len() == y * 257 + x,
                    forall|col: u8, row: u8|
                        row < y || (row == y && col < x) ==> text@[row * 257 + col]
                            == encoding.byte_to_char@[(#[trigger] self@[cell_addr(col, row)]) as int],
                    forall|row: u8| row < y ==> #[trigger] text@[row * 257 + 256] == '\n',
                decreases GRID_SIDE - x,
            {
                let byte = self.get_xy(x as u8, y as u8);
                text.push(encoding.byte_to_char[byte as usize]);
                x += 1;
            }
            text.push('\n');
            y += 1;
        }
        text
    }
}

} // verus!
