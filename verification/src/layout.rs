//! Where the parts of the screen go, and which part of the data they show.

use crate::vecmath::{Rectangle, V2};
use vstd::prelude::*;

verus! {

/// The largest coordinate and size that the layout is computed for.
pub const SCREEN_LIMIT: i32 = 0x100_0000;

/// Whether a number is small enough for the layout's arithmetic.
pub open spec fn screen_sized(v: int) -> bool {
    -SCREEN_LIMIT <= v <= SCREEN_LIMIT
}

/// Whether a rectangle is small enough for the layout's arithmetic.
pub open spec fn on_screen(r: Rectangle) -> bool {
    &&& screen_sized(r.pos.x as int)
    &&& screen_sized(r.pos.y as int)
    &&& screen_sized(r.size.x as int)
    &&& screen_sized(r.size.y as int)
}

/// The greater of a number and zero.
pub open spec fn at_least_zero(v: int) -> int {
    if v > 0 {
        v
    } else {
        0
    }
}

/// Rows of the panel at the top of the game's screen.
pub const TOP_PANEL_ROWS: i32 = 3;

/// Columns of the panel at the right of the game's screen.
pub const RIGHT_PANEL_COLUMNS: i32 = 20;

/// The four panels of the game's screen.
#[derive(Copy, Clone)]
pub struct PanelLayout {
    pub top: Rectangle,
    pub binary: Rectangle,
    pub text: Rectangle,
    pub right: Rectangle,
}

/// Rows of the three panels below the top panel: what is left below it and
/// inside the frame.
pub open spec fn lower_rows(size: Rectangle) -> int {
    at_least_zero(size.size.y - TOP_PANEL_ROWS - 2)
}

/// Columns that the binary and the text panel share: what is left beside the
/// right panel and the frame.
pub open spec fn data_columns(size: Rectangle) -> int {
    at_least_zero(size.size.x - RIGHT_PANEL_COLUMNS - 4)
}

/// Columns of the binary panel: half the shared columns, less what does not
/// fill a block of eight bits and a gap.
pub open spec fn binary_columns(size: Rectangle) -> int {
    let half = data_columns(size) / 2;
    at_least_zero(half - (half + 1) % 9)
}

/// The panels of a game's screen of the given size: the top panel over the
/// full width; below it, inside a frame, the binary, the text and the right
/// panel side by side, two columns apart.
pub open spec fn panel_layout_spec(size: Rectangle) -> PanelLayout {
    let left = binary_columns(size);
    let middle = data_columns(size) - left;
    let rows = lower_rows(size) as i32;
    let x0 = size.pos.x + 1;
    let y0 = (size.pos.y + TOP_PANEL_ROWS + 1) as i32;
    PanelLayout {
        top: Rectangle { pos: size.pos, size: V2 { x: size.size.x, y: TOP_PANEL_ROWS } },
        binary: Rectangle { pos: V2 { x: x0 as i32, y: y0 }, size: V2 { x: left as i32, y: rows } },
        text: Rectangle {
            pos: V2 { x: (x0 + left + 1) as i32, y: y0 },
            size: V2 { x: middle as i32, y: rows },
        },
        right: Rectangle {
            pos: V2 { x: (x0 + left + middle + 2) as i32, y: y0 },
            size: V2 { x: RIGHT_PANEL_COLUMNS, y: rows },
        },
    }
}

/// Lays out the panels of a game's screen of the given size.
pub fn panel_layout(size: &Rectangle) -> (r: PanelLayout)
    requires
        on_screen(*size),
    ensures
        r == panel_layout_spec(*size),
{
    let top_size: i32 = TOP_PANEL_ROWS;
    let below: i32 = size.size.y - top_size - 2;
    let bottom_size: i32 = if below > 0 {
        below
    } else {
        0
    };
    let top = Rectangle { pos: size.pos, size: V2::make(size.size.x, top_size) };
    let bottom_top = size.pos + V2::make(0, top_size);
    let right_size: i32 = RIGHT_PANEL_COLUMNS;
    let beside: i32 = size.size.x - right_size - 4;
    let data_width: i32 = if beside > 0 {
        beside
    } else {
        0
    };
    let half: i32 = data_width / 2;
    let fitted: i32 = half - ((half + 1) % 9);
    let left_width: i32 = if fitted > 0 {
        fitted
    } else {
        0
    };
    let middle_width: i32 = data_width - left_width;
    let binary = Rectangle {
        pos: bottom_top + V2::make(1, 1),
        size: V2::make(left_width, bottom_size),
    };
    let text = Rectangle {
        pos: binary.top_right() + V2::make(2, 0),
        size: V2::make(middle_width, bottom_size),
    };
    let right = Rectangle {
        pos: text.top_right() + V2::make(2, 0),
        size: V2::make(right_size, bottom_size),
    };
    PanelLayout { top, binary, text, right }
}

/// What is left of a panel below the rows that are used already.
pub fn rows_below(size: &Rectangle, rows_used: i32) -> (r: Rectangle)
    requires
        on_screen(*size),
        screen_sized(rows_used as int),
    ensures
        r.pos.x == size.pos.x,
        r.pos.y == size.pos.y + rows_used,
        r.size.x == size.size.x,
        r.size.y == at_least_zero(size.size.y - rows_used),
{
    let left: i32 = size.size.y - rows_used;
    Rectangle {
        pos: size.pos + V2::make(0, rows_used),
        size: V2::make(
            size.size.x,
            if left > 0 {
                left
            } else {
                0
            },
        ),
    }
}

/// Columns of one entry of the table of characters.
pub const TABLE_ENTRY_COLUMNS: i32 = 19;

/// How the table of the 256 characters is laid out.
#[derive(Debug, PartialEq, Eq, Copy, Clone, Structural)]
pub struct TableLayout {
    /// Free rows and columns round the table.
    pub padding: i32,
    pub rows: i32,
    pub columns: i32,
}

/// The columns that hold 256 entries in the given number of rows.
pub open spec fn columns_for(rows: int) -> int {
    (256 + rows - 1) / rows
}

/// The layout of the table of characters on a screen of the given size.
///
/// A screen of more than ten rows keeps two free on each side. One row is the
/// header. As many columns are shown as hold all entries, if they fit. A
/// table with room for more than 256 entries gets its rows rounded down to a
/// multiple of sixteen, where all entries can still be reached that way. A
/// screen with no room for an entry shows none.
pub open spec fn table_layout_spec(width: i32, height: i32) -> TableLayout {
    let padding: i32 = if height > 10 {
        2
    } else {
        0
    };
    let rows = height - 2 * padding - 1;
    let columns_max = if width >= 0 {
        width as int / TABLE_ENTRY_COLUMNS as int
    } else {
        -((-width) as int / TABLE_ENTRY_COLUMNS as int)
    };
    let columns = if rows > 0 && columns_for(rows) < columns_max {
        columns_for(rows)
    } else {
        columns_max
    };
    let rounded = (rows as i32) & 0xf0;
    if rows <= 0 || columns <= 0 {
        TableLayout { padding, rows: 0, columns: 0 }
    } else if columns * rows > 256 && rounded * columns_max >= 256 {
        TableLayout { padding, rows: rounded, columns: columns_for(rounded as int) as i32 }
    } else {
        TableLayout { padding, rows: rows as i32, columns: columns as i32 }
    }
}

proof fn lemma_rounded_rows(rows: i32)
    by (bit_vector)
    requires
        0 <= rows,
    ensures
        0 <= rows & 0xf0 <= 240,
        rows & 0xf0 <= rows,
{
}

/// Lays out the table of characters on a screen of the given size.
pub fn table_layout(width: i32, height: i32) -> (r: TableLayout)
    requires
        screen_sized(width as int),
        screen_sized(height as int),
    ensures
        r == table_layout_spec(width, height),
{
    let padding: i32 = if height > 10 {
        2
    } else {
        0
    };
    let mut rows: i32 = height - 2 * padding - 1;
    if rows <= 0 {
        return TableLayout { padding, rows: 0, columns: 0 };
    }
    let columns_max: i32 = width / TABLE_ENTRY_COLUMNS;
    let wanted: i32 = (256 + rows - 1) / rows;
    let mut columns: i32 = if wanted < columns_max {
        wanted
    } else {
        columns_max
    };
    if columns <= 0 {
        return TableLayout { padding, rows: 0, columns: 0 };
    }
    assert(columns * rows <= 256 * 256 + SCREEN_LIMIT) by (nonlinear_arith)
        requires
            1 <= columns <= wanted,
            wanted == (255 + rows) / (rows as int),
            1 <= rows <= SCREEN_LIMIT,
    ;
    let visible: i32 = columns * rows;
    if visible > 256 {
        proof {
            lemma_rounded_rows(rows);
        }
        let ghost first_rows = rows;
        let ghost first_columns = columns;
        let ghost rounded = rows & 0xf0;
        let mut rows_next: i32 = rows & 0xf0;
        assert(0 <= rows_next * columns_max <= 240 * columns_max) by (nonlinear_arith)
            requires
                0 <= rows_next <= 240,
                columns_max >= 1,
        ;
        while rows_next * columns_max >= 256
            invariant
                1 <= columns_max <= 0x10_0000,
                -256 * columns_max <= rows_next * columns_max <= 240 * columns_max,
                rows_next <= 240,
                (rows_next == rounded && rows == first_rows && columns == first_columns) || (
                rows_next < 0 && rows == rounded && rounded * columns_max >= 256 && columns
                    == columns_for(rounded as int)),
                -256 <= rows_next,
                0 <= rounded <= 240,
            decreases rows_next + 256,
        {
            assert(rows_next > 0) by (nonlinear_arith)
                requires
                    rows_next * columns_max >= 256,
                    columns_max >= 1,
            ;
            rows = rows_next;
            rows_next = rows_next - 256;
            columns = (256 + rows - 1) / rows;
            assert(-256 * columns_max <= rows_next * columns_max < 0) by (nonlinear_arith)
                requires
                    -256 <= rows_next < 0,
                    columns_max >= 1,
            ;
        }
    }
    TableLayout { padding, rows, columns }
}

/// The first entry shown after scrolling the table of characters down by
/// one screen: at most so far that the last entry stands in the last row.
pub open spec fn scroll_down_spec(offset: int, rows: int) -> int {
    if offset < 254 {
        let next = if offset + rows < 256 - rows {
            offset + rows
        } else {
            256 - rows
        };
        at_least_zero(next)
    } else {
        offset
    }
}

/// Scrolls the table of characters down by one screen.
pub fn scroll_down(offset: i32, rows: i32) -> (r: i32)
    requires
        screen_sized(offset as int),
        screen_sized(rows as int),
    ensures
        r == scroll_down_spec(offset as int, rows as int),
{
    if offset < 254 {
        let a: i32 = offset + rows;
        let b: i32 = 256 - rows;
        let next: i32 = if a < b {
            a
        } else {
            b
        };
        if next < 0 {
            0
        } else {
            next
        }
    } else {
        offset
    }
}

/// The first entry shown after scrolling the table of characters up by one
/// screen.
pub open spec fn scroll_up_spec(offset: int, rows: int) -> int {
    if offset > 0 {
        at_least_zero(offset - rows)
    } else {
        offset
    }
}

/// Scrolls the table of characters up by one screen.
pub fn scroll_up(offset: i32, rows: i32) -> (r: i32)
    requires
        screen_sized(offset as int),
        screen_sized(rows as int),
    ensures
        r == scroll_up_spec(offset as int, rows as int),
{
    if offset > 0 {
        let next: i32 = offset - rows;
        if next > 0 {
            next
        } else {
            0
        }
    } else {
        offset
    }
}

/// The rows of a program that are listed where its rows `first` to `last`
/// do not all fit into `height` rows: as many above the program counter's row
/// as below it, moved down or up where that would leave the grid or start
/// before the program.
pub open spec fn window_spec(first: int, last: int, pc_row: int, height: int) -> (int, int) {
    if last - first + 1 > height {
        let half = if height >= 1 {
            (height - 1) / 2
        } else {
            0
        };
        let over = if pc_row + half >= 256 {
            pc_row + half - 255
        } else {
            0
        };
        let t = pc_row - half - over;
        let b = pc_row + half - over;
        if t < first {
            (first, b + first - t)
        } else {
            (t, b)
        }
    } else {
        (first, last)
    }
}

/// The rows of a program that are listed in `height` rows of the screen,
/// given the rows `first` to `last` that the program fills and the row of the
/// program counter among them.
pub fn instruction_window(first: u8, last: u8, pc_row: u8, height: i32) -> (r: (i32, i32))
    requires
        first <= pc_row <= last,
        0 <= height <= SCREEN_LIMIT,
    ensures
        r.0 == window_spec(first as int, last as int, pc_row as int, height as int).0,
        r.1 == window_spec(first as int, last as int, pc_row as int, height as int).1,
        first <= r.0 <= pc_row <= r.1 <= 255,
{
    let r0: i32 = first as i32;
    let r1: i32 = last as i32;
    let row: i32 = pc_row as i32;
    if r1 - r0 + 1 > height {
        let half: i32 = (height - 1) / 2;
        let mut t: i32 = row - half;
        let mut b: i32 = row + half;
        if b >= 256 {
            t -= b - 255;
            b = 255;
        }
        if t < r0 {
            b += r0 - t;
            t = r0;
        }
        (t, b)
    } else {
        (r0, r1)
    }
}

/// The column or row of the grid that is shown at place `index` of `span`
/// places with `center` in their middle, if it lies within the grid.
pub open spec fn window_coord_spec(center: int, index: int, span: int) -> Option<u8> {
    let half = if span >= 0 {
        span / 2
    } else {
        -((-span) / 2)
    };
    let m = center + index - half;
    if 0 <= m < 256 {
        Some(m as u8)
    } else {
        None
    }
}

/// The column or row of the grid that is shown at place `index` of `span`
/// places with `center` in their middle.
pub fn window_coord(center: i32, index: i32, span: i32) -> (r: Option<u8>)
    requires
        screen_sized(center as int),
        screen_sized(index as int),
        screen_sized(span as int),
    ensures
        r == window_coord_spec(center as int, index as int, span as int),
{
    let m: i32 = center + index - span / 2;
    if m < 0 || m >= 256 {
        None
    } else {
        Some(m as u8)
    }
}

/// How many blocks of `block_width` columns fit into `width` columns, one
/// column apart.
pub fn block_count(width: i32, block_width: i32) -> (r: i32)
    requires
        0 <= width <= SCREEN_LIMIT,
        0 <= block_width <= SCREEN_LIMIT,
    ensures
        r == (width + 1) / (block_width + 1),
{
    (width + 1) / (block_width + 1)
}

/// A byte in two parts, to the left and to the right of the player's bit.
#[derive(Debug, PartialEq, Eq, Copy, Clone, Structural)]
pub struct BitParts {
    pub left: u8,
    pub left_width: usize,
    pub right: u8,
    pub right_width: usize,
}

/// Splits a byte at the player's bit: the bits above it, the bits below it,
/// and how many each are.
pub fn split_bits(byte: u8, player_offset: u8, player_mask: u8) -> (r: BitParts)
    requires
        player_offset < 7,
        player_mask >= 1,
    ensures
        r.left == byte >> ((player_offset + 1) as u8),
        r.left_width == 7 - player_offset,
        r.right == byte & ((player_mask - 1) as u8),
        r.right_width == player_offset,
{
    let left_part_size: u8 = 8 - player_offset - 1;
    let left_part: u8 = byte >> (8 - left_part_size);
    let right_part: u8 = byte & (player_mask - 1);
    BitParts {
        left: left_part,
        left_width: left_part_size as usize,
        right: right_part,
        right_width: player_offset as usize,
    }
}

} // verus!
