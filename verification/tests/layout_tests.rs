use ethdec::layout::{
    block_count, instruction_window, panel_layout, rows_below, scroll_down, scroll_up, split_bits,
    table_layout, window_coord, BitParts, TableLayout,
};
use ethdec::vecmath::{Rectangle, V2};

fn rect(x: i32, y: i32, w: i32, h: i32) -> Rectangle {
    Rectangle {
        pos: V2::make(x, y),
        size: V2::make(w, h),
    }
}

fn corners(r: &Rectangle) -> (i32, i32, i32, i32) {
    (r.pos.x, r.pos.y, r.size.x, r.size.y)
}

#[test]
fn panels_of_a_wide_screen() {
    let layout = panel_layout(&rect(1, 1, 120, 40));
    assert_eq!(corners(&layout.top), (1, 1, 120, 3));
    assert_eq!(corners(&layout.binary), (2, 5, 44, 35));
    assert_eq!(corners(&layout.text), (47, 5, 52, 35));
    assert_eq!(corners(&layout.right), (100, 5, 20, 35));
}

#[test]
fn panels_of_a_screen_too_small() {
    let layout = panel_layout(&rect(3, 7, 10, 4));
    assert_eq!(corners(&layout.top), (3, 7, 10, 3));
    assert_eq!(corners(&layout.binary), (4, 11, 0, 0));
    assert_eq!(corners(&layout.text), (5, 11, 0, 0));
    assert_eq!(corners(&layout.right), (6, 11, 20, 0));
}

#[test]
fn binary_panel_holds_whole_blocks() {
    // 26 shared columns: half is 13, and 14 % 9 columns are given to the text
    let layout = panel_layout(&rect(0, 0, 50, 10));
    assert_eq!(layout.binary.size.x, 8);
    assert_eq!(layout.text.size.x, 18);
    assert_eq!(layout.binary.size.y, 5);
}

#[test]
fn rows_below_used_rows() {
    let space = rows_below(&rect(2, 3, 20, 10), 3);
    assert_eq!(corners(&space), (2, 6, 20, 7));
    let space = rows_below(&rect(2, 3, 20, 10), 12);
    assert_eq!(corners(&space), (2, 15, 20, 0));
}

#[test]
fn table_of_characters_layout() {
    let t = |padding, rows, columns| TableLayout {
        padding,
        rows,
        columns,
    };
    assert_eq!(table_layout(80, 24), t(2, 19, 4));
    assert_eq!(table_layout(400, 40), t(2, 32, 8));
    assert_eq!(table_layout(400, 10), t(0, 9, 21));
    assert_eq!(table_layout(400, 14), t(2, 9, 21));
    assert_eq!(table_layout(400, 3), t(0, 2, 21));
    assert_eq!(table_layout(10, 24), t(2, 0, 0));
    assert_eq!(table_layout(80, 1), t(0, 0, 0));
    assert_eq!(table_layout(80, 0), t(0, 0, 0));
    assert_eq!(table_layout(-80, 24), t(2, 0, 0));
    assert_eq!(table_layout(5000, 20), t(2, 15, 18));
    assert_eq!(table_layout(5000, 300), t(2, 32, 8));
}

#[test]
fn table_of_characters_scrolls() {
    assert_eq!(scroll_down(0, 19), 19);
    assert_eq!(scroll_down(230, 19), 237);
    assert_eq!(scroll_down(253, 19), 237);
    assert_eq!(scroll_down(254, 19), 254);
    assert_eq!(scroll_down(0, 300), 0);
    assert_eq!(scroll_up(19, 19), 0);
    assert_eq!(scroll_up(10, 19), 0);
    assert_eq!(scroll_up(40, 19), 21);
    assert_eq!(scroll_up(0, 5), 0);
    assert_eq!(scroll_up(-3, 5), -3);
}

#[test]
fn program_listing_window() {
    assert_eq!(instruction_window(10, 50, 30, 11), (25, 35));
    assert_eq!(instruction_window(10, 50, 30, 12), (25, 35));
    assert_eq!(instruction_window(0, 255, 250, 11), (245, 255));
    assert_eq!(instruction_window(0, 255, 253, 11), (245, 255));
    assert_eq!(instruction_window(10, 50, 11, 11), (10, 20));
    assert_eq!(instruction_window(10, 15, 12, 11), (10, 15));
    assert_eq!(instruction_window(10, 15, 12, 6), (10, 15));
    assert_eq!(instruction_window(1, 3, 2, 0), (2, 2));
    assert_eq!(instruction_window(1, 3, 2, 1), (2, 2));
    // the window is kept within the grid, not within the program
    assert_eq!(instruction_window(100, 200, 200, 101), (100, 200));
    assert_eq!(instruction_window(100, 200, 200, 99), (151, 249));
}

#[test]
fn window_shows_cells_round_its_center() {
    assert_eq!(window_coord(0, 0, 10), None);
    assert_eq!(window_coord(0, 4, 10), None);
    assert_eq!(window_coord(0, 5, 10), Some(0));
    assert_eq!(window_coord(250, 10, 10), Some(255));
    assert_eq!(window_coord(250, 11, 10), None);
    assert_eq!(window_coord(7, 0, 5), Some(5));
    assert_eq!(window_coord(7, 2, 5), Some(7));
}

#[test]
fn blocks_in_a_row() {
    assert_eq!(block_count(44, 8), 5);
    assert_eq!(block_count(44, 2), 15);
    assert_eq!(block_count(8, 8), 1);
    assert_eq!(block_count(7, 8), 0);
    assert_eq!(block_count(0, 2), 0);
}

#[test]
fn byte_splits_at_the_player_bit() {
    assert_eq!(
        split_bits(0b1011_0110, 6, 0x40),
        BitParts {
            left: 1,
            left_width: 1,
            right: 0b11_0110,
            right_width: 6
        }
    );
    assert_eq!(
        split_bits(0b1011_0110, 0, 0x01),
        BitParts {
            left: 0b101_1011,
            left_width: 7,
            right: 0,
            right_width: 0
        }
    );
    assert_eq!(
        split_bits(0b1011_0110, 3, 0x08),
        BitParts {
            left: 0b1011,
            left_width: 4,
            right: 0b110,
            right_width: 3
        }
    );
}
