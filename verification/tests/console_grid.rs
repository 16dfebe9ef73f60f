//! The text console state machine: cursor movement, wrapping, tab stops,
//! backspace, scrolling and colors.

use aether::console::{BLANK, CONSOLE_COLS, CONSOLE_ROWS, Console, DEFAULT_BG, DEFAULT_FG};

#[test]
fn fresh_console_is_blank() {
    let con = Console::new();
    assert_eq!(con.cursor(), (0, 0));
    assert_eq!(con.colors(), (DEFAULT_FG, DEFAULT_BG));
    assert_eq!(con.cell_at(0, 0), BLANK);
    assert_eq!(con.cell_at(CONSOLE_COLS - 1, CONSOLE_ROWS - 1), BLANK);
}

#[test]
fn printable_characters_advance_the_cursor() {
    let mut con = Console::new();
    con.putc(b'A');
    con.putc(b'B');
    assert_eq!(con.cell_at(0, 0), b'A');
    assert_eq!(con.cell_at(1, 0), b'B');
    assert_eq!(con.cursor(), (2, 0));
}

#[test]
fn line_wraps_at_the_right_edge() {
    let mut con = Console::new();
    for _ in 0..CONSOLE_COLS {
        con.putc(b'x');
    }
    assert_eq!(con.cursor(), (0, 1));
    assert_eq!(con.cell_at(CONSOLE_COLS - 1, 0), b'x');
}

#[test]
fn carriage_return_rewinds_the_column() {
    let mut con = Console::new();
    con.puts(b"abc");
    assert_eq!(con.cursor(), (3, 0));
    con.putc(b'\r');
    assert_eq!(con.cursor(), (0, 0));
    // Overwriting after the return lands on the old cells.
    con.putc(b'Z');
    assert_eq!(con.cell_at(0, 0), b'Z');
    assert_eq!(con.cell_at(1, 0), b'b');
}

#[test]
fn tab_advances_to_the_next_stop() {
    let mut con = Console::new();
    con.putc(b'\t');
    assert_eq!(con.cursor(), (8, 0));
    con.puts(b"ab");
    con.putc(b'\t');
    assert_eq!(con.cursor(), (16, 0));
}

#[test]
fn backspace_deletes_the_previous_character() {
    let mut con = Console::new();
    con.puts(b"hi");
    con.backspace();
    assert_eq!(con.cursor(), (1, 0));
    assert_eq!(con.cell_at(1, 0), BLANK);
    // At the left edge the cursor crosses to the previous line's end.
    con.backspace();
    con.backspace();
    assert_eq!(con.cursor(), (0, 0));
    assert_eq!(con.cell_at(0, 0), BLANK);
    // At the top-left corner a backspace does nothing.
    con.backspace();
    assert_eq!(con.cursor(), (0, 0));
}

#[test]
fn newline_scrolls_at_the_bottom() {
    let mut con = Console::new();
    for _ in 0..CONSOLE_ROWS - 1 {
        con.newline();
    }
    assert_eq!(con.cursor(), (0, CONSOLE_ROWS - 1));
    con.putc(b'Z');
    con.newline();
    // The bottom row moved up one; the cursor stays on the last row.
    assert_eq!(con.cursor(), (0, CONSOLE_ROWS - 1));
    assert_eq!(con.cell_at(0, CONSOLE_ROWS - 2), b'Z');
    assert_eq!(con.cell_at(0, CONSOLE_ROWS - 1), BLANK);
}

#[test]
fn println_ends_the_line() {
    let mut con = Console::new();
    con.println(b"ok");
    assert_eq!(con.cursor(), (0, 1));
    assert_eq!(con.cell_at(0, 0), b'o');
    assert_eq!(con.cell_at(1, 0), b'k');
}

#[test]
fn colors_pack_rgb_channels() {
    let mut con = Console::new();
    con.set_fg(0x12, 0x34, 0x56);
    con.set_bg(0, 0, 0x40);
    assert_eq!(con.colors(), (0x00123456, 0x00000040));
}

#[test]
fn clear_blanks_the_grid_and_keeps_colors() {
    let mut con = Console::new();
    con.set_fg(1, 2, 3);
    con.puts(b"junk");
    con.newline();
    con.clear();
    assert_eq!(con.cursor(), (0, 0));
    assert_eq!(con.cell_at(0, 0), BLANK);
    assert_eq!(con.cell_at(3, 0), BLANK);
    assert_eq!(con.colors().0, 0x00010203);
}
