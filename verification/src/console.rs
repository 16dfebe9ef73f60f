//! The guest-side text console as a verified state machine over a character
//! cell grid: cursor movement, wrapping, tab stops, backspace and scrolling.
//! Rendering a cell to framebuffer pixels through a font is presentation
//! work left to the renderer; the grid holds what it would draw.

use vstd::prelude::*;

use crate::ram::rgb;

verus! {

/// Glyph cell width in pixels.
pub const FONT_WIDTH: usize = 8;

/// Glyph cell height in pixels.
pub const FONT_HEIGHT: usize = 16;

/// Console width in characters: the screen width over the glyph width.
pub const CONSOLE_COLS: usize = 80;

/// Console height in characters: the screen height over the glyph height.
pub const CONSOLE_ROWS: usize = 30;

/// Default foreground color: white.
pub const DEFAULT_FG: u32 = 0x00FFFFFF;

/// Default background color: black.
pub const DEFAULT_BG: u32 = 0x00000000;

/// The blank character that clearing and scrolling fill with.
pub const BLANK: u8 = 32;

/// The console's abstract state: the cell grid in row-major order, the
/// cursor, and the two colors.
pub struct ConsoleModel {
    pub cells: Seq<u8>,
    pub x: int,
    pub y: int,
    pub fg: u32,
    pub bg: u32,
}

/// Row-major index of the cell at column `x`, row `y`.
pub open spec fn cell_index(x: int, y: int) -> int {
    y * (CONSOLE_COLS as int) + x
}

/// The cursor is on the grid and the grid has its fixed size.
pub open spec fn console_wf(m: ConsoleModel) -> bool {
    &&& 0 <= m.x < CONSOLE_COLS
    &&& 0 <= m.y < CONSOLE_ROWS
    &&& m.cells.len() == CONSOLE_COLS * CONSOLE_ROWS
}

/// Writing one character at the cursor, without moving it.
pub open spec fn draw_spec(m: ConsoleModel, c: u8) -> ConsoleModel {
    ConsoleModel { cells: m.cells.update(cell_index(m.x, m.y), c), ..m }
}

/// Scrolling one line up: every row moves up one, the last row is blanked,
/// the cursor stays.
pub open spec fn scroll_spec(m: ConsoleModel) -> ConsoleModel {
    ConsoleModel {
        cells: m.cells.subrange(CONSOLE_COLS as int, m.cells.len() as int) + Seq::new(
            CONSOLE_COLS as nat,
            |i: int| BLANK,
        ),
        ..m
    }
}

/// A newline: the cursor returns to the left edge and moves down one row,
/// scrolling when it runs off the bottom.
pub open spec fn newline_spec(m: ConsoleModel) -> ConsoleModel {
    let down = ConsoleModel { x: 0, y: m.y + 1, ..m };
    if m.y + 1 >= CONSOLE_ROWS {
        ConsoleModel { y: (CONSOLE_ROWS - 1) as int, ..scroll_spec(down) }
    } else {
        down
    }
}

/// A printable character: drawn at the cursor, which then advances,
/// wrapping to a new line past the right edge.
pub open spec fn put_glyph_spec(m: ConsoleModel, c: u8) -> ConsoleModel {
    let drawn = draw_spec(m, c);
    if m.x + 1 >= CONSOLE_COLS {
        newline_spec(drawn)
    } else {
        ConsoleModel { x: m.x + 1, ..drawn }
    }
}

/// `n` spaces in a row, as a tab expands to.
pub open spec fn put_spaces_spec(m: ConsoleModel, n: nat) -> ConsoleModel
    decreases n,
{
    if n == 0 {
        m
    } else {
        put_spaces_spec(put_glyph_spec(m, BLANK), (n - 1) as nat)
    }
}

/// A backspace: the previous cell is blanked and the cursor moves back onto
/// it, crossing to the end of the previous line at the left edge; at the
/// top-left corner nothing happens.
pub open spec fn backspace_spec(m: ConsoleModel) -> ConsoleModel {
    if m.x > 0 {
        draw_spec(ConsoleModel { x: m.x - 1, ..m }, BLANK)
    } else if m.y > 0 {
        draw_spec(ConsoleModel { x: (CONSOLE_COLS - 1) as int, y: m.y - 1, ..m }, BLANK)
    } else {
        m
    }
}

/// One character of console input: newline, carriage return, tab to the
/// next multiple-of-8 column, backspace, or a printable glyph.
pub open spec fn putc_spec(m: ConsoleModel, c: u8) -> ConsoleModel {
    if c == 10 {
        newline_spec(m)
    } else if c == 13 {
        ConsoleModel { x: 0, ..m }
    } else if c == 9 {
        put_spaces_spec(m, (8 - m.x % 8) as nat)
    } else if c == 8 {
        backspace_spec(m)
    } else {
        put_glyph_spec(m, c)
    }
}

/// A whole byte string, character by character.
pub open spec fn puts_spec(m: ConsoleModel, s: Seq<u8>) -> ConsoleModel
    decreases s.len(),
{
    if s.len() == 0 {
        m
    } else {
        puts_spec(putc_spec(m, s[0]), s.drop_first())
    }
}

/// A byte string followed by a newline, as `println` prints it.
pub open spec fn println_spec(m: ConsoleModel, s: Seq<u8>) -> ConsoleModel {
    newline_spec(puts_spec(m, s))
}

/// The console state, cursor plus owned cell grid.
pub struct Console {
    cursor_x: usize,
    cursor_y: usize,
    fg_color: u32,
    bg_color: u32,
    cells: Vec<u8>,
}

impl Console {
    /// The abstract state.
    pub closed spec fn view(&self) -> ConsoleModel {
        ConsoleModel {
            cells: self.cells@,
            x: self.cursor_x as int,
            y: self.cursor_y as int,
            fg: self.fg_color,
            bg: self.bg_color,
        }
    }

    /// The cursor is on the grid and the grid has its fixed size.
    pub open spec fn wf(&self) -> bool {
        console_wf(self@)
    }

    /// A blank console with the cursor at the top-left corner and default
    /// colors.
    pub fn new() -> (r: Console)
        ensures
            r.wf(),
            r@.x == 0,
            r@.y == 0,
            r@.fg == DEFAULT_FG,
            r@.bg == DEFAULT_BG,
            forall|i: int| 0 <= i < r@.cells.len() ==> r@.cells[i] == BLANK,
    {
        let mut cells: Vec<u8> = Vec::new();
        let total = CONSOLE_COLS * CONSOLE_ROWS;
        let mut i: usize = 0;
        while i < total
            invariant
                i <= total,
                cells@.len() == i,
                forall|j: int| 0 <= j < i ==> cells@[j] == BLANK,
            decreases total - i,
        {
            cells.push(BLANK);
            i = i + 1;
        }
        Console { cursor_x: 0, cursor_y: 0, fg_color: DEFAULT_FG, bg_color: DEFAULT_BG, cells }
    }

    /// Clears the whole grid and returns the cursor to the top-left corner;
    /// the colors stay.
    pub fn clear(&mut self)
        requires
            old(self).wf(),
        ensures
            final(self).wf(),
            final(self)@.x == 0,
            final(self)@.y == 0,
            final(self)@.fg == old(self)@.fg,
            final(self)@.bg == old(self)@.bg,
            forall|i: int|
                0 <= i < final(self)@.cells.len() ==> final(self)@.cells[i] == BLANK,
            final(self)@.cells.len() == old(self)@.cells.len(),
    {
        let total = CONSOLE_COLS * CONSOLE_ROWS;
        let mut i: usize = 0;
        while i < total
            invariant
                i <= total,
                self.cells@.len() == total,
                forall|j: int| 0 <= j < i ==> self.cells@[j] == BLANK,
                self.cursor_x == old(self).cursor_x,
                self.cursor_y == old(self).cursor_y,
                self.fg_color == old(self).fg_color,
                self.bg_color == old(self).bg_color,
            decreases total - i,
        {
            self.cells.set(i, BLANK);
            i = i + 1;
        }
        self.cursor_x = 0;
        self.cursor_y = 0;
    }

    /// Sets the foreground color from its three channels.
    pub fn set_fg(&mut self, r: u8, g: u8, b: u8)
        ensures
            final(self)@ == (ConsoleModel { fg: rgb(r, g, b), ..old(self)@ }),
    {
        self.fg_color = ((r as u32) << 16) | ((g as u32) << 8) | (b as u32);
    }

    /// Sets the background color from its three channels.
    pub fn set_bg(&mut self, r: u8, g: u8, b: u8)
        ensures
            final(self)@ == (ConsoleModel { bg: rgb(r, g, b), ..old(self)@ }),
    {
        self.bg_color = ((r as u32) << 16) | ((g as u32) << 8) | (b as u32);
    }

    /// The cursor position, column then row.
    pub fn cursor(&self) -> (r: (usize, usize))
        ensures
            r.0 == self@.x,
            r.1 == self@.y,
    {
        (self.cursor_x, self.cursor_y)
    }

    /// The current colors, foreground then background.
    pub fn colors(&self) -> (r: (u32, u32))
        ensures
            r.0 == self@.fg,
            r.1 == self@.bg,
    {
        (self.fg_color, self.bg_color)
    }

    /// The character currently stored at a cell, for the renderer.
    pub fn cell_at(&self, x: usize, y: usize) -> (r: u8)
        requires
            self.wf(),
            x < CONSOLE_COLS,
            y < CONSOLE_ROWS,
        ensures
            r == self@.cells[cell_index(x as int, y as int)],
    {
        proof {
            lemma_cell_index_bounds(x as int, y as int);
        }
        self.cells[y * CONSOLE_COLS + x]
    }

    /// Scrolls one line up. The cursor may sit past an edge here: `newline`
    /// calls this while the cursor is still off the bottom of the grid.
    fn scroll(&mut self)
        requires
            old(self)@.cells.len() == CONSOLE_COLS * CONSOLE_ROWS,
        ensures
            final(self)@ == scroll_spec(old(self)@),
    {
        let total = CONSOLE_COLS * CONSOLE_ROWS;
        let shift = total - CONSOLE_COLS;
        let mut i: usize = 0;
        while i < shift
            invariant
                i <= shift,
                shift == total - CONSOLE_COLS,
                total == CONSOLE_COLS * CONSOLE_ROWS,
                self.cells@.len() == total,
                forall|j: int| 0 <= j < i ==> self.cells@[j] == old(self).cells@[j + CONSOLE_COLS],
                forall|j: int| i <= j < total ==> self.cells@[j] == old(self).cells@[j],
                self.cursor_x == old(self).cursor_x,
                self.cursor_y == old(self).cursor_y,
                self.fg_color == old(self).fg_color,
                self.bg_color == old(self).bg_color,
            decreases shift - i,
        {
            let c = self.cells[i + CONSOLE_COLS];
            self.cells.set(i, c);
            i = i + 1;
        }
        let mut k: usize = shift;
        while k < total
            invariant
                shift <= k <= total,
                shift == total - CONSOLE_COLS,
                total == CONSOLE_COLS * CONSOLE_ROWS,
                self.cells@.len() == total,
                forall|j: int|
                    0 <= j < shift ==> self.cells@[j] == old(self).cells@[j + CONSOLE_COLS],
                forall|j: int| shift <= j < k ==> self.cells@[j] == BLANK,
                self.cursor_x == old(self).cursor_x,
                self.cursor_y == old(self).cursor_y,
                self.fg_color == old(self).fg_color,
                self.bg_color == old(self).bg_color,
            decreases total - k,
        {
            self.cells.set(k, BLANK);
            k = k + 1;
        }
        proof {
            assert(self@.cells =~= scroll_spec(old(self)@).cells);
            assert(self@ == scroll_spec(old(self)@));
        }
    }

    /// Moves the cursor to the start of the next line, scrolling at the
    /// bottom.
    pub fn newline(&mut self)
        requires
            0 <= old(self)@.y < CONSOLE_ROWS,
            old(self)@.cells.len() == CONSOLE_COLS * CONSOLE_ROWS,
        ensures
            final(self).wf(),
            final(self)@ == newline_spec(old(self)@),
    {
        self.cursor_x = 0;
        self.cursor_y = self.cursor_y + 1;
        if self.cursor_y >= CONSOLE_ROWS {
            self.scroll();
            self.cursor_y = CONSOLE_ROWS - 1;
        }
    }

    /// Draws one printable character at the cursor and advances it.
    fn put_glyph(&mut self, c: u8)
        requires
            old(self).wf(),
        ensures
            final(self).wf(),
            final(self)@ == put_glyph_spec(old(self)@, c),
    {
        proof {
            lemma_cell_index_bounds(self.cursor_x as int, self.cursor_y as int);
        }
        let idx = self.cursor_y * CONSOLE_COLS + self.cursor_x;
        self.cells.set(idx, c);
        self.cursor_x = self.cursor_x + 1;
        if self.cursor_x >= CONSOLE_COLS {
            self.newline();
        }
    }

    /// Deletes the character before the cursor.
    pub fn backspace(&mut self)
        requires
            old(self).wf(),
        ensures
            final(self).wf(),
            final(self)@ == backspace_spec(old(self)@),
    {
        if self.cursor_x > 0 {
            self.cursor_x = self.cursor_x - 1;
            proof {
                lemma_cell_index_bounds(self.cursor_x as int, self.cursor_y as int);
            }
            let idx = self.cursor_y * CONSOLE_COLS + self.cursor_x;
            self.cells.set(idx, BLANK);
        } else if self.cursor_y > 0 {
            self.cursor_y = self.cursor_y - 1;
            self.cursor_x = CONSOLE_COLS - 1;
            proof {
                lemma_cell_index_bounds(self.cursor_x as int, self.cursor_y as int);
            }
            let idx = self.cursor_y * CONSOLE_COLS + self.cursor_x;
            self.cells.set(idx, BLANK);
        }
    }

    /// Prints one character: newline, carriage return, tab, backspace, or a
    /// printable glyph.
    pub fn putc(&mut self, c: u8)
        requires
            old(self).wf(),
        ensures
            final(self).wf(),
            final(self)@ == putc_spec(old(self)@, c),
    {
        if c == 10 {
            self.newline();
        } else if c == 13 {
            self.cursor_x = 0;
        } else if c == 9 {
            let n = 8 - self.cursor_x % 8;
            let ghost n0 = n as nat;
            let mut k: usize = 0;
            while k < n
                invariant
                    k <= n,
                    n0 == n as nat,
                    self.wf(),
                    put_spaces_spec(old(self)@, n0) == put_spaces_spec(self@, (n0 - k) as nat),
                decreases n - k,
            {
                self.put_glyph(BLANK);
                k = k + 1;
            }
        } else if c == 8 {
            self.backspace();
        } else {
            self.put_glyph(c);
        }
    }

    /// Prints a byte string.
    pub fn puts(&mut self, s: &[u8])
        requires
            old(self).wf(),
        ensures
            final(self).wf(),
            final(self)@ == puts_spec(old(self)@, s@),
    {
        proof {
            assert(s@.subrange(0, s@.len() as int) =~= s@);
        }
        let mut i: usize = 0;
        while i < s.len()
            invariant
                i <= s@.len(),
                self.wf(),
                puts_spec(old(self)@, s@) == puts_spec(self@, s@.subrange(i as int, s@.len() as int)),
            decreases s@.len() - i,
        {
            let ghost rest = s@.subrange(i as int, s@.len() as int);
            self.putc(s[i]);
            proof {
                assert(rest[0] == s@[i as int]);
                assert(rest.drop_first() =~= s@.subrange(i + 1 as int, s@.len() as int));
            }
            i = i + 1;
        }
        proof {
            assert(s@.subrange(s@.len() as int, s@.len() as int) =~= Seq::<u8>::empty());
        }
    }

    /// Prints a byte string followed by a newline.
    pub fn println(&mut self, s: &[u8])
        requires
            old(self).wf(),
        ensures
            final(self).wf(),
            final(self)@ == println_spec(old(self)@, s@),
    {
        self.puts(s);
        self.newline();
    }
}

/// A cursor on the grid indexes a cell inside it.
proof fn lemma_cell_index_bounds(x: int, y: int)
    requires
        0 <= x < CONSOLE_COLS,
        0 <= y < CONSOLE_ROWS,
    ensures
        0 <= cell_index(x, y) < CONSOLE_COLS * CONSOLE_ROWS,
{
    assert(y * (CONSOLE_COLS as int) <= (CONSOLE_ROWS - 1) * (CONSOLE_COLS as int));
}

} // verus!
