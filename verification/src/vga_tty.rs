//! A terminal on the VGA text screen of 80 columns and 25 rows.
//!
//! The terminal holds the screen's cells itself; whoever owns the machine
//! copies them to the video memory. Output starts at the top left, wraps at
//! the right edge, and scrolls by one row when it runs off the bottom.

use vstd::prelude::*;
use crate::stdio::Console;
use crate::string::{lemma_text_length, text, text_length};
use crate::vga::{entry, entry_color, vga_entry, vga_entry_color, VGA_COLOR_BLACK, VGA_COLOR_LIGHT_GREY};

verus! {

/// Columns of the screen.
pub const VGA_WIDTH: usize = 80;

/// Rows of the screen.
pub const VGA_HEIGHT: usize = 25;

/// Cells of the screen.
pub const VGA_CELLS: usize = 2000;

/// Address of the video memory that the cells belong to.
pub const VGA_BUFFER_ADDR: usize = 0xB8000;

/// The line feed.
pub const NEWLINE: u8 = 0x0A;

/// The character of an empty cell.
pub const SPACE: u8 = 0x20;

/// What a terminal is made of: where the next character goes, the colours
/// that it gets, and the cells of the screen, row by row.
pub struct Screen {
    pub row: nat,
    pub column: nat,
    pub color: u8,
    pub cells: Seq<u16>,
}

/// The blank screen in light grey on black, with the cursor at the top left.
pub open spec fn cleared() -> Screen {
    Screen {
        row: 0,
        column: 0,
        color: entry_color(VGA_COLOR_LIGHT_GREY, VGA_COLOR_BLACK),
        cells: Seq::new(
            VGA_CELLS as nat,
            |i: int| entry(SPACE, entry_color(VGA_COLOR_LIGHT_GREY, VGA_COLOR_BLACK)),
        ),
    }
}

/// The cells after the screen has moved up by one row: every row holds what
/// the row below it held, and the last row is blank in the colours `color`.
pub open spec fn moved_up(cells: Seq<u16>, color: u8) -> Seq<u16> {
    Seq::new(
        VGA_CELLS as nat,
        |i: int|
            if i < VGA_CELLS - VGA_WIDTH {
                cells[i + VGA_WIDTH]
            } else {
                entry(SPACE, color)
            },
    )
}

/// The cells after the last row has been zeroed.
pub open spec fn last_line_deleted(cells: Seq<u16>) -> Seq<u16> {
    Seq::new(
        VGA_CELLS as nat,
        |i: int|
            if i < VGA_CELLS - VGA_WIDTH {
                cells[i]
            } else {
                0u16
            },
    )
}

/// The screen after the cursor has gone to the start of the next row. From
/// the last row it stays there, and the screen moves up instead.
pub open spec fn line_fed(screen: Screen) -> Screen {
    if screen.row + 1 == VGA_HEIGHT {
        Screen { column: 0, cells: moved_up(screen.cells, screen.color), ..screen }
    } else {
        Screen { row: screen.row + 1, column: 0, ..screen }
    }
}

/// The screen after byte `c` has been written to it.
///
/// A line feed only moves the cursor. Any other byte is shown at the
/// cursor, which then goes one cell to the right, and from the last column
/// to the start of the next row.
pub open spec fn put(screen: Screen, c: u8) -> Screen {
    if c == NEWLINE {
        line_fed(screen)
    } else {
        let shown = Screen {
            cells: screen.cells.update(
                screen.row * VGA_WIDTH + screen.column,
                entry(c, screen.color),
            ),
            ..screen
        };
        if screen.column + 1 == VGA_WIDTH {
            line_fed(shown)
        } else {
            Screen { column: screen.column + 1, ..shown }
        }
    }
}

/// The screen after the bytes of `bytes` have been written to it one by one.
pub open spec fn put_all(screen: Screen, bytes: Seq<u8>) -> Screen
    decreases bytes.len(),
{
    if bytes.len() == 0 {
        screen
    } else {
        put(put_all(screen, bytes.drop_last()), bytes.last())
    }
}

/// Whether the cursor of `screen` is on the screen and the cells are as many
/// as the screen has.
pub open spec fn on_screen(screen: Screen) -> bool {
    &&& screen.row < VGA_HEIGHT
    &&& screen.column < VGA_WIDTH
    &&& screen.cells.len() == VGA_CELLS
}

/// The text-mode terminal.
#[derive(Debug)]
pub struct Terminal {
    row: usize,
    column: usize,
    color: u8,
    cells: [u16; 2000],
}

impl View for Terminal {
    type V = Screen;

    closed spec fn view(&self) -> Screen {
        Screen {
            row: self.row as nat,
            column: self.column as nat,
            color: self.color,
            cells: self.cells@,
        }
    }
}

impl Terminal {
    /// The cursor is on the screen.
    #[verifier::type_invariant]
    spec fn wf(&self) -> bool {
        self.row < VGA_HEIGHT && self.column < VGA_WIDTH
    }

    /// A terminal on a blank screen, light grey on black.
    pub fn new() -> (term: Self)
        ensures
            term@ == cleared(),
    {
        let color: u8 = vga_entry_color(VGA_COLOR_LIGHT_GREY, VGA_COLOR_BLACK);
        let blank: u16 = vga_entry(SPACE, color);
        let term = Terminal { row: 0, column: 0, color, cells: [blank; 2000] };
        assert(term.cells@ =~= cleared().cells);
        term
    }

    /// The row of the cursor.
    pub fn row(&self) -> (row: usize)
        ensures
            row == self@.row,
            row < VGA_HEIGHT,
    {
        proof {
            use_type_invariant(self);
        }
        self.row
    }

    /// The column of the cursor.
    pub fn column(&self) -> (column: usize)
        ensures
            column == self@.column,
            column < VGA_WIDTH,
    {
        proof {
            use_type_invariant(self);
        }
        self.column
    }

    /// The colours that the next character gets.
    pub fn color(&self) -> (color: u8)
        ensures
            color == self@.color,
    {
        self.color
    }

    /// The cells of the screen, row by row.
    pub fn cells(&self) -> (cells: &[u16; 2000])
        ensures
            cells@ == self@.cells,
    {
        &self.cells
    }

    /// Sets the colours that the characters written from now on get.
    pub fn set_color(&mut self, color: u8)
        ensures
            final(self)@ == (Screen { color, ..old(self)@ }),
    {
        proof {
            use_type_invariant(&*self);
        }
        self.color = color;
    }

    /// Shows character `c` in the colours `color` in column `x` of row `y`.
    /// The cursor stays where it is.
    pub fn put_entry_at(&mut self, c: u8, color: u8, x: usize, y: usize)
        requires
            y * VGA_WIDTH + x < VGA_CELLS,
        ensures
            final(self)@ == (Screen {
                cells: old(self)@.cells.update(y * VGA_WIDTH + x, entry(c, color)),
                ..old(self)@
            }),
    {
        proof {
            use_type_invariant(&*self);
        }
        self.cells[y * VGA_WIDTH + x] = vga_entry(c, color);
    }

    /// Moves the screen up by one row and blanks the last row in the current
    /// colours.
    fn move_up(&mut self)
        ensures
            final(self)@ == (Screen {
                cells: moved_up(old(self)@.cells, old(self)@.color),
                ..old(self)@
            }),
    {
        proof {
            use_type_invariant(&*self);
        }
        let mut y: usize = 1;
        while y < VGA_HEIGHT
            invariant
                1 <= y <= VGA_HEIGHT,
                self.row == old(self).row < VGA_HEIGHT,
                self.column == old(self).column < VGA_WIDTH,
                self.color == old(self).color,
                forall|i: int|
                    0 <= i < (y - 1) * VGA_WIDTH ==> #[trigger] self.cells@[i] == old(
                        self,
                    ).cells@[i + VGA_WIDTH],
                forall|i: int|
                    (y - 1) * VGA_WIDTH <= i < VGA_CELLS ==> #[trigger] self.cells@[i] == old(
                        self,
                    ).cells@[i],
            decreases VGA_HEIGHT - y,
        {
            let mut x: usize = 0;
            while x < VGA_WIDTH
                invariant
                    1 <= y < VGA_HEIGHT,
                    x <= VGA_WIDTH,
                    self.row == old(self).row < VGA_HEIGHT,
                    self.column == old(self).column < VGA_WIDTH,
                    self.color == old(self).color,
                    forall|i: int|
                        0 <= i < (y - 1) * VGA_WIDTH + x ==> #[trigger] self.cells@[i] == old(
                            self,
                        ).cells@[i + VGA_WIDTH],
                    forall|i: int|
                        (y - 1) * VGA_WIDTH + x <= i < VGA_CELLS ==> #[trigger] self.cells@[i]
                            == old(self).cells@[i],
                decreases VGA_WIDTH - x,
            {
                self.cells[(y - 1) * VGA_WIDTH + x] = self.cells[y * VGA_WIDTH + x];
                x += 1;
            }
            y += 1;
        }
        let blank: u16 = vga_entry(SPACE, self.color);
        let mut x: usize = 0;
        while x < VGA_WIDTH
            invariant
                x <= VGA_WIDTH,
                self.row == old(self).row < VGA_HEIGHT,
                self.column == old(self).column < VGA_WIDTH,
                self.color == old(self).color,
                blank == entry(SPACE, self.color),
                forall|i: int|
                    0 <= i < VGA_CELLS - VGA_WIDTH ==> #[trigger] self.cells@[i] == old(
                        self,
                    ).cells@[i + VGA_WIDTH],
                forall|i: int|
                    VGA_CELLS - VGA_WIDTH <= i < VGA_CELLS - VGA_WIDTH + x
                        ==> #[trigger] self.cells@[i] == blank,
            decreases VGA_WIDTH - x,
        {
            self.cells[(VGA_HEIGHT - 1) * VGA_WIDTH + x] = blank;
            x += 1;
        }
        assert(self.cells@ =~= moved_up(old(self).cells@, old(self).color));
    }

    /// Zeroes the cells of the last row.
    pub fn delete_last_line(&mut self)
        ensures
            final(self)@ == (Screen { cells: last_line_deleted(old(self)@.cells), ..old(self)@ }),
    {
        proof {
            use_type_invariant(&*self);
        }
        let mut x: usize = 0;
        while x < VGA_WIDTH
            invariant
                x <= VGA_WIDTH,
                self.row == old(self).row < VGA_HEIGHT,
                self.column == old(self).column < VGA_WIDTH,
                self.color == old(self).color,
                forall|i: int|
                    0 <= i < VGA_CELLS - VGA_WIDTH ==> #[trigger] self.cells@[i] == old(
                        self,
                    ).cells@[i],
                forall|i: int|
                    VGA_CELLS - VGA_WIDTH <= i < VGA_CELLS - VGA_WIDTH + x
                        ==> #[trigger] self.cells@[i] == 0,
            decreases VGA_WIDTH - x,
        {
            self.cells[(VGA_HEIGHT - 1) * VGA_WIDTH + x] = 0;
            x += 1;
        }
        assert(self.cells@ =~= last_line_deleted(old(self).cells@));
    }

    /// Takes the cursor to the start of the next row, and moves the screen
    /// up if there is none.
    fn line_feed(&mut self)
        ensures
            final(self)@ == line_fed(old(self)@),
    {
        proof {
            use_type_invariant(&*self);
        }
        self.column = 0;
        if self.row + 1 == VGA_HEIGHT {
            self.move_up();
        } else {
            self.row += 1;
        }
    }

    /// Writes byte `c` at the cursor.
    pub fn write(&mut self, c: u8)
        ensures
            final(self)@ == put(old(self)@, c),
    {
        proof {
            use_type_invariant(&*self);
        }
        if c == NEWLINE {
            self.line_feed();
        } else {
            self.put_entry_at(c, self.color, self.column, self.row);
            if self.column + 1 == VGA_WIDTH {
                self.line_feed();
            } else {
                self.column += 1;
            }
        }
    }

    /// Writes the bytes of `s` up to its first zero byte, or all of them if
    /// it holds none.
    pub fn write_string(&mut self, s: &[u8])
        ensures
            final(self)@ == put_all(old(self)@, text(s@)),
    {
        let mut i: usize = 0;
        while i < s.len() && s[i] != 0
            invariant
                i <= s.len(),
                i <= text_length(s@),
                self@ == put_all(old(self)@, s@.take(i as int)),
            decreases s.len() - i,
        {
            proof {
                lemma_text_length(s@, i as nat);
                assert(s@.take(i + 1).drop_last() =~= s@.take(i as int));
            }
            self.write(s[i]);
            i += 1;
        }
        proof {
            lemma_text_length(s@, i as nat);
        }
    }
}

impl Console for Terminal {
    type State = Screen;

    open spec fn state(&self) -> Screen {
        self@
    }

    open spec fn put(state: Screen, c: u8) -> Screen {
        put(state, c)
    }

    fn write(&mut self, c: u8) {
        Terminal::write(self, c)
    }
}

/// Writing keeps the cursor on the screen.
pub proof fn lemma_put_on_screen(screen: Screen, c: u8)
    requires
        on_screen(screen),
    ensures
        on_screen(put(screen, c)),
{
}

} // verus!
