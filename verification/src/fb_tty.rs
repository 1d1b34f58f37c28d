//! A terminal on a framebuffer of 32-bit pixels.
//!
//! Characters are cells of 8 by 16 pixels, drawn from a bitmap font. The
//! terminal learns the size of its grid from the display when it first has
//! to write, and writes nothing while no display is published.
//!
//! The pixels are handed in as a slice that covers the framebuffer row by
//! row; a row of pixels takes up a quarter of the display's pitch.

use vstd::prelude::*;
use vstd::arithmetic::div_mod::{lemma_fundamental_div_mod, lemma_fundamental_div_mod_converse};
use vstd::arithmetic::mul::lemma_mul_inequality;
use crate::boot::{framebuffer_info, Display, FramebufferInfo};
use crate::stdio::Console;
use crate::string::{lemma_text_length, text, text_length};

verus! {

/// Width of a character cell, in pixels.
pub const FONT_WIDTH: usize = 8;

/// Height of a character cell, in pixels.
pub const FONT_HEIGHT: usize = 16;

/// The bitmap of one character: a byte for each row of its cell, the
/// leftmost pixel in the highest bit.
pub type Glyph = [u8; 16];

/// The bitmaps of all 256 characters.
pub type Font = [Glyph; 256];

/// The sixteen VGA colours as pixels of the form `0x00RRGGBB`.
pub const VGA_PALETTE: [u32; 16] = [
    0x000000, 0x0000AA, 0x00AA00, 0x00AAAA, 0xAA0000, 0xAA00AA, 0xAA5500, 0xAAAAAA, 0x555555,
    0x5555FF, 0x55FF55, 0x55FFFF, 0xFF5555, 0xFF55FF, 0xFFFF55, 0xFFFFFF,
];

/// The line feed.
pub const NEWLINE: u8 = 0x0A;

/// What the terminal keeps: the cursor, the two colours, and the size of the
/// grid, which is zero by zero until the display is known.
pub struct Cursor {
    pub row: nat,
    pub column: nat,
    pub fg: u32,
    pub bg: u32,
    pub cols: nat,
    pub rows: nat,
}

/// The pixels in one row of the framebuffer, those beyond the visible width
/// counted in.
pub open spec fn stride(info: FramebufferInfo) -> int {
    (info.pitch / 4) as int
}

/// Whether a framebuffer described by `info` lies within `pixels` pixels of
/// memory, and its numbers within what the machine can count.
///
/// The pitch is a whole number of pixels and no less than the width, and a
/// display that is wide enough for a character is high enough for one too.
pub open spec fn fits(info: FramebufferInfo, pixels: int) -> bool {
    &&& info.pitch % 4 == 0
    &&& info.width <= stride(info)
    &&& info.height * stride(info) <= pixels
    &&& info.width >= FONT_WIDTH ==> info.height >= FONT_HEIGHT
    &&& info.width <= usize::MAX
    &&& info.height <= usize::MAX
    &&& info.pitch <= usize::MAX
}

/// Whether `display`, if it is published, fits `pixels` pixels of memory.
pub open spec fn usable(display: Option<FramebufferInfo>, pixels: int) -> bool {
    display matches Some(info) ==> fits(info, pixels)
}

/// Whether a terminal that knows the size of its grid has it from `display`.
pub open spec fn bound_to(cursor: Cursor, display: Option<FramebufferInfo>) -> bool {
    cursor.cols != 0 ==> (display matches Some(info) && cursor.cols == info.width / 8
        && cursor.rows == info.height / 16)
}

/// The foreground colour that the attribute byte `color` names: the colour
/// of its low four bits.
pub open spec fn foreground(color: u8) -> u32 {
    VGA_PALETTE@[(color % 16) as int]
}

/// The background colour that the attribute byte `color` names: the colour
/// of its high four bits.
pub open spec fn background(color: u8) -> u32 {
    VGA_PALETTE@[(color / 16) as int]
}

/// The terminal before anything is known of the display: light grey on
/// black, the cursor at the top left.
pub open spec fn initial() -> Cursor {
    Cursor { row: 0, column: 0, fg: 0xAAAAAA, bg: 0x000000, cols: 0, rows: 0 }
}

/// The terminal once it has looked at `display` for the size of its grid,
/// which it does only while it does not know it.
pub open spec fn sized(cursor: Cursor, display: Option<FramebufferInfo>) -> Cursor {
    match display {
        Some(info) if cursor.cols == 0 => Cursor {
            cols: (info.width / 8) as nat,
            rows: (info.height / 16) as nat,
            ..cursor
        },
        _ => cursor,
    }
}

/// Whether the bitmap `glyph` has the pixel in column `gx` of row `gy` of its
/// cell set.
pub open spec fn lit(glyph: Glyph, gx: int, gy: int) -> bool
    recommends
        0 <= gx < FONT_WIDTH,
        0 <= gy < FONT_HEIGHT,
{
    glyph@[gy] & (0x80u8 >> (gx as u8)) != 0
}

/// The pixels after `glyph` is drawn into the cell in column `col` of row
/// `row`: within the cell a pixel is `fg` where the bitmap has it set and
/// `bg` elsewhere, and every pixel outside the cell is as before.
pub open spec fn drawn(
    pixels: Seq<u32>,
    stride: int,
    glyph: Glyph,
    fg: u32,
    bg: u32,
    col: int,
    row: int,
) -> Seq<u32> {
    Seq::new(
        pixels.len(),
        |i: int|
            {
                let x = i % stride;
                let y = i / stride;
                if col * FONT_WIDTH <= x < (col + 1) * FONT_WIDTH && row * FONT_HEIGHT <= y < (row
                    + 1) * FONT_HEIGHT {
                    if lit(glyph, x - col * FONT_WIDTH, y - row * FONT_HEIGHT) {
                        fg
                    } else {
                        bg
                    }
                } else {
                    pixels[i]
                }
            },
    )
}

/// The pixels after the first `n` of them have been set to `bg`.
pub open spec fn filled(pixels: Seq<u32>, n: int, bg: u32) -> Seq<u32> {
    Seq::new(
        pixels.len(),
        |i: int|
            if i < n {
                bg
            } else {
                pixels[i]
            },
    )
}

/// The pixels after a grid of `rows` rows has moved up by one row: every row
/// of cells holds what the row below it held, and the last row is filled
/// with `bg`. What lies below the grid is as before.
pub open spec fn moved_up(pixels: Seq<u32>, stride: int, rows: int, bg: u32) -> Seq<u32> {
    Seq::new(
        pixels.len(),
        |i: int|
            if i < (rows - 1) * (FONT_HEIGHT * stride) {
                pixels[i + FONT_HEIGHT * stride]
            } else if i < rows * (FONT_HEIGHT * stride) {
                bg
            } else {
                pixels[i]
            },
    )
}

/// A terminal and the pixels that it draws on.
pub struct Frame {
    pub cursor: Cursor,
    pub pixels: Seq<u32>,
}

/// The frame after the cursor has gone to the start of the next row. From
/// the last row it stays there, and the grid moves up instead.
pub open spec fn line_fed(frame: Frame, stride: int) -> Frame {
    if frame.cursor.row + 1 >= frame.cursor.rows {
        Frame {
            cursor: Cursor { column: 0, ..frame.cursor },
            pixels: moved_up(frame.pixels, stride, frame.cursor.rows as int, frame.cursor.bg),
        }
    } else {
        Frame {
            cursor: Cursor { row: frame.cursor.row + 1, column: 0, ..frame.cursor },
            pixels: frame.pixels,
        }
    }
}

/// The frame after byte `c` has been written.
///
/// The terminal first takes the size of its grid from the display if it
/// does not know it, and writes nothing if it still does not. A line feed
/// only moves the cursor. Any other byte is drawn at the cursor, which then
/// goes one cell to the right, and from the last column to the start of the
/// next row.
pub open spec fn put(frame: Frame, c: u8, display: Option<FramebufferInfo>, font: Font) -> Frame {
    let cursor = sized(frame.cursor, display);
    match display {
        Some(info) if cursor.cols != 0 => {
            if c == NEWLINE {
                line_fed(Frame { cursor, pixels: frame.pixels }, stride(info))
            } else {
                let shown = drawn(
                    frame.pixels,
                    stride(info),
                    font@[c as int],
                    cursor.fg,
                    cursor.bg,
                    cursor.column as int,
                    cursor.row as int,
                );
                if cursor.column + 1 >= cursor.cols {
                    line_fed(Frame { cursor, pixels: shown }, stride(info))
                } else {
                    Frame { cursor: Cursor { column: cursor.column + 1, ..cursor }, pixels: shown }
                }
            }
        },
        _ => Frame { cursor, pixels: frame.pixels },
    }
}

/// The frame after the bytes of `bytes` have been written one by one.
pub open spec fn put_all(frame: Frame, bytes: Seq<u8>, display: Option<FramebufferInfo>, font: Font) -> Frame
    decreases bytes.len(),
{
    if bytes.len() == 0 {
        frame
    } else {
        put(put_all(frame, bytes.drop_last(), display, font), bytes.last(), display, font)
    }
}

/// Whether the cell in column `x` of row `y` lies on a display described by
/// `info`.
pub open spec fn cell_on_display(info: FramebufferInfo, x: int, y: int) -> bool {
    (x + 1) * FONT_WIDTH <= info.width && (y + 1) * FONT_HEIGHT <= info.height
}

/// The pixel in column `x` of row `y` has index `y * stride + x`, and no
/// other pixel has.
pub proof fn lemma_pixel_index(stride: int, x: int, y: int)
    requires
        0 <= x < stride,
        0 <= y,
    ensures
        (y * stride + x) / stride == y,
        (y * stride + x) % stride == x,
{
    lemma_fundamental_div_mod_converse(y * stride + x, stride, y, x);
}

/// A cell on the display lies within the pixels of a framebuffer that fits
/// them.
pub proof fn lemma_cell_in_pixels(
    info: FramebufferInfo,
    pixels: int,
    x: int,
    y: int,
    gx: int,
    gy: int,
)
    requires
        fits(info, pixels),
        cell_on_display(info, x, y),
        0 <= x,
        0 <= y,
        0 <= gx < FONT_WIDTH,
        0 <= gy < FONT_HEIGHT,
    ensures
        x * FONT_WIDTH + gx < stride(info),
        (y * FONT_HEIGHT + gy) * stride(info) + x * FONT_WIDTH + gx < pixels,
{
    let s = stride(info);
    let line = y * FONT_HEIGHT + gy;
    lemma_mul_inequality(line + 1, info.height as int, s);
    assert((line + 1) * s == line * s + s) by (nonlinear_arith);
}

/// The framebuffer-backed terminal.
#[derive(Debug)]
pub struct Terminal {
    row: usize,
    column: usize,
    fg: u32,
    bg: u32,
    cols: usize,
    rows: usize,
}

impl View for Terminal {
    type V = Cursor;

    closed spec fn view(&self) -> Cursor {
        Cursor {
            row: self.row as nat,
            column: self.column as nat,
            fg: self.fg,
            bg: self.bg,
            cols: self.cols as nat,
            rows: self.rows as nat,
        }
    }
}

/// Whether the cursor of a terminal that knows its grid is on it.
pub open spec fn on_grid(cursor: Cursor) -> bool {
    if cursor.cols == 0 {
        cursor.row == 0 && cursor.column == 0
    } else {
        cursor.row < cursor.rows && cursor.column < cursor.cols
    }
}

impl Terminal {
    /// The cursor is on the grid.
    #[verifier::type_invariant]
    spec fn wf(&self) -> bool {
        on_grid(self@)
    }

    /// A terminal that knows nothing of the display yet.
    pub fn new() -> (term: Self)
        ensures
            term@ == initial(),
    {
        Terminal { row: 0, column: 0, fg: 0xAAAAAA, bg: 0x000000, cols: 0, rows: 0 }
    }

    /// The row of the cursor.
    pub fn row(&self) -> (row: usize)
        ensures
            row == self@.row,
    {
        self.row
    }

    /// The column of the cursor.
    pub fn column(&self) -> (column: usize)
        ensures
            column == self@.column,
    {
        self.column
    }

    /// The colour of the characters.
    pub fn fg(&self) -> (fg: u32)
        ensures
            fg == self@.fg,
    {
        self.fg
    }

    /// The colour behind the characters.
    pub fn bg(&self) -> (bg: u32)
        ensures
            bg == self@.bg,
    {
        self.bg
    }

    /// The columns of the grid, 0 while the display is not known.
    pub fn cols(&self) -> (cols: usize)
        ensures
            cols == self@.cols,
    {
        self.cols
    }

    /// The rows of the grid.
    pub fn rows(&self) -> (rows: usize)
        ensures
            rows == self@.rows,
    {
        self.rows
    }

    /// Takes the size of the grid from the display, unless it is known
    /// already or no display is published.
    fn ensure_dims(&mut self, display: &Display)
        requires
            display@ matches Some(info) ==> info.width <= usize::MAX && info.height <= usize::MAX
                && (info.width >= FONT_WIDTH ==> info.height >= FONT_HEIGHT),
        ensures
            final(self)@ == sized(old(self)@, display@),
    {
        proof {
            use_type_invariant(&*self);
        }
        if self.cols == 0 {
            if let Some(fb) = framebuffer_info(display) {
                self.rows = fb.height as usize / FONT_HEIGHT;
                self.cols = fb.width as usize / FONT_WIDTH;
            }
        }
    }

    /// Sets both colours from a VGA attribute byte: the foreground from its
    /// low four bits, the background from its high four bits.
    pub fn set_color(&mut self, color: u8)
        ensures
            final(self)@ == (Cursor {
                fg: foreground(color),
                bg: background(color),
                ..old(self)@
            }),
    {
        proof {
            use_type_invariant(&*self);
        }
        assert(color & 0x0F == color % 16) by (bit_vector);
        assert((color >> 4) & 0x0F == color / 16) by (bit_vector);
        self.fg = VGA_PALETTE[(color & 0x0F) as usize];
        self.bg = VGA_PALETTE[((color >> 4) & 0x0F) as usize];
    }

    /// Fills the display with the background colour and takes the cursor to
    /// the top left. The size of the grid is taken from the display anew.
    /// Nothing happens while no display is published.
    pub fn clear(&mut self, display: &Display, pixels: &mut [u32])
        requires
            usable(display@, old(pixels)@.len() as int),
        ensures
            match display@ {
                Some(info) => final(self)@ == (Cursor {
                    row: 0,
                    column: 0,
                    cols: (info.width / 8) as nat,
                    rows: (info.height / 16) as nat,
                    ..old(self)@
                }) && final(pixels)@ == filled(
                    old(pixels)@,
                    info.height * stride(info),
                    old(self)@.bg,
                ),
                None => final(self)@ == old(self)@ && final(pixels)@ == old(pixels)@,
            },
    {
        proof {
            use_type_invariant(&*self);
        }
        if let Some(fb) = framebuffer_info(display) {
            self.row = 0;
            self.column = 0;
            self.cols = 0;
            self.rows = fb.height as usize / FONT_HEIGHT;
            self.cols = fb.width as usize / FONT_WIDTH;
            let size: usize = pixels.len();
            let count: usize = fb.height as usize * (fb.pitch as usize / 4);
            let mut i: usize = 0;
            while i < count
                invariant
                    i <= count <= pixels@.len(),
                    pixels@.len() == old(pixels)@.len(),
                    on_grid(self@),
                    pixels@ == filled(old(pixels)@, i as int, self.bg),
                decreases count - i,
            {
                pixels[i] = self.bg;
                i += 1;
            }
        }
    }

    /// Draws character `c` into the cell in column `x` of row `y`, in the
    /// colours that the attribute byte `color` names. Nothing happens while
    /// no display is published.
    pub fn put_entry_at(
        &self,
        c: u8,
        color: u8,
        x: usize,
        y: usize,
        display: &Display,
        pixels: &mut [u32],
        font: &Font,
    )
        requires
            usable(display@, old(pixels)@.len() as int),
            display@ matches Some(info) ==> cell_on_display(info, x as int, y as int),
        ensures
            match display@ {
                Some(info) => final(pixels)@ == drawn(
                    old(pixels)@,
                    stride(info),
                    font@[c as int],
                    foreground(color),
                    background(color),
                    x as int,
                    y as int,
                ),
                None => final(pixels)@ == old(pixels)@,
            },
    {
        assert(color & 0x0F == color % 16) by (bit_vector);
        assert((color >> 4) & 0x0F == color / 16) by (bit_vector);
        let fg: u32 = VGA_PALETTE[(color & 0x0F) as usize];
        let bg: u32 = VGA_PALETTE[((color >> 4) & 0x0F) as usize];
        self.draw_char(c, fg, bg, x, y, display, pixels, font);
    }

    /// Draws character `c` into the cell in column `col` of row `row`.
    fn draw_char(
        &self,
        c: u8,
        fg: u32,
        bg: u32,
        col: usize,
        row: usize,
        display: &Display,
        pixels: &mut [u32],
        font: &Font,
    )
        requires
            usable(display@, old(pixels)@.len() as int),
            display@ matches Some(info) ==> cell_on_display(info, col as int, row as int),
        ensures
            match display@ {
                Some(info) => final(pixels)@ == drawn(
                    old(pixels)@,
                    stride(info),
                    font@[c as int],
                    fg,
                    bg,
                    col as int,
                    row as int,
                ),
                None => final(pixels)@ == old(pixels)@,
            },
    {
        if let Some(fb) = framebuffer_info(display) {
            let glyph: &Glyph = &font[c as usize];
            let px: usize = col * FONT_WIDTH;
            let py: usize = row * FONT_HEIGHT;
            let row_pixels: usize = fb.pitch as usize / 4;
            let size: usize = pixels.len();
            let mut gy: usize = 0;
            while gy < FONT_HEIGHT
                invariant
                    gy <= FONT_HEIGHT,
                    fits(*fb, size as int),
                    cell_on_display(*fb, col as int, row as int),
                    row_pixels == stride(*fb),
                    px == col * FONT_WIDTH,
                    py == row * FONT_HEIGHT,
                    *glyph == font@[c as int],
                    pixels@.len() == size == old(pixels)@.len(),
                    forall|i: int|
                        0 <= i < size ==> #[trigger] pixels@[i] == (if px <= i % (row_pixels as int)
                            < px + FONT_WIDTH && py <= i / (row_pixels as int) < py + gy {
                            if lit(*glyph, i % (row_pixels as int) - px, i / (row_pixels as int) - py) {
                                fg
                            } else {
                                bg
                            }
                        } else {
                            old(pixels)@[i]
                        }),
                decreases FONT_HEIGHT - gy,
            {
                let bits: u8 = glyph[gy];
                let mut gx: usize = 0;
                while gx < FONT_WIDTH
                    invariant
                        gy < FONT_HEIGHT,
                        gx <= FONT_WIDTH,
                        fits(*fb, size as int),
                        cell_on_display(*fb, col as int, row as int),
                        row_pixels == stride(*fb),
                        px == col * FONT_WIDTH,
                        py == row * FONT_HEIGHT,
                        bits == glyph@[gy as int],
                        pixels@.len() == size == old(pixels)@.len(),
                        forall|i: int|
                            0 <= i < size ==> #[trigger] pixels@[i] == (if px <= i % (
                            row_pixels as int) < px + FONT_WIDTH && py <= i / (row_pixels as int) < py
                                + gy || (i / (row_pixels as int) == py + gy && px <= i % (
                            row_pixels as int) < px + gx) {
                                if lit(
                                    *glyph,
                                    i % (row_pixels as int) - px,
                                    i / (row_pixels as int) - py,
                                ) {
                                    fg
                                } else {
                                    bg
                                }
                            } else {
                                old(pixels)@[i]
                            }),
                    decreases FONT_WIDTH - gx,
                {
                    let pixel: u32 = if bits & (0x80u8 >> (gx as u8)) != 0 {
                        fg
                    } else {
                        bg
                    };
                    proof {
                        lemma_cell_in_pixels(
                            *fb,
                            size as int,
                            col as int,
                            row as int,
                            gx as int,
                            gy as int,
                        );
                        lemma_pixel_index(row_pixels as int, (px + gx) as int, (py + gy) as int);
                    }
                    let off: usize = (py + gy) * row_pixels + (px + gx);
                    pixels[off] = pixel;
                    proof {
                        assert forall|i: int| 0 <= i < size implies #[trigger] pixels@[i] == (if px
                            <= i % (row_pixels as int) < px + FONT_WIDTH && py <= i / (row_pixels as int)
                            < py + gy || (i / (row_pixels as int) == py + gy && px <= i % (
                        row_pixels as int) < px + gx + 1) {
                            if lit(*glyph, i % (row_pixels as int) - px, i / (row_pixels as int) - py) {
                                fg
                            } else {
                                bg
                            }
                        } else {
                            old(pixels)@[i]
                        }) by {
                            lemma_fundamental_div_mod(i, row_pixels as int);
                            let y = i / (row_pixels as int);
                            assert(row_pixels * y == y * row_pixels) by (nonlinear_arith);
                        }
                    }
                    gx += 1;
                }
                gy += 1;
            }
        }
    }

    /// Moves the grid up by one row and fills the last row with the
    /// background colour.
    fn move_up(&mut self, display: &Display, pixels: &mut [u32])
        requires
            usable(display@, old(pixels)@.len() as int),
            bound_to(old(self)@, display@),
            old(self)@.cols != 0,
        ensures
            final(self)@ == old(self)@,
            display@ matches Some(info) && final(pixels)@ == moved_up(
                old(pixels)@,
                stride(info),
                old(self)@.rows as int,
                old(self)@.bg,
            ),
    {
        proof {
            use_type_invariant(&*self);
        }
        if let Some(fb) = framebuffer_info(display) {
            let size: usize = pixels.len();
            let row_pixels: usize = fb.pitch as usize / 4;
            proof {
                lemma_mul_inequality(self.rows * FONT_HEIGHT, fb.height as int, row_pixels as int);
                assert(self.rows * (FONT_HEIGHT * row_pixels) == (self.rows * FONT_HEIGHT)
                    * row_pixels) by (nonlinear_arith);
                assert((self.rows - 1) * (FONT_HEIGHT * row_pixels) + FONT_HEIGHT * row_pixels
                    == self.rows * (FONT_HEIGHT * row_pixels)) by (nonlinear_arith);
                lemma_mul_inequality(FONT_HEIGHT as int, self.rows * FONT_HEIGHT, row_pixels as int);
            }
            let block: usize = FONT_HEIGHT * row_pixels;
            let total: usize = (self.rows - 1) * block;
            let bg: u32 = self.bg;
            let mut i: usize = 0;
            while i < total
                invariant
                    i <= total,
                    total + block <= size,
                    pixels@.len() == size == old(pixels)@.len(),
                    forall|j: int| 0 <= j < i ==> #[trigger] pixels@[j] == old(pixels)@[j + block],
                    forall|j: int| i <= j < size ==> #[trigger] pixels@[j] == old(pixels)@[j],
                decreases total - i,
            {
                pixels[i] = pixels[i + block];
                i += 1;
            }
            let mut i: usize = 0;
            while i < block
                invariant
                    i <= block,
                    total + block <= size,
                    pixels@.len() == size == old(pixels)@.len(),
                    forall|j: int|
                        0 <= j < total ==> #[trigger] pixels@[j] == old(pixels)@[j + block],
                    forall|j: int| total <= j < total + i ==> #[trigger] pixels@[j] == bg,
                    forall|j: int| total + i <= j < size ==> #[trigger] pixels@[j] == old(pixels)@[j],
                decreases block - i,
            {
                pixels[total + i] = bg;
                i += 1;
            }
        }
    }

    /// Takes the cursor to the start of the next row, and moves the grid up
    /// if there is none.
    fn line_feed(&mut self, display: &Display, pixels: &mut [u32])
        requires
            usable(display@, old(pixels)@.len() as int),
            bound_to(old(self)@, display@),
            old(self)@.cols != 0,
        ensures
            display@ matches Some(info) && (Frame { cursor: final(self)@, pixels: final(pixels)@ })
                == line_fed(Frame { cursor: old(self)@, pixels: old(pixels)@ }, stride(info)),
    {
        proof {
            use_type_invariant(&*self);
        }
        self.column = 0;
        if self.row + 1 >= self.rows {
            self.move_up(display, pixels);
        } else {
            self.row += 1;
        }
    }

    /// Writes byte `c` at the cursor.
    pub fn write(&mut self, c: u8, display: &Display, pixels: &mut [u32], font: &Font)
        requires
            usable(display@, old(pixels)@.len() as int),
            bound_to(old(self)@, display@),
        ensures
            (Frame { cursor: final(self)@, pixels: final(pixels)@ }) == put(
                Frame { cursor: old(self)@, pixels: old(pixels)@ },
                c,
                display@,
                *font,
            ),
            bound_to(final(self)@, display@),
            final(pixels)@.len() == old(pixels)@.len(),
    {
        proof {
            use_type_invariant(&*self);
        }
        self.ensure_dims(display);
        proof {
            use_type_invariant(&*self);
        }
        if self.cols == 0 {
            return;
        }
        if c == NEWLINE {
            self.line_feed(display, pixels);
        } else {
            self.draw_char(c, self.fg, self.bg, self.column, self.row, display, pixels, font);
            if self.column + 1 >= self.cols {
                self.line_feed(display, pixels);
            } else {
                self.column += 1;
            }
        }
    }

    /// Writes the bytes of `s` up to its first zero byte, or all of them if
    /// it holds none.
    pub fn write_string(&mut self, s: &[u8], display: &Display, pixels: &mut [u32], font: &Font)
        requires
            usable(display@, old(pixels)@.len() as int),
            bound_to(old(self)@, display@),
        ensures
            (Frame { cursor: final(self)@, pixels: final(pixels)@ }) == put_all(
                Frame { cursor: old(self)@, pixels: old(pixels)@ },
                text(s@),
                display@,
                *font,
            ),
            bound_to(final(self)@, display@),
            final(pixels)@.len() == old(pixels)@.len(),
    {
        let mut i: usize = 0;
        while i < s.len() && s[i] != 0
            invariant
                i <= s.len(),
                i <= text_length(s@),
                usable(display@, pixels@.len() as int),
                bound_to(self@, display@),
                pixels@.len() == old(pixels)@.len(),
                (Frame { cursor: self@, pixels: pixels@ }) == put_all(
                    Frame { cursor: old(self)@, pixels: old(pixels)@ },
                    s@.take(i as int),
                    display@,
                    *font,
                ),
            decreases s.len() - i,
        {
            proof {
                lemma_text_length(s@, i as nat);
                assert(s@.take(i + 1).drop_last() =~= s@.take(i as int));
            }
            self.write(s[i], display, pixels, font);
            i += 1;
        }
        proof {
            lemma_text_length(s@, i as nat);
        }
    }
}

/// Tells whether a framebuffer described by `info` fits `pixels` pixels of
/// memory.
pub fn check_fits(info: &FramebufferInfo, pixels: usize) -> (ok: bool)
    ensures
        ok == fits(*info, pixels as int),
{
    if info.pitch % 4 != 0 || info.width > info.pitch / 4 {
        return false;
    }
    if info.width >= 8 && info.height < 16 {
        return false;
    }
    if info.width > usize::MAX as u64 || info.height > usize::MAX as u64 || info.pitch
        > usize::MAX as u64 {
        return false;
    }
    let row_pixels: u64 = info.pitch / 4;
    if row_pixels == 0 {
        return true;
    }
    let rows_that_fit: u64 = pixels as u64 / row_pixels;
    proof {
        lemma_fundamental_div_mod(pixels as int, row_pixels as int);
        let q = (pixels as int) / (row_pixels as int);
        if info.height <= q {
            lemma_mul_inequality(info.height as int, q, row_pixels as int);
        } else {
            lemma_mul_inequality(q + 1, info.height as int, row_pixels as int);
            assert((q + 1) * row_pixels == row_pixels * q + row_pixels) by (nonlinear_arith);
        }
    }
    info.height <= rows_that_fit
}

/// A terminal together with the display, the pixels and the font that it
/// writes with: all that a console takes.
pub struct Screen<'a> {
    pub terminal: &'a mut Terminal,
    pub display: &'a Display,
    pub pixels: &'a mut [u32],
    pub font: &'a Font,
}

/// What a [`Screen`] is made of.
pub struct ScreenState {
    pub frame: Frame,
    pub display: Option<FramebufferInfo>,
    pub font: Font,
}

/// Whether the parts of a screen go together: the display fits the pixels,
/// and the terminal has its grid from the display.
pub open spec fn coherent(state: ScreenState) -> bool {
    usable(state.display, state.frame.pixels.len() as int) && bound_to(
        state.frame.cursor,
        state.display,
    )
}

impl<'a> View for Screen<'a> {
    type V = ScreenState;

    open spec fn view(&self) -> ScreenState {
        ScreenState {
            frame: Frame { cursor: self.terminal@, pixels: self.pixels@ },
            display: self.display@,
            font: *self.font,
        }
    }
}

impl<'a> Screen<'a> {
    /// Tells whether the parts of the screen go together.
    pub fn is_coherent(&self) -> (ok: bool)
        ensures
            ok == coherent(self@),
    {
        match framebuffer_info(self.display) {
            Some(fb) => {
                if !check_fits(fb, self.pixels.len()) {
                    return false;
                }
                self.terminal.cols == 0 || (self.terminal.cols == fb.width as usize / FONT_WIDTH
                    && self.terminal.rows == fb.height as usize / FONT_HEIGHT)
            },
            None => self.terminal.cols == 0,
        }
    }
}

impl<'a> Console for Screen<'a> {
    type State = ScreenState;

    open spec fn state(&self) -> ScreenState {
        self@
    }

    /// A screen whose parts do not go together shows nothing.
    open spec fn put(state: ScreenState, c: u8) -> ScreenState {
        if coherent(state) {
            ScreenState { frame: put(state.frame, c, state.display, state.font), ..state }
        } else {
            state
        }
    }

    fn write(&mut self, c: u8) {
        if self.is_coherent() {
            self.terminal.write(c, self.display, self.pixels, self.font);
        }
    }
}

} // verus!
