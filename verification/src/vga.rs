//! Colours and cells of the VGA text mode.
//!
//! A cell of the screen is sixteen bits: the character in the low byte, its
//! colours in the high byte. Of the colour byte the low four bits are the
//! foreground and the high four bits the background.

use vstd::prelude::*;

verus! {

/// One of the sixteen colours of the text mode.
pub type VgaColor = u32;

/// Black.
pub const VGA_COLOR_BLACK: VgaColor = 0;

/// Blue.
pub const VGA_COLOR_BLUE: VgaColor = 1;

/// Green.
pub const VGA_COLOR_GREEN: VgaColor = 2;

/// Cyan.
pub const VGA_COLOR_CYAN: VgaColor = 3;

/// Red.
pub const VGA_COLOR_RED: VgaColor = 4;

/// Magenta.
pub const VGA_COLOR_MAGENTA: VgaColor = 5;

/// Brown.
pub const VGA_COLOR_BROWN: VgaColor = 6;

/// Light grey.
pub const VGA_COLOR_LIGHT_GREY: VgaColor = 7;

/// Dark grey.
pub const VGA_COLOR_DARK_GREY: VgaColor = 8;

/// Light blue.
pub const VGA_COLOR_LIGHT_BLUE: VgaColor = 9;

/// Light green.
pub const VGA_COLOR_LIGHT_GREEN: VgaColor = 10;

/// Light cyan.
pub const VGA_COLOR_LIGHT_CYAN: VgaColor = 11;

/// Light red.
pub const VGA_COLOR_LIGHT_RED: VgaColor = 12;

/// Light magenta.
pub const VGA_COLOR_LIGHT_MAGENTA: VgaColor = 13;

/// Light brown, which shows as yellow.
pub const VGA_COLOR_LIGHT_BROWN: VgaColor = 14;

/// White.
pub const VGA_COLOR_WHITE: VgaColor = 15;

/// The colour byte for foreground `fg` on background `bg`: the low eight
/// bits of `fg | bg << 4`.
pub open spec fn entry_color(fg: VgaColor, bg: VgaColor) -> u8 {
    ((fg | (bg << 4)) & 0xFF) as u8
}

/// The cell that shows character `uc` in the colours `color`.
pub open spec fn entry(uc: u8, color: u8) -> u16 {
    (uc + 256 * color) as u16
}

/// The colour byte for foreground `fg` on background `bg`.
pub fn vga_entry_color(fg: VgaColor, bg: VgaColor) -> (color: u8)
    ensures
        color == entry_color(fg, bg),
{
    ((fg | (bg << 4)) & 0xFF) as u8
}

/// The cell that shows character `uc` in the colours `color`.
pub fn vga_entry(uc: u8, color: u8) -> (cell: u16)
    ensures
        cell == entry(uc, color),
{
    assert((uc as u16) | ((color as u16) << 8) == uc + 256 * color) by (bit_vector);
    (uc as u16) | ((color as u16) << 8)
}

/// With both colours among the sixteen, the colour byte holds the foreground
/// in its low four bits and the background in its high four bits.
pub proof fn lemma_entry_color(fg: VgaColor, bg: VgaColor)
    requires
        fg < 16,
        bg < 16,
    ensures
        entry_color(fg, bg) == fg + 16 * bg,
        entry_color(fg, bg) & 0x0F == fg,
        entry_color(fg, bg) >> 4 == bg,
{
    assert(((fg | (bg << 4)) & 0xFF) == fg + 16 * bg) by (bit_vector)
        requires
            fg < 16,
            bg < 16,
    ;
    let color = entry_color(fg, bg);
    assert(color & 0x0F == fg && color >> 4 == bg) by (bit_vector)
        requires
            color == fg + 16 * bg,
            fg < 16,
            bg < 16,
    ;
}

/// A cell holds its character in the low byte and its colours in the high
/// byte.
pub proof fn lemma_entry(uc: u8, color: u8)
    ensures
        entry(uc, color) & 0xFF == uc,
        entry(uc, color) >> 8 == color,
{
    let cell = entry(uc, color);
    assert(cell & 0xFF == uc && cell >> 8 == color) by (bit_vector)
        requires
            cell == uc + 256 * color,
    ;
}

} // verus!
