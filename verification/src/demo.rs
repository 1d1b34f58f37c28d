//! A sign of life for the text screen: a greeting, and then one message
//! over and over, each character on a background of its own colour.
//!
//! [`Banner::start`] writes the greeting, and every call of
//! [`Banner::step`] writes the next character. To go on for ever is the
//! caller's part.

use vstd::prelude::*;
use crate::string::text;
use crate::vga::{entry_color, vga_entry_color, VGA_COLOR_WHITE};
use crate::vga_tty::{cleared, put, put_all, Screen, Terminal, NEWLINE};

verus! {

/// The first line of the greeting, a C string: `Hello, kernel World!`
pub const HELLO_WORLD: [u8; 22] = [
    0x48, 0x65, 0x6C, 0x6C, 0x6F, 0x2C, 0x20, 0x6B, 0x65, 0x72, 0x6E, 0x65, 0x6C, 0x20, 0x57,
    0x6F, 0x72, 0x6C, 0x64, 0x21, 0x0A, 0x00,
];

/// The second line of the greeting, a C string: `Hello, This Works!!`
pub const HELLO_WORKS: [u8; 21] = [
    0x48, 0x65, 0x6C, 0x6C, 0x6F, 0x2C, 0x20, 0x54, 0x68, 0x69, 0x73, 0x20, 0x57, 0x6F, 0x72,
    0x6B, 0x73, 0x21, 0x21, 0x0A, 0x00,
];

/// The message that is repeated, with the zero byte that ends it: `Hello! Thaunos is alive!`
pub const MESSAGE: [u8; 26] = [
    0x48, 0x65, 0x6C, 0x6C, 0x6F, 0x21, 0x20, 0x54, 0x68, 0x61, 0x75, 0x6E, 0x6F, 0x73, 0x20,
    0x69, 0x73, 0x20, 0x61, 0x6C, 0x69, 0x76, 0x65, 0x21, 0x0A, 0x00,
];

/// The number that follows from `seed`: `seed` itself.
pub fn rand(seed: i32) -> (value: i32)
    ensures
        value == seed,
{
    seed
}

/// Where the banner stands: how many characters it has counted, and which
/// byte of the message is next.
pub struct BannerState {
    pub counter: int,
    pub index: int,
}

/// Where the banner goes on after the byte at `index`: at the start of the
/// message behind its last byte, else at the next byte.
pub open spec fn next_index(index: int) -> int {
    if index + 1 >= MESSAGE@.len() {
        0
    } else {
        index + 1
    }
}

/// The screen after the banner in state `state` has taken a step on it.
///
/// A line feed is written as it is. Any other byte, the zero byte that ends
/// the message too, is written in white on the colour whose number is the
/// new count modulo sixteen.
pub open spec fn stepped(screen: Screen, state: BannerState) -> Screen {
    let byte = MESSAGE@[state.index];
    if byte == NEWLINE {
        put(screen, byte)
    } else {
        put(
            Screen {
                color: entry_color(VGA_COLOR_WHITE, ((state.counter + 1) % 16) as u32),
                ..screen
            },
            byte,
        )
    }
}

/// The banner.
#[derive(Debug)]
pub struct Banner {
    loop_counter: i32,
    i: usize,
}

impl View for Banner {
    type V = BannerState;

    closed spec fn view(&self) -> BannerState {
        BannerState { counter: self.loop_counter as int, index: self.i as int }
    }
}

impl Banner {
    /// The next byte is one of the message, and the count has begun.
    #[verifier::type_invariant]
    spec fn wf(&self) -> bool {
        self.i < MESSAGE@.len() && self.loop_counter >= 1
    }

    /// Blanks the screen, writes the two lines of the greeting, and returns
    /// the banner at the start of its message.
    pub fn start(term: &mut Terminal) -> (banner: Self)
        ensures
            final(term)@ == put_all(put_all(cleared(), text(HELLO_WORLD@)), text(HELLO_WORKS@)),
            banner@ == (BannerState { counter: 1, index: 0 }),
    {
        let hello_world: [u8; 22] = HELLO_WORLD;
        let hello_works: [u8; 21] = HELLO_WORKS;
        *term = Terminal::new();
        term.write_string(&hello_world);
        term.write_string(&hello_works);
        Banner { loop_counter: 1, i: 0 }
    }

    /// How many characters the banner has counted.
    pub fn counter(&self) -> (counter: i32)
        ensures
            counter == self@.counter,
    {
        self.loop_counter
    }

    /// The index of the byte that is next.
    pub fn index(&self) -> (index: usize)
        ensures
            index == self@.index,
    {
        self.i
    }

    /// Writes the next byte of the message.
    pub fn step(&mut self, term: &mut Terminal)
        requires
            old(self)@.counter < i32::MAX,
        ensures
            final(term)@ == stepped(old(term)@, old(self)@),
            final(self)@ == (BannerState {
                counter: old(self)@.counter + 1,
                index: next_index(old(self)@.index),
            }),
    {
        proof {
            use_type_invariant(&*self);
        }
        let message: [u8; 26] = MESSAGE;
        self.loop_counter += 1;
        let rand_value: i32 = rand(self.loop_counter);
        let byte: u8 = message[self.i];
        if byte == NEWLINE {
            term.write(byte);
        } else {
            term.set_color(vga_entry_color(VGA_COLOR_WHITE, (rand_value % 16) as u32));
            term.write(byte);
        }
        if self.i + 1 >= 26 {
            self.i = 0;
        } else {
            self.i += 1;
        }
    }
}

} // verus!
