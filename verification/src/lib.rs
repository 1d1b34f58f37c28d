//! The bring-up and input core of a small freestanding kernel for x86, with
//! the pieces of a C library that it prints with.
//!
//! The crate holds the kernel's rules and nothing of the machine. A driver
//! owns its state as a plain value; what it has to tell the hardware it
//! hands back as port writes, and what it needs from the hardware it takes
//! as an argument. Whoever owns the machine reads the ports, loads the
//! tables and waits for interrupts.
//!
//! - [`port`], [`pic`], [`idt`]: port writes, the interrupt controllers, the
//!   interrupt table.
//! - [`ring`], [`keyboard`]: the byte queue between interrupt and
//!   foreground, and the keyboard driver on top of it.
//! - [`boot`]: the handoff from the bootloader and the order of bring-up.
//! - [`vga`], [`vga_tty`], [`fb_tty`]: the terminals, on the text screen and
//!   on a framebuffer.
//! - [`string`], [`tostring`], [`stdio`], [`stdlib`]: memory and C strings,
//!   numbers as text, formatted output, last words.
//! - [`kernel`], [`demo`]: what the foreground does with what is typed, and
//!   a sign of life for the text screen.

pub mod port;
pub mod pic;
pub mod idt;
pub mod ring;
pub mod keyboard;
pub mod boot;
pub mod vga;
pub mod vga_tty;
pub mod fb_tty;
pub mod string;
pub mod tostring;
pub mod stdio;
pub mod stdlib;
pub mod kernel;
pub mod demo;
