//! The kernel's last words.
//!
//! Both functions here only write. To stop the machine afterwards is left to
//! the caller.

use vstd::prelude::*;
use crate::stdio::{
    arg_values, formatted, kprintln, lemma_plain_format, lemma_put_all_joined, printf, put_all,
    sent_line, Arg, ArgValue, Console,
};
use crate::tostring::{decimal, lemma_u32_digits, u32_to_str};
use crate::string::{text, text_length};

verus! {

/// What [`abort`] writes.
pub const ABORT_MESSAGE: [u8; 13] = [
    0x41, 0x62, 0x6F, 0x72, 0x74, 0x69, 0x6E, 0x67, 0x2E, 0x2E, 0x2E, 0x0A, 0x00,
];

/// Announces that the kernel gives up: writes `"Aborting...\n"`.
pub fn abort<C: Console>(console: &mut C)
    ensures
        final(console).state() == put_all::<C>(
            old(console).state(),
            ABORT_MESSAGE@.take(12),
        ),
{
    let none: [Arg; 0] = [];
    let message: [u8; 13] = ABORT_MESSAGE;
    proof {
        assert(arg_values(none@) =~= Seq::<ArgValue>::empty());
        lemma_abort_message();
    }
    printf(console, &message, &none);
}

/// The message, without the zero byte that ends it, is plain text.
proof fn lemma_abort_message()
    ensures
        formatted(text(ABORT_MESSAGE@), 0, Seq::empty(), 0).output == ABORT_MESSAGE@.take(12),
{
    reveal_with_fuel(text_length, 14);
    lemma_plain_format(text(ABORT_MESSAGE@), Seq::empty());
}

/// The first line of a panic report: `Kernel panic!!!`.
pub const PANIC_HEADING: [u8; 15] = [
    0x4B, 0x65, 0x72, 0x6E, 0x65, 0x6C, 0x20, 0x70, 0x61, 0x6E, 0x69, 0x63, 0x21, 0x21, 0x21,
];

/// Announces the place of a panic: `At:`.
pub const PANIC_AT: [u8; 3] = [
    0x41, 0x74, 0x3A,
];

/// Stands between file, line and column: `:`.
pub const PANIC_SEPARATOR: [u8; 1] = [
    0x3A,
];

/// Stands for a place that is not known: `Unknown location`.
pub const PANIC_NOWHERE: [u8; 16] = [
    0x55, 0x6E, 0x6B, 0x6E, 0x6F, 0x77, 0x6E, 0x20, 0x6C, 0x6F, 0x63, 0x61, 0x74, 0x69, 0x6F,
    0x6E,
];

/// Where a panic arose.
#[derive(Clone, Copy, Debug)]
pub struct Location<'a> {
    /// The name of the source file.
    pub file: &'a [u8],
    pub line: u32,
    pub column: u32,
}

/// What [`report_panic`] writes for a panic at `location`: the heading, and
/// then either the file, the line and the column, each on a line of its own
/// with a line that holds a colon between them, or a line that says that the
/// place is not known.
pub open spec fn panic_report(location: Option<Location>) -> Seq<u8> {
    sent_line(PANIC_HEADING@) + match location {
        Some(place) => sent_line(PANIC_AT@) + sent_line(place.file@) + sent_line(
            PANIC_SEPARATOR@,
        ) + sent_line(decimal(place.line as nat)) + sent_line(PANIC_SEPARATOR@) + sent_line(
            decimal(place.column as nat),
        ),
        None => sent_line(PANIC_NOWHERE@),
    }
}

/// Reports a panic on the console.
pub fn report_panic<C: Console>(console: &mut C, location: Option<Location>)
    ensures
        final(console).state() == put_all::<C>(old(console).state(), panic_report(location)),
{
    let ghost start = console.state();
    let heading: [u8; 15] = PANIC_HEADING;
    kprintln(console, &heading);
    match location {
        Some(place) => {
            let at: [u8; 3] = PANIC_AT;
            let separator: [u8; 1] = PANIC_SEPARATOR;
            let mut line_buf: [u8; 12] = [0u8; 12];
            let mut col_buf: [u8; 12] = [0u8; 12];
            proof {
                lemma_u32_digits(place.line);
                lemma_u32_digits(place.column);
            }
            kprintln(console, &at);
            kprintln(console, place.file);
            kprintln(console, &separator);
            let line_str: &[u8] = u32_to_str(place.line, &mut line_buf);
            kprintln(console, line_str);
            kprintln(console, &separator);
            let col_str: &[u8] = u32_to_str(place.column, &mut col_buf);
            kprintln(console, col_str);
            proof {
                let l1 = sent_line(PANIC_HEADING@);
                let l2 = sent_line(PANIC_AT@);
                let l3 = sent_line(place.file@);
                let l4 = sent_line(PANIC_SEPARATOR@);
                let l5 = sent_line(decimal(place.line as nat));
                let l7 = sent_line(decimal(place.column as nat));
                lemma_put_all_joined::<C>(start, l1, l2);
                lemma_put_all_joined::<C>(start, l1 + l2, l3);
                lemma_put_all_joined::<C>(start, l1 + l2 + l3, l4);
                lemma_put_all_joined::<C>(start, l1 + l2 + l3 + l4, l5);
                lemma_put_all_joined::<C>(start, l1 + l2 + l3 + l4 + l5, l4);
                lemma_put_all_joined::<C>(start, l1 + l2 + l3 + l4 + l5 + l4, l7);
                assert(l1 + l2 + l3 + l4 + l5 + l4 + l7 =~= panic_report(location));
            }
        },
        None => {
            let nowhere: [u8; 16] = PANIC_NOWHERE;
            kprintln(console, &nowhere);
            proof {
                lemma_put_all_joined::<C>(
                    start,
                    sent_line(PANIC_HEADING@),
                    sent_line(PANIC_NOWHERE@),
                );
            }
        },
    }
}

} // verus!
