//! The kernel's foreground: it greets, and then echoes what is typed.
//!
//! The foreground waits for a byte from the keyboard, hands it to
//! [`Shell::key`], and waits again, for ever. The waiting is the caller's;
//! what a byte leads to is decided here.

use vstd::prelude::*;
use vstd::utf8::valid_utf8;
use crate::keyboard::{is_line_end, BACKSPACE, CARRIAGE_RETURN, LINE_FEED};
use crate::stdio::{kprint, kprintln, lemma_put_all_joined, put_all, sent, sent_line, Console};

verus! {

/// The most bytes of a line that are kept.
pub const INPUT_SIZE: usize = 256;

/// The first line of the greeting: `Hello, Thaunos! This is the x86_64 kernel.`
pub const GREETING: [u8; 42] = [
    0x48, 0x65, 0x6C, 0x6C, 0x6F, 0x2C, 0x20, 0x54, 0x68, 0x61, 0x75, 0x6E, 0x6F, 0x73, 0x21,
    0x20, 0x54, 0x68, 0x69, 0x73, 0x20, 0x69, 0x73, 0x20, 0x74, 0x68, 0x65, 0x20, 0x78, 0x38,
    0x36, 0x5F, 0x36, 0x34, 0x20, 0x6B, 0x65, 0x72, 0x6E, 0x65, 0x6C, 0x2E,
];

/// The second line of the greeting: `Keyboard input enabled. Type something:`
pub const INVITATION: [u8; 39] = [
    0x4B, 0x65, 0x79, 0x62, 0x6F, 0x61, 0x72, 0x64, 0x20, 0x69, 0x6E, 0x70, 0x75, 0x74, 0x20,
    0x65, 0x6E, 0x61, 0x62, 0x6C, 0x65, 0x64, 0x2E, 0x20, 0x54, 0x79, 0x70, 0x65, 0x20, 0x73,
    0x6F, 0x6D, 0x65, 0x74, 0x68, 0x69, 0x6E, 0x67, 0x3A,
];

/// Asks for a line: `> `.
pub const PROMPT: [u8; 2] = [
    0x3E, 0x20,
];

/// Stands before the line that is echoed: `You typed: `.
pub const YOU_TYPED: [u8; 11] = [
    0x59, 0x6F, 0x75, 0x20, 0x74, 0x79, 0x70, 0x65, 0x64, 0x3A, 0x20,
];

/// Stands for a line that is no text: `<invalid UTF-8>`.
pub const INVALID_UTF8: [u8; 15] = [
    0x3C, 0x69, 0x6E, 0x76, 0x61, 0x6C, 0x69, 0x64, 0x20, 0x55, 0x54, 0x46, 0x2D, 0x38, 0x3E,
];

/// Tells whether `bytes` is well-formed UTF-8.
///
/// Trusted, not proved: the body calls `core::str::from_utf8`, which returns
/// `Ok` for a slice that is valid UTF-8 and `Err` for any other. The contract
/// takes `vstd`'s definition of valid UTF-8 for what the standard library
/// means by it.
#[verifier::external_body]
fn is_utf8(bytes: &[u8]) -> (ok: bool)
    ensures
        ok == valid_utf8(bytes@),
{
    core::str::from_utf8(bytes).is_ok()
}

/// What is shown of a line that was typed: the line if it is text, else a
/// note that it is not.
pub open spec fn shown(line: Seq<u8>) -> Seq<u8> {
    if valid_utf8(line) {
        line
    } else {
        INVALID_UTF8@
    }
}

/// What the kernel writes when it starts: two lines of greeting, and the
/// prompt.
pub open spec fn welcome() -> Seq<u8> {
    sent_line(GREETING@) + sent_line(INVITATION@) + sent(PROMPT@)
}

/// The line typed so far once `ch` has been typed behind `line`.
///
/// A byte that ends a line starts a new one. A backspace changes nothing.
/// Any other byte goes behind the line while there is room.
pub open spec fn typed_on(line: Seq<u8>, ch: u8) -> Seq<u8> {
    if is_line_end(ch) {
        Seq::empty()
    } else if ch == BACKSPACE {
        line
    } else if line.len() < INPUT_SIZE {
        line.push(ch)
    } else {
        line
    }
}

/// What the kernel writes when `ch` is typed behind `line`.
///
/// A byte that ends a line is answered with a line feed, the line that was
/// typed, and a new prompt. A backspace is not echoed. Any other byte is
/// echoed as it is.
pub open spec fn echoed(line: Seq<u8>, ch: u8) -> Seq<u8> {
    if is_line_end(ch) {
        sent_line(Seq::empty()) + sent(YOU_TYPED@) + sent(shown(line)) + sent_line(Seq::empty())
            + sent(PROMPT@)
    } else if ch == BACKSPACE {
        Seq::empty()
    } else {
        sent(seq![ch])
    }
}

/// The foreground's state: the line that is being typed.
#[derive(Debug)]
pub struct Shell {
    input: [u8; 256],
    input_len: usize,
}

impl View for Shell {
    type V = Seq<u8>;

    /// The line typed so far.
    closed spec fn view(&self) -> Seq<u8> {
        self.input@.take(self.input_len as int)
    }
}

impl Shell {
    /// The line lies within the buffer.
    #[verifier::type_invariant]
    spec fn wf(&self) -> bool {
        self.input_len <= INPUT_SIZE
    }

    /// A shell with nothing typed.
    pub fn new() -> (shell: Self)
        ensures
            shell@ == Seq::<u8>::empty(),
    {
        let shell = Shell { input: [0u8; 256], input_len: 0 };
        shell
    }

    /// The line typed so far.
    pub fn line(&self) -> (line: &[u8])
        ensures
            line@ == self@,
    {
        proof {
            use_type_invariant(self);
        }
        let all: &[u8] = &self.input;
        vstd::slice::slice_subrange(all, 0, self.input_len)
    }

    /// Greets and asks for the first line.
    pub fn start<C: Console>(console: &mut C)
        ensures
            final(console).state() == put_all::<C>(old(console).state(), welcome()),
    {
        let ghost before = console.state();
        let greeting: [u8; 42] = GREETING;
        let invitation: [u8; 39] = INVITATION;
        let prompt: [u8; 2] = PROMPT;
        kprintln(console, &greeting);
        kprintln(console, &invitation);
        kprint(console, &prompt);
        proof {
            lemma_put_all_joined::<C>(before, sent_line(GREETING@), sent_line(INVITATION@));
            lemma_put_all_joined::<C>(
                before,
                sent_line(GREETING@) + sent_line(INVITATION@),
                sent(PROMPT@),
            );
        }
    }

    /// Takes in `ch`, a byte that was typed.
    pub fn key<C: Console>(&mut self, console: &mut C, ch: u8)
        ensures
            final(self)@ == typed_on(old(self)@, ch),
            final(console).state() == put_all::<C>(
                old(console).state(),
                echoed(old(self)@, ch),
            ),
    {
        proof {
            use_type_invariant(&*self);
        }
        let ghost before = console.state();
        if ch == LINE_FEED || ch == CARRIAGE_RETURN {
            let none: [u8; 0] = [];
            let you_typed: [u8; 11] = YOU_TYPED;
            let invalid: [u8; 15] = INVALID_UTF8;
            let prompt: [u8; 2] = PROMPT;
            kprintln(console, &none);
            kprint(console, &you_typed);
            let line: &[u8] = self.line();
            if is_utf8(line) {
                kprint(console, line);
            } else {
                kprint(console, &invalid);
            }
            kprintln(console, &none);
            kprint(console, &prompt);
            proof {
                let l1 = sent_line(Seq::<u8>::empty());
                let l2 = sent(YOU_TYPED@);
                let l3 = sent(shown(self@));
                let l5 = sent(PROMPT@);
                assert(none@ =~= Seq::<u8>::empty());
                lemma_put_all_joined::<C>(before, l1, l2);
                lemma_put_all_joined::<C>(before, l1 + l2, l3);
                lemma_put_all_joined::<C>(before, l1 + l2 + l3, l1);
                lemma_put_all_joined::<C>(before, l1 + l2 + l3 + l1, l5);
            }
            self.input_len = 0;
        } else if ch != BACKSPACE {
            let one: [u8; 1] = [ch];
            proof {
                assert(one@ =~= seq![ch]);
            }
            kprint(console, &one);
            if self.input_len < INPUT_SIZE {
                self.input[self.input_len] = ch;
                self.input_len += 1;
            }
        }
    }
}

} // verus!
