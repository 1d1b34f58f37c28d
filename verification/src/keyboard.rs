//! Driver for a PS/2 keyboard that sends scancodes of set 1.
//!
//! The interrupt handler translates each key press to a byte and queues it;
//! foreground code takes the bytes from the queue. Shift counts while it is
//! held, caps lock flips with every press of its key.

use vstd::prelude::*;
use crate::pic::{eoi_sequence, send_eoi};
use crate::port::PortWrites;
use crate::ring::{dequeue, enqueue, front, RingBuffer, BUF_SIZE, MAX_QUEUED};

verus! {

/// The port that the keyboard's scancodes are read from.
pub const KEYBOARD_DATA_PORT: u16 = 0x60;

/// The request line of the keyboard.
pub const KEYBOARD_IRQ: u8 = 1;

/// Number of scancodes that the tables translate.
pub const SCANCODES: usize = 58;

/// Scancode of the left shift key.
pub const LEFT_SHIFT: u8 = 0x2A;

/// Scancode of the right shift key.
pub const RIGHT_SHIFT: u8 = 0x36;

/// Scancode of the caps lock key.
pub const CAPS_LOCK: u8 = 0x3A;

/// The bit that tells a release from a press.
pub const RELEASE_BIT: u8 = 0x80;

/// The byte that takes back the last byte of a line.
pub const BACKSPACE: u8 = 8;

/// One of the two bytes that end a line.
pub const LINE_FEED: u8 = 0x0A;

/// The other of the two bytes that end a line.
pub const CARRIAGE_RETURN: u8 = 0x0D;

/// What each key yields while shift is up; 0 where a key yields nothing.
pub const SCANCODE_TO_ASCII: [u8; 58] = [
    // 0x00: none esc 1 2 3 4 5 6 7 8
    0x00, 0x1B, 0x31, 0x32, 0x33, 0x34, 0x35, 0x36, 0x37, 0x38,
    // 0x0A: 9 0 - = backspace tab
    0x39, 0x30, 0x2D, 0x3D, 0x08, 0x09,
    // 0x10: q w e r t y u i o p
    0x71, 0x77, 0x65, 0x72, 0x74, 0x79, 0x75, 0x69, 0x6F, 0x70,
    // 0x1A: [ ] enter none
    0x5B, 0x5D, 0x0A, 0x00,
    // 0x1E: a s d f g h j k l
    0x61, 0x73, 0x64, 0x66, 0x67, 0x68, 0x6A, 0x6B, 0x6C,
    // 0x27: ; ' ` none \
    0x3B, 0x27, 0x60, 0x00, 0x5C,
    // 0x2C: z x c v b n m
    0x7A, 0x78, 0x63, 0x76, 0x62, 0x6E, 0x6D,
    // 0x33: , . / none
    0x2C, 0x2E, 0x2F, 0x00,
    // 0x37: * none space
    0x2A, 0x00, 0x20,
];

/// What each key yields while shift is held.
pub const SCANCODE_TO_ASCII_SHIFT: [u8; 58] = [
    // 0x00: none esc ! @ # $ % ^ & *
    0x00, 0x1B, 0x21, 0x40, 0x23, 0x24, 0x25, 0x5E, 0x26, 0x2A,
    // 0x0A: ( ) _ + backspace tab
    0x28, 0x29, 0x5F, 0x2B, 0x08, 0x09,
    // 0x10: Q W E R T Y U I O P
    0x51, 0x57, 0x45, 0x52, 0x54, 0x59, 0x55, 0x49, 0x4F, 0x50,
    // 0x1A: { } enter none
    0x7B, 0x7D, 0x0A, 0x00,
    // 0x1E: A S D F G H J K L
    0x41, 0x53, 0x44, 0x46, 0x47, 0x48, 0x4A, 0x4B, 0x4C,
    // 0x27: : " ~ none |
    0x3A, 0x22, 0x7E, 0x00, 0x7C,
    // 0x2C: Z X C V B N M
    0x5A, 0x58, 0x43, 0x56, 0x42, 0x4E, 0x4D,
    // 0x33: < > ? none
    0x3C, 0x3E, 0x3F, 0x00,
    // 0x37: * none space
    0x2A, 0x00, 0x20,
];

/// Whether `byte` is a capital ASCII letter.
pub open spec fn is_upper(byte: u8) -> bool {
    0x41 <= byte <= 0x5A
}

/// Whether `byte` is a small ASCII letter.
pub open spec fn is_lower(byte: u8) -> bool {
    0x61 <= byte <= 0x7A
}

/// Whether `byte` is an ASCII letter.
pub open spec fn is_letter(byte: u8) -> bool {
    is_upper(byte) || is_lower(byte)
}

/// `byte` as a capital letter, if it is a letter.
pub open spec fn to_upper(byte: u8) -> u8 {
    if is_lower(byte) {
        (byte - 0x20) as u8
    } else {
        byte
    }
}

/// `byte` as a small letter, if it is a letter.
pub open spec fn to_lower(byte: u8) -> u8 {
    if is_upper(byte) {
        (byte + 0x20) as u8
    } else {
        byte
    }
}

/// The byte that a press of key `scancode` yields, 0 for none.
///
/// Shift picks the table. Caps lock touches letters only, and turns the case
/// that shift gave them around.
pub open spec fn translated(scancode: u8, shift: bool, caps: bool) -> u8 {
    if scancode < SCANCODES {
        let byte = if shift {
            SCANCODE_TO_ASCII_SHIFT@[scancode as int]
        } else {
            SCANCODE_TO_ASCII@[scancode as int]
        };
        if caps && is_letter(byte) {
            if shift {
                to_lower(byte)
            } else {
                to_upper(byte)
            }
        } else {
            byte
        }
    } else {
        0
    }
}

/// Tells whether `byte` is an ASCII letter.
fn is_alphabetic(byte: u8) -> (letter: bool)
    ensures
        letter == is_letter(byte),
{
    (0x41 <= byte && byte <= 0x5A) || (0x61 <= byte && byte <= 0x7A)
}

/// Makes a small letter a capital.
fn to_uppercase(byte: u8) -> (upper: u8)
    ensures
        upper == to_upper(byte),
{
    if 0x61 <= byte && byte <= 0x7A {
        byte - 0x20
    } else {
        byte
    }
}

/// Makes a capital a small letter.
fn to_lowercase(byte: u8) -> (lower: u8)
    ensures
        lower == to_lower(byte),
{
    if 0x41 <= byte && byte <= 0x5A {
        byte + 0x20
    } else {
        byte
    }
}

/// Translates the press of key `scancode` under the given modifiers.
pub fn translate(scancode: u8, shift: bool, caps: bool) -> (byte: u8)
    ensures
        byte == translated(scancode, shift, caps),
{
    if (scancode as usize) >= SCANCODES {
        return 0;
    }
    let byte: u8 = if shift {
        SCANCODE_TO_ASCII_SHIFT[scancode as usize]
    } else {
        SCANCODE_TO_ASCII[scancode as usize]
    };
    if caps && is_alphabetic(byte) {
        if shift {
            to_lowercase(byte)
        } else {
            to_uppercase(byte)
        }
    } else {
        byte
    }
}

/// Whether key `scancode` yields a small letter while no modifier is on.
pub open spec fn is_letter_key(scancode: u8) -> bool {
    scancode < SCANCODES && is_lower(SCANCODE_TO_ASCII@[scancode as int])
}

/// Shift and caps lock each turn a letter into its capital, and both
/// together give the small letter back.
pub proof fn lemma_caps_flip(scancode: u8)
    requires
        is_letter_key(scancode),
    ensures
        translated(scancode, false, false) == SCANCODE_TO_ASCII@[scancode as int],
        translated(scancode, true, false) == to_upper(SCANCODE_TO_ASCII@[scancode as int]),
        translated(scancode, false, true) == to_upper(SCANCODE_TO_ASCII@[scancode as int]),
        translated(scancode, true, true) == SCANCODE_TO_ASCII@[scancode as int],
        is_lower(translated(scancode, false, false)),
        is_upper(translated(scancode, true, false)),
        is_upper(translated(scancode, false, true)),
        is_lower(translated(scancode, true, true)),
{
}

/// What the driver knows: the two modifiers, and the bytes that wait to be
/// read, the oldest first.
pub struct KeyboardState {
    pub shift_held: bool,
    pub caps_lock: bool,
    pub queue: Seq<u8>,
}

/// Whether `scancode` reports that a key came up.
pub open spec fn is_release(scancode: u8) -> bool {
    scancode >= RELEASE_BIT
}

/// Whether `scancode`, taken as a press, is one of the two shift keys.
pub open spec fn is_shift(scancode: u8) -> bool {
    scancode == LEFT_SHIFT || scancode == RIGHT_SHIFT
}

/// The state after the keyboard has sent `scancode`.
///
/// A shift key sets shift on its press and clears it on its release. A
/// press of caps lock flips caps lock; its release is ignored, like that of
/// every other key. A press of any other key queues the byte that the key
/// yields under the modifiers, if it yields one; a full queue drops it.
pub open spec fn key_event(state: KeyboardState, scancode: u8) -> KeyboardState {
    if is_release(scancode) {
        if is_shift((scancode - RELEASE_BIT) as u8) {
            KeyboardState { shift_held: false, ..state }
        } else {
            state
        }
    } else if is_shift(scancode) {
        KeyboardState { shift_held: true, ..state }
    } else if scancode == CAPS_LOCK {
        KeyboardState { caps_lock: !state.caps_lock, ..state }
    } else if translated(scancode, state.shift_held, state.caps_lock) != 0 {
        KeyboardState {
            queue: enqueue(
                state.queue,
                translated(scancode, state.shift_held, state.caps_lock),
            ),
            ..state
        }
    } else {
        state
    }
}

/// The byte that goes into the ring when the keyboard sends `scancode` to a
/// driver in state `state`, if one does: the byte that the press of a key
/// yields, unless the key is a modifier, yields nothing, or finds the queue
/// full.
pub open spec fn queued_byte(state: KeyboardState, scancode: u8) -> Option<u8> {
    if !is_release(scancode) && !is_shift(scancode) && scancode != CAPS_LOCK && translated(
        scancode,
        state.shift_held,
        state.caps_lock,
    ) != 0 && state.queue.len() < MAX_QUEUED {
        Some(translated(scancode, state.shift_held, state.caps_lock))
    } else {
        None
    }
}

/// The state of a driver that has seen nothing yet: both modifiers off,
/// nothing queued.
pub open spec fn idle() -> KeyboardState {
    KeyboardState { shift_held: false, caps_lock: false, queue: Seq::empty() }
}

/// Whatever the keyboard sends, the bytes that wait stay as they are, in
/// their order; at most one byte, which is not zero, comes behind them.
pub proof fn lemma_key_event_keeps_queue(state: KeyboardState, scancode: u8)
    ensures
        key_event(state, scancode).queue == state.queue || (exists|byte: u8|
            byte != 0 && key_event(state, scancode).queue == #[trigger] state.queue.push(byte)),
{
}

/// The keyboard driver's state.
#[derive(Debug)]
pub struct Keyboard {
    ring: RingBuffer,
    shift_held: bool,
    caps_lock: bool,
}

impl View for Keyboard {
    type V = KeyboardState;

    closed spec fn view(&self) -> KeyboardState {
        KeyboardState {
            shift_held: self.shift_held,
            caps_lock: self.caps_lock,
            queue: self.ring@,
        }
    }
}

impl Keyboard {
    /// The ring that holds the bytes that wait to be read. The interrupt
    /// handler alone moves its write index and fills its slots; the reads of
    /// the foreground alone move its read index.
    pub closed spec fn ring(&self) -> RingBuffer {
        self.ring
    }

    /// Whether the ring is well formed and holds the bytes that wait to be
    /// read. This holds of every driver at all times.
    pub open spec fn well_formed(&self) -> bool {
        self.ring().well_formed() && self@.queue == self.ring()@
    }

    /// Whether the driver is as it is made: both modifiers off, nothing
    /// queued, both indices of the ring at the first slot, and every slot
    /// zero.
    pub open spec fn is_new(&self) -> bool {
        &&& self@ == idle()
        &&& self.well_formed()
        &&& self.ring().write_index() == 0
        &&& self.ring().read_index() == 0
        &&& self.ring().slots() == Seq::new(BUF_SIZE as nat, |i: int| 0u8)
    }

    /// A driver with both modifiers off and nothing queued: both indices of
    /// the ring at the first slot, and every slot zero.
    pub fn new() -> (kb: Self)
        ensures
            kb.is_new(),
    {
        Keyboard { ring: RingBuffer::new(), shift_held: false, caps_lock: false }
    }

    /// The driver that is made of the ring and the two modifiers given.
    pub fn from_parts(ring: RingBuffer, shift_held: bool, caps_lock: bool) -> (kb: Self)
        ensures
            kb.well_formed(),
            kb.ring() == ring,
            kb@ == (KeyboardState { shift_held, caps_lock, queue: ring@ }),
    {
        proof {
            use_type_invariant(&ring);
        }
        Keyboard { ring, shift_held, caps_lock }
    }

    /// The ring that holds the bytes that wait to be read.
    pub fn ring_buffer(&self) -> (ring: &RingBuffer)
        ensures
            *ring == self.ring(),
    {
        &self.ring
    }

    /// Whether a shift key is held.
    pub fn shift_held(&self) -> (held: bool)
        ensures
            held == self@.shift_held,
    {
        self.shift_held
    }

    /// Whether caps lock is on.
    pub fn caps_lock(&self) -> (on: bool)
        ensures
            on == self@.caps_lock,
    {
        self.caps_lock
    }

    /// The number of bytes that wait to be read.
    pub fn pending(&self) -> (n: usize)
        ensures
            n == self@.queue.len(),
    {
        self.ring.len()
    }

    /// Whether a whole line waits to be read: whether one of the queued
    /// bytes ends a line.
    ///
    /// The queue holds 255 bytes at most, and drops what arrives while it is
    /// full. So the end of a line that has more than 254 bytes before it is
    /// dropped if nothing is read in the meantime, and such a line is never
    /// ready: whoever reads lines of any length reads them byte by byte, with
    /// [`accept_char`].
    pub fn line_ready(&self) -> (ready: bool)
        ensures
            ready == has_line(self@.queue),
    {
        let n: usize = self.ring.len();
        let mut i: usize = 0;
        while i < n
            invariant
                i <= n,
                n == self.ring@.len(),
                i <= line_length(self.ring@),
            decreases n - i,
        {
            proof {
                lemma_line_length(self.ring@, i as nat);
            }
            let byte: u8 = self.ring.get(i);
            if byte == LINE_FEED || byte == CARRIAGE_RETURN {
                return true;
            }
            i += 1;
        }
        proof {
            lemma_line_length(self.ring@, i as nat);
        }
        false
    }
}

/// Serves one keyboard interrupt: takes in `scancode`, the byte that was read
/// from the keyboard's data port, and returns the writes that acknowledge the
/// keyboard's line.
///
/// Nothing here waits or allocates, and a byte that finds the queue full is
/// dropped.
///
/// This is the producer's side of the ring. A byte that is queued goes into
/// the slot at the write index, which then moves on by one; no other slot
/// changes, and the read index never moves. Where no byte is queued, the ring
/// stays in every respect as it was.
pub fn keyboard_irq_handler(kb: &mut Keyboard, scancode: u8) -> (eoi: PortWrites)
    ensures
        final(kb)@ == key_event(old(kb)@, scancode),
        eoi@ == eoi_sequence(KEYBOARD_IRQ),
        old(kb).well_formed(),
        final(kb).well_formed(),
        final(kb).ring().read_index() == old(kb).ring().read_index(),
        match queued_byte(old(kb)@, scancode) {
            Some(byte) => final(kb).ring().write_index() == (old(kb).ring().write_index() + 1) % (
            BUF_SIZE as int) && final(kb).ring().slots() == old(kb).ring().slots().update(
                old(kb).ring().write_index(),
                byte,
            ),
            None => final(kb).ring() == old(kb).ring(),
        },
{
    proof {
        use_type_invariant(&kb.ring);
    }
    assert(scancode & RELEASE_BIT != 0 <==> scancode >= RELEASE_BIT) by (bit_vector);
    assert(scancode >= 0x80 ==> scancode & 0x7F == (scancode - 0x80) as u8) by (bit_vector);
    if scancode & RELEASE_BIT != 0 {
        let released: u8 = scancode & 0x7F;
        if released == LEFT_SHIFT || released == RIGHT_SHIFT {
            kb.shift_held = false;
        }
    } else if scancode == LEFT_SHIFT || scancode == RIGHT_SHIFT {
        kb.shift_held = true;
    } else if scancode == CAPS_LOCK {
        kb.caps_lock = !kb.caps_lock;
    } else {
        let byte: u8 = translate(scancode, kb.shift_held, kb.caps_lock);
        if byte != 0 {
            kb.ring.push(byte);
        }
    }
    send_eoi(KEYBOARD_IRQ)
}

/// Takes the oldest queued byte, or returns `None` at once if there is none.
///
/// This is the consumer's side of the ring. A byte that is taken moves the
/// read index on by one; the write index and the slots never change. Where
/// nothing is queued, the ring stays in every respect as it was.
pub fn try_read_char(kb: &mut Keyboard) -> (byte: Option<u8>)
    ensures
        byte == front(old(kb)@.queue),
        final(kb)@ == (KeyboardState { queue: dequeue(old(kb)@.queue), ..old(kb)@ }),
        old(kb).well_formed(),
        final(kb).well_formed(),
        final(kb).ring().write_index() == old(kb).ring().write_index(),
        final(kb).ring().slots() == old(kb).ring().slots(),
        byte is None <==> old(kb).ring().read_index() == old(kb).ring().write_index(),
        byte matches Some(taken) ==> taken == old(kb).ring().slots()[old(kb).ring().read_index()],
        byte is Some ==> final(kb).ring().read_index() == (old(kb).ring().read_index() + 1) % (
        BUF_SIZE as int),
        byte is None ==> final(kb).ring() == old(kb).ring(),
{
    kb.ring.pop()
}

/// Takes the oldest queued byte, and moves the read index of the ring on by
/// one; the write index and the slots stay as they were.
///
/// The caller has waited for one: while it holds the driver nothing can
/// arrive, so on an empty queue there would be nothing to return, ever.
pub fn read_char(kb: &mut Keyboard) -> (byte: u8)
    requires
        old(kb)@.queue.len() > 0,
    ensures
        byte == old(kb)@.queue[0],
        final(kb)@ == (KeyboardState { queue: old(kb)@.queue.drop_first(), ..old(kb)@ }),
        old(kb).well_formed(),
        final(kb).well_formed(),
        final(kb).ring().write_index() == old(kb).ring().write_index(),
        final(kb).ring().slots() == old(kb).ring().slots(),
        final(kb).ring().read_index() == (old(kb).ring().read_index() + 1) % (BUF_SIZE as int),
        byte == old(kb).ring().slots()[old(kb).ring().read_index()],
{
    try_read_char(kb).unwrap()
}

/// Whether `byte` ends a line.
pub open spec fn is_line_end(byte: u8) -> bool {
    byte == LINE_FEED || byte == CARRIAGE_RETURN
}

/// A line while it is read: the destination buffer, and how many bytes of it
/// make up the line so far.
pub struct Line {
    pub buf: Seq<u8>,
    pub len: nat,
}

/// The line after `byte`, which does not end it, has come in.
///
/// A backspace takes the last byte of the line back, if it has one. Any
/// other byte goes behind the line while the buffer has room, and is
/// discarded once it is full.
pub open spec fn line_input(line: Line, byte: u8) -> Line {
    if byte == BACKSPACE {
        Line {
            len: if line.len > 0 {
                (line.len - 1) as nat
            } else {
                0
            },
            ..line
        }
    } else if line.len < line.buf.len() {
        Line { buf: line.buf.update(line.len as int, byte), len: line.len + 1 }
    } else {
        line
    }
}

/// The line after the bytes of `bytes`, none of which ends it, have come in
/// one by one.
pub open spec fn line_inputs(line: Line, bytes: Seq<u8>) -> Line
    decreases bytes.len(),
{
    if bytes.len() == 0 {
        line
    } else {
        line_input(line_inputs(line, bytes.drop_last()), bytes.last())
    }
}

/// The text that typing `bytes` leaves where `room` bytes fit: a backspace
/// removes the byte before it, and what finds no room is lost.
pub open spec fn typed(bytes: Seq<u8>, room: nat) -> Seq<u8>
    decreases bytes.len(),
{
    if bytes.len() == 0 {
        Seq::empty()
    } else {
        let before = typed(bytes.drop_last(), room);
        if bytes.last() == BACKSPACE {
            if before.len() > 0 {
                before.drop_last()
            } else {
                before
            }
        } else if before.len() < room {
            before.push(bytes.last())
        } else {
            before
        }
    }
}

/// The number of bytes in `queue` before the first that ends a line, or the
/// length of `queue` if none does.
pub open spec fn line_length(queue: Seq<u8>) -> nat
    decreases queue.len(),
{
    if queue.len() == 0 || is_line_end(queue[0]) {
        0
    } else {
        1 + line_length(queue.drop_first())
    }
}

/// Whether `queue` holds a byte that ends a line.
pub open spec fn has_line(queue: Seq<u8>) -> bool {
    line_length(queue) < queue.len()
}

/// What became of a byte that was handed to [`accept_char`].
#[derive(Clone, Copy, Debug, PartialEq, Eq, Structural)]
pub enum LineStep {
    /// The byte ended the line.
    Complete,
    /// The line goes on, and now has this many bytes.
    Continue(usize),
}

/// Takes in `byte` for a line that is read into `buf` and has `len` bytes so
/// far.
///
/// This is one round of [`read_line`], for a caller that waits for each byte
/// on its own.
pub fn accept_char(buf: &mut [u8], len: usize, byte: u8) -> (step: LineStep)
    ensures
        is_line_end(byte) ==> step == LineStep::Complete && final(buf)@ == old(buf)@,
        !is_line_end(byte) ==> (step matches LineStep::Continue(next) && (Line {
            buf: final(buf)@,
            len: next as nat,
        }) == line_input(Line { buf: old(buf)@, len: len as nat }, byte)),
{
    if byte == LINE_FEED || byte == CARRIAGE_RETURN {
        return LineStep::Complete;
    }
    if byte == BACKSPACE {
        if len > 0 {
            return LineStep::Continue(len - 1);
        }
        return LineStep::Continue(len);
    }
    if len < buf.len() {
        buf[len] = byte;
        return LineStep::Continue(len + 1);
    }
    LineStep::Continue(len)
}

/// Reads one line from the queue into `buf` and returns its length.
///
/// Bytes are taken up to the first that ends a line, and that one with
/// them; it is not stored. What the line holds when it ends is what was
/// [`typed`]. Once `buf` is full, further bytes are taken and discarded.
/// The read index of the ring moves on by one for every byte taken; the
/// write index and the slots stay as they were.
///
/// The caller has waited for the end of the line to be queued, which
/// [`Keyboard::line_ready`] tells. That never comes about for a line with
/// more than 254 bytes before its end: the queue holds 255 bytes and drops
/// what arrives while it is full, the end of the line too. Whoever reads
/// lines of any length takes the bytes one by one as they arrive and hands
/// each to [`accept_char`], which is one round of this function.
pub fn read_line(kb: &mut Keyboard, buf: &mut [u8]) -> (n: usize)
    requires
        has_line(old(kb)@.queue),
    ensures
        old(kb).well_formed(),
        final(kb).well_formed(),
        final(kb).ring().write_index() == old(kb).ring().write_index(),
        final(kb).ring().slots() == old(kb).ring().slots(),
        final(kb).ring().read_index() == (old(kb).ring().read_index() + line_length(
            old(kb)@.queue,
        ) + 1) % (BUF_SIZE as int),
        final(kb)@ == (KeyboardState {
            queue: old(kb)@.queue.skip(line_length(old(kb)@.queue) as int + 1),
            ..old(kb)@
        }),
        (Line { buf: final(buf)@, len: n as nat }) == line_inputs(
            Line { buf: old(buf)@, len: 0 },
            old(kb)@.queue.take(line_length(old(kb)@.queue) as int),
        ),
        n <= old(buf)@.len(),
        final(buf)@.take(n as int) == typed(
            old(kb)@.queue.take(line_length(old(kb)@.queue) as int),
            old(buf)@.len(),
        ),
{
    proof {
        use_type_invariant(&kb.ring);
    }
    let ghost queue = kb@.queue;
    let ghost end = line_length(queue);
    let ghost mut taken: nat = 0;
    let mut i: usize = 0;
    proof {
        assert(queue.skip(0) =~= queue);
    }
    loop
        invariant
            queue == old(kb)@.queue,
            end == line_length(queue),
            end < queue.len(),
            taken <= end,
            kb@ == (KeyboardState { queue: queue.skip(taken as int), ..old(kb)@ }),
            (Line { buf: buf@, len: i as nat }) == line_inputs(
                Line { buf: old(buf)@, len: 0 },
                queue.take(taken as int),
            ),
            i <= buf@.len(),
            buf@.len() == old(buf)@.len(),
            old(kb).well_formed(),
            kb.ring().write_index() == old(kb).ring().write_index(),
            kb.ring().slots() == old(kb).ring().slots(),
            kb.ring().read_index() == (old(kb).ring().read_index() + taken) % (BUF_SIZE as int),
        decreases end - taken,
    {
        let byte: u8 = read_char(kb);
        proof {
            lemma_line_length(queue, taken);
            assert(queue.skip(taken as int).drop_first() =~= queue.skip(taken as int + 1));
        }
        match accept_char(buf, i, byte) {
            LineStep::Complete => {
                proof {
                    lemma_typed(Line { buf: old(buf)@, len: 0 }, queue.take(taken as int));
                }
                return i;
            },
            LineStep::Continue(next) => {
                proof {
                    assert(queue.take(taken as int + 1).drop_last() =~= queue.take(taken as int));
                    taken = taken + 1;
                }
                i = next;
            },
        }
    }
}

/// The bytes before the end of the first line end no line, and the byte
/// behind them, if there is one, does.
pub proof fn lemma_line_length(queue: Seq<u8>, i: nat)
    ensures
        line_length(queue) <= queue.len(),
        i < line_length(queue) ==> !is_line_end(queue[i as int]),
        i == line_length(queue) && i < queue.len() ==> is_line_end(queue[i as int]),
        i < queue.len() && is_line_end(queue[i as int]) ==> line_length(queue) <= i,
    decreases queue.len(),
{
    if queue.len() > 0 && !is_line_end(queue[0]) {
        if i == 0 {
            lemma_line_length(queue.drop_first(), 0);
        } else {
            lemma_line_length(queue.drop_first(), (i - 1) as nat);
        }
    }
}

/// While a line is read, the bytes that make it up are the text that was
/// typed on top of what the line held at first. The buffer keeps its length
/// and the line never outgrows it.
pub proof fn lemma_typed(line: Line, bytes: Seq<u8>)
    requires
        line.len <= line.buf.len(),
    ensures
        line_inputs(line, bytes).buf.len() == line.buf.len(),
        line_inputs(line, bytes).len <= line.buf.len(),
        line.len == 0 ==> line_inputs(line, bytes).buf.take(line_inputs(line, bytes).len as int)
            == typed(bytes, line.buf.len()),
    decreases bytes.len(),
{
    if bytes.len() > 0 {
        lemma_typed(line, bytes.drop_last());
    }
}

} // verus!
