//! Driver for the two cascaded 8259 interrupt controllers.
//!
//! The master serves request lines 0 to 7, the slave lines 8 to 15; the slave
//! reports through line 2 of the master. After [`init`] the lines raise the
//! vectors `0x20` to `0x2F`, clear of the CPU's own exceptions.
//!
//! [`Pic`] mirrors the two mask registers. Every function here returns the
//! port writes that bring the hardware to the state that it describes; the
//! mirror is true as long as each batch is performed.

use vstd::prelude::*;
use crate::port::{PortWrite, PortWrites, delay};

verus! {

/// Command port of the master controller.
pub const PIC1_CMD: u16 = 0x20;

/// Data port of the master controller.
pub const PIC1_DATA: u16 = 0x21;

/// Command port of the slave controller.
pub const PIC2_CMD: u16 = 0xA0;

/// Data port of the slave controller.
pub const PIC2_DATA: u16 = 0xA1;

/// First command word: an initialisation sequence begins.
pub const ICW1_INIT: u8 = 0x10;

/// First command word: a fourth command word will follow.
pub const ICW1_ICW4: u8 = 0x01;

/// Fourth command word: 8086 mode.
pub const ICW4_8086: u8 = 0x01;

/// Vector raised by request line 0.
pub const MASTER_OFFSET: u8 = 0x20;

/// Vector raised by request line 8.
pub const SLAVE_OFFSET: u8 = 0x28;

/// The master's line that the slave reports through.
pub const CASCADE_LINE: u8 = 2;

/// The end-of-interrupt command.
pub const EOI: u8 = 0x20;

/// The interrupt-mask registers of the two controllers. A set bit suppresses
/// its line.
#[derive(Clone, Copy, Debug, PartialEq, Eq, Structural)]
pub struct Pic {
    pub master_mask: u8,
    pub slave_mask: u8,
}

/// The vector that request line `irq` raises once the controllers are
/// initialised.
pub open spec fn irq_vector(irq: u8) -> int
    recommends
        irq < 16,
{
    if irq < 8 {
        MASTER_OFFSET + irq
    } else {
        SLAVE_OFFSET + (irq - 8)
    }
}

/// Whether `mask` suppresses line `bit` of its controller.
pub open spec fn masked(mask: u8, bit: u8) -> bool
    recommends
        bit < 8,
{
    mask & (1u8 << bit) != 0
}

/// `mask` with line `bit` of its controller let through.
pub open spec fn clear_line(mask: u8, bit: u8) -> u8
    recommends
        bit < 8,
{
    mask & !(1u8 << bit)
}

/// The writes of the initialisation handshake, which ends by restoring the
/// two masks given.
pub open spec fn init_sequence(master_mask: u8, slave_mask: u8) -> Seq<PortWrite> {
    seq![
        PortWrite { port: PIC1_CMD, value: 0x11 },
        delay(),
        PortWrite { port: PIC2_CMD, value: 0x11 },
        delay(),
        PortWrite { port: PIC1_DATA, value: MASTER_OFFSET },
        delay(),
        PortWrite { port: PIC2_DATA, value: SLAVE_OFFSET },
        delay(),
        PortWrite { port: PIC1_DATA, value: 0x04 },
        delay(),
        PortWrite { port: PIC2_DATA, value: 0x02 },
        delay(),
        PortWrite { port: PIC1_DATA, value: ICW4_8086 },
        delay(),
        PortWrite { port: PIC2_DATA, value: ICW4_8086 },
        delay(),
        PortWrite { port: PIC1_DATA, value: master_mask },
        delay(),
        PortWrite { port: PIC2_DATA, value: slave_mask },
        delay(),
    ]
}

/// The writes that suppress every line.
pub open spec fn mask_all_sequence() -> Seq<PortWrite> {
    seq![
        PortWrite { port: PIC1_DATA, value: 0xFF },
        delay(),
        PortWrite { port: PIC2_DATA, value: 0xFF },
        delay(),
    ]
}

/// The mask registers after line `irq` is let through.
pub open spec fn unmasked(pic: Pic, irq: u8) -> Pic
    recommends
        irq < 16,
{
    if irq < 8 {
        Pic { master_mask: clear_line(pic.master_mask, irq), slave_mask: pic.slave_mask }
    } else {
        Pic {
            master_mask: clear_line(pic.master_mask, CASCADE_LINE),
            slave_mask: clear_line(pic.slave_mask, (irq - 8) as u8),
        }
    }
}

/// The writes that let line `irq` through, starting from the masks in `pic`.
pub open spec fn unmask_sequence(pic: Pic, irq: u8) -> Seq<PortWrite>
    recommends
        irq < 16,
{
    if irq < 8 {
        seq![PortWrite { port: PIC1_DATA, value: unmasked(pic, irq).master_mask }]
    } else {
        seq![
            PortWrite { port: PIC2_DATA, value: unmasked(pic, irq).slave_mask },
            PortWrite { port: PIC1_DATA, value: unmasked(pic, irq).master_mask },
        ]
    }
}

/// The writes that acknowledge an interrupt on line `irq`.
pub open spec fn eoi_sequence(irq: u8) -> Seq<PortWrite> {
    if irq >= 8 {
        seq![PortWrite { port: PIC2_CMD, value: EOI }, PortWrite { port: PIC1_CMD, value: EOI }]
    } else {
        seq![PortWrite { port: PIC1_CMD, value: EOI }]
    }
}

impl Pic {
    /// The mirror of mask registers that were read as `master_mask` and
    /// `slave_mask`.
    pub fn new(master_mask: u8, slave_mask: u8) -> (pic: Pic)
        ensures
            pic == (Pic { master_mask, slave_mask }),
    {
        Pic { master_mask, slave_mask }
    }
}

/// Remaps the request lines to the vectors from `0x20` on.
///
/// The handshake has four steps, each on the master and then on the slave:
/// start of initialisation in cascade mode, the vector offset, the cascade
/// wiring, and 8086 mode. A settling delay follows every write. The masks in
/// `pic` are written back at the end, so the handshake lets no line through
/// that was suppressed before it.
pub fn init(pic: &Pic) -> (writes: PortWrites)
    ensures
        writes@ == init_sequence(pic.master_mask, pic.slave_mask),
{
    let mut writes = PortWrites::new();
    writes.push_settled(PortWrite { port: PIC1_CMD, value: ICW1_INIT | ICW1_ICW4 });
    writes.push_settled(PortWrite { port: PIC2_CMD, value: ICW1_INIT | ICW1_ICW4 });
    writes.push_settled(PortWrite { port: PIC1_DATA, value: MASTER_OFFSET });
    writes.push_settled(PortWrite { port: PIC2_DATA, value: SLAVE_OFFSET });
    writes.push_settled(PortWrite { port: PIC1_DATA, value: 1u8 << CASCADE_LINE });
    writes.push_settled(PortWrite { port: PIC2_DATA, value: CASCADE_LINE });
    writes.push_settled(PortWrite { port: PIC1_DATA, value: ICW4_8086 });
    writes.push_settled(PortWrite { port: PIC2_DATA, value: ICW4_8086 });
    writes.push_settled(PortWrite { port: PIC1_DATA, value: pic.master_mask });
    writes.push_settled(PortWrite { port: PIC2_DATA, value: pic.slave_mask });
    assert(ICW1_INIT | ICW1_ICW4 == 0x11u8) by (bit_vector);
    assert(1u8 << CASCADE_LINE == 0x04u8) by (bit_vector);
    writes
}

/// Lets request line `irq` through.
///
/// Exactly the bit of that line is cleared in the mask of the controller
/// that serves it. For a line of the slave the master's cascade line is let
/// through as well: while it is suppressed nothing that the slave reports
/// reaches the CPU.
pub fn unmask_irq(pic: &mut Pic, irq: u8) -> (writes: PortWrites)
    requires
        irq < 16,
    ensures
        *final(pic) == unmasked(*old(pic), irq),
        writes@ == unmask_sequence(*old(pic), irq),
{
    let mut writes = PortWrites::new();
    if irq < 8 {
        let mask: u8 = pic.master_mask & !(1u8 << irq);
        pic.master_mask = mask;
        writes.push(PortWrite { port: PIC1_DATA, value: mask });
    } else {
        let mask: u8 = pic.slave_mask & !(1u8 << (irq - 8));
        pic.slave_mask = mask;
        writes.push(PortWrite { port: PIC2_DATA, value: mask });
        let master: u8 = pic.master_mask & !(1u8 << CASCADE_LINE);
        pic.master_mask = master;
        writes.push(PortWrite { port: PIC1_DATA, value: master });
    }
    writes
}

/// Suppresses every request line: nothing can interrupt.
pub fn mask_all(pic: &mut Pic) -> (writes: PortWrites)
    ensures
        *final(pic) == (Pic { master_mask: 0xFF, slave_mask: 0xFF }),
        writes@ == mask_all_sequence(),
{
    let mut writes = PortWrites::new();
    pic.master_mask = 0xFF;
    pic.slave_mask = 0xFF;
    writes.push_settled(PortWrite { port: PIC1_DATA, value: 0xFF });
    writes.push_settled(PortWrite { port: PIC2_DATA, value: 0xFF });
    writes
}

/// Acknowledges an interrupt on line `irq`: to the slave if the line is one
/// of its own, and to the master in every case.
pub fn send_eoi(irq: u8) -> (writes: PortWrites)
    ensures
        writes@ == eoi_sequence(irq),
{
    let mut writes = PortWrites::new();
    if irq >= 8 {
        writes.push(PortWrite { port: PIC2_CMD, value: EOI });
    }
    writes.push(PortWrite { port: PIC1_CMD, value: EOI });
    writes
}

/// Letting a line through clears the bit of that line and no other; for a
/// line of the slave it also clears the cascade bit of the master, and no
/// other bit there.
pub proof fn lemma_unmask_clears_one_line(pic: Pic, irq: u8, bit: u8)
    requires
        irq < 16,
        bit < 8,
    ensures
        irq < 8 ==> masked(unmasked(pic, irq).master_mask, bit) == (bit != irq && masked(
            pic.master_mask,
            bit,
        )),
        irq < 8 ==> unmasked(pic, irq).slave_mask == pic.slave_mask,
        irq >= 8 ==> masked(unmasked(pic, irq).slave_mask, bit) == (bit != irq - 8 && masked(
            pic.slave_mask,
            bit,
        )),
        irq >= 8 ==> masked(unmasked(pic, irq).master_mask, bit) == (bit != CASCADE_LINE
            && masked(pic.master_mask, bit)),
{
    lemma_clear_line(pic.master_mask, CASCADE_LINE, bit);
    if irq < 8 {
        lemma_clear_line(pic.master_mask, irq, bit);
    } else {
        lemma_clear_line(pic.slave_mask, (irq - 8) as u8, bit);
    }
}

/// Clearing line `line` of a mask leaves every other line as it was.
pub proof fn lemma_clear_line(mask: u8, line: u8, bit: u8)
    requires
        line < 8,
        bit < 8,
    ensures
        masked(clear_line(mask, line), bit) == (bit != line && masked(mask, bit)),
{
    assert((mask & !(1u8 << line)) & (1u8 << bit) != 0 <==> (bit != line && mask & (1u8 << bit)
        != 0)) by (bit_vector)
        requires
            line < 8,
            bit < 8,
    ;
}

} // verus!
