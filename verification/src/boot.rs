//! The handoff from the bootloader, and the order in which the kernel comes
//! up.
//!
//! The kernel leaves request records where the bootloader finds them. The
//! bootloader answers in place: it zeroes the last word of the base-revision
//! record if it speaks that revision, and it hangs its list of framebuffers
//! on the framebuffer request. [`negotiate`] judges the answers, and [`init`]
//! works out everything that bring-up has to do, in order.
//!
//! Two answers are fatal: a bootloader that does not speak the revision, and
//! one that offers no framebuffer. The kernel then has nothing to fall back
//! on and is to halt with interrupts off.

use vstd::prelude::*;
use crate::idt::{installed, lemma_every_vector_served, setup_idt, Handlers, Idt, IDT_ENTRIES};
use crate::keyboard::{Keyboard, KEYBOARD_IRQ};
use crate::pic::{
    init_sequence, irq_vector, mask_all, mask_all_sequence, unmask_irq, unmask_sequence, unmasked,
    Pic,
};
use crate::port::{PortWrite, PortWrites};

verus! {

/// The revision of the boot protocol that the kernel asks for.
pub const BASE_REVISION: u64 = 4;

/// The base-revision record as the kernel publishes it.
pub const BASE_REVISION_REQUEST: [u64; 3] = [0xf9562b2d5c95a6c8, 0x6a7b384944536bdc, 4];

/// The words that identify a framebuffer request.
pub const FRAMEBUFFER_REQUEST_ID: [u64; 4] = [
    0xc7b1dd30df4c8b88,
    0x0a82e883a194f07b,
    0x9d5827dcd881dd75,
    0xa3148604f6fab11b,
];

/// The revision of the framebuffer request.
pub const FRAMEBUFFER_REQUEST_REVISION: u64 = 0;

/// The record that stands before the first request.
pub const REQUESTS_START_MARKER: [u64; 4] = [
    0xf6b8f4b39de7d1ae,
    0xfab91a6940fcb9cf,
    0x785c6ed015d3e316,
    0x181e920a7852b9d9,
];

/// The record that stands behind the last request.
pub const REQUESTS_END_MARKER: [u64; 2] = [0xadc0e0531bb10d03, 0x9572709f31764c62];

/// Where a framebuffer lies and how it is laid out.
#[derive(Clone, Copy, Debug, PartialEq, Eq, Structural)]
pub struct FramebufferInfo {
    /// Address of the first pixel.
    pub address: u64,
    /// Pixels in a row.
    pub width: u64,
    /// Rows.
    pub height: u64,
    /// Bytes from one row to the next.
    pub pitch: u64,
    /// Bits in a pixel.
    pub bpp: u16,
}

/// Why the kernel cannot come up.
#[derive(Clone, Copy, Debug, PartialEq, Eq, Structural)]
pub enum BootError {
    /// The bootloader does not speak the revision that was asked for.
    UnsupportedRevision,
    /// The bootloader answered the framebuffer request with nothing, or with
    /// an empty list.
    NoFramebuffer,
}

/// Whether the bootloader has acknowledged the revision in `record`, the
/// base-revision record as it stands after the handoff.
pub open spec fn revision_supported(record: Seq<u64>) -> bool {
    record[2] == 0
}

/// The verdict on what the bootloader left: the first framebuffer of its
/// list, or the reason to halt. The revision is judged first.
pub open spec fn negotiated(record: Seq<u64>, response: Option<Seq<FramebufferInfo>>) -> Result<
    FramebufferInfo,
    BootError,
> {
    if !revision_supported(record) {
        Err(BootError::UnsupportedRevision)
    } else {
        match response {
            Some(framebuffers) if framebuffers.len() >= 1 => Ok(framebuffers[0]),
            _ => Err(BootError::NoFramebuffer),
        }
    }
}

/// The answer to the framebuffer request, as a value.
pub open spec fn response_view(response: Option<&[FramebufferInfo]>) -> Option<
    Seq<FramebufferInfo>,
> {
    match response {
        Some(framebuffers) => Some(framebuffers@),
        None => None,
    }
}

/// Judges what the bootloader left behind.
///
/// `record` is the base-revision record as it stands after the handoff, and
/// `response` the list that hangs on the framebuffer request, `None` where
/// the bootloader hung nothing there.
pub fn negotiate(record: &[u64; 3], response: Option<&[FramebufferInfo]>) -> (verdict: Result<
    FramebufferInfo,
    BootError,
>)
    ensures
        verdict == negotiated(record@, response_view(response)),
{
    if record[2] != 0 {
        return Err(BootError::UnsupportedRevision);
    }
    match response {
        Some(framebuffers) => {
            if framebuffers.len() < 1 {
                return Err(BootError::NoFramebuffer);
            }
            Ok(framebuffers[0])
        },
        None => Err(BootError::NoFramebuffer),
    }
}

/// The descriptor of the display, with the flag that tells whether it has
/// been filled in.
#[derive(Clone, Copy, Debug)]
pub struct Display {
    ready: bool,
    info: FramebufferInfo,
}

impl View for Display {
    type V = Option<FramebufferInfo>;

    /// The descriptor, once it is published.
    closed spec fn view(&self) -> Option<FramebufferInfo> {
        if self.ready {
            Some(self.info)
        } else {
            None
        }
    }
}

impl Display {
    /// A display of which nothing is known yet.
    pub fn new() -> (display: Self)
        ensures
            display@ is None,
    {
        Display {
            ready: false,
            info: FramebufferInfo { address: 0, width: 0, height: 0, pitch: 0, bpp: 0 },
        }
    }

    /// Fills in the descriptor and then, last, raises the flag. A display is
    /// published once, and read only from then on.
    pub fn publish(&mut self, info: FramebufferInfo)
        requires
            old(self)@ is None,
        ensures
            final(self)@ == Some(info),
    {
        self.info = info;
        self.ready = true;
    }
}

/// The descriptor of the display if it has been published, and `None`
/// otherwise: never a guess, never a descriptor that was not filled in.
pub fn framebuffer_info(display: &Display) -> (info: Option<&FramebufferInfo>)
    ensures
        match info {
            Some(info) => display@ == Some(*info),
            None => display@ is None,
        },
{
    if display.ready {
        Some(&display.info)
    } else {
        None
    }
}

/// What the kernel owns once it is up.
pub struct Running {
    /// The published display.
    pub display: Display,
    /// The mask registers as the writes below leave them.
    pub pic: Pic,
    /// The keyboard driver, idle.
    pub keyboard: Keyboard,
    /// The writes that program the interrupt controllers, to be performed in
    /// order before interrupts are enabled.
    pub pic_writes: PortWrites,
}

/// What bring-up comes to.
pub struct BringUp {
    /// The interrupt table. It is to be loaded first, whatever the outcome,
    /// so that a fault while the kernel comes up or halts is caught.
    pub idt: Idt,
    /// The running kernel, or the reason to halt.
    pub outcome: Result<Running, BootError>,
}

/// The mask registers once the kernel is up: the keyboard's line is let
/// through, and nothing else.
pub open spec fn running_pic() -> Pic {
    unmasked(Pic { master_mask: 0xFF, slave_mask: 0xFF }, KEYBOARD_IRQ)
}

/// The writes that program the interrupt controllers during bring-up: every
/// line is suppressed, the lines are remapped, and the keyboard's line is let
/// through.
pub open spec fn running_pic_writes() -> Seq<PortWrite> {
    mask_all_sequence() + init_sequence(0xFF, 0xFF) + unmask_sequence(
        Pic { master_mask: 0xFF, slave_mask: 0xFF },
        KEYBOARD_IRQ,
    )
}

/// Works out the kernel's bring-up.
///
/// The interrupt table comes first. Then the bootloader's answers are
/// judged: see [`negotiate`]. Only if they are good is the display
/// published and are the interrupt controllers programmed. Enabling
/// interrupts is the caller's last step, after the table is loaded and the
/// writes are performed.
pub fn init(handlers: Handlers, record: &[u64; 3], response: Option<&[FramebufferInfo]>) -> (up:
    BringUp)
    ensures
        up.idt@ == installed(handlers),
        match negotiated(record@, response_view(response)) {
            Ok(info) => up.outcome matches Ok(running) && running.display@ == Some(info)
                && running.pic == running_pic() && running.pic_writes@ == running_pic_writes()
                && running.keyboard.is_new(),
            Err(error) => up.outcome == Err::<Running, BootError>(error),
        },
{
    let idt = setup_idt(handlers);
    let info = match negotiate(record, response) {
        Ok(info) => info,
        Err(error) => {
            return BringUp { idt, outcome: Err(error) };
        },
    };
    let mut display = Display::new();
    display.publish(info);
    // What the mask registers hold at this point does not matter: the first
    // writes suppress every line.
    let mut pic = Pic::new(0xFF, 0xFF);
    let mut pic_writes = mask_all(&mut pic);
    let remap = crate::pic::init(&pic);
    pic_writes.append(&remap);
    let unmask = unmask_irq(&mut pic, KEYBOARD_IRQ);
    pic_writes.append(&unmask);
    BringUp {
        idt,
        outcome: Ok(Running { display, pic, keyboard: Keyboard::new(), pic_writes }),
    }
}

/// The interrupt table and the interrupt controllers agree: the vector that
/// a request line raises leads to the keyboard's handler for the keyboard's
/// line, and to the handler that only acknowledges for every other line.
pub proof fn lemma_vectors_agree(handlers: Handlers, irq: u8)
    requires
        irq < 16,
    ensures
        0 <= irq_vector(irq) < IDT_ENTRIES,
        installed(handlers)[irq_vector(irq)].handler() == (if irq == KEYBOARD_IRQ {
            handlers.keyboard_handler
        } else {
            handlers.irq_handler
        }),
{
    lemma_every_vector_served(handlers, irq_vector(irq));
}

/// Once the kernel is up, the keyboard's line is the only one that the
/// interrupt controllers let through.
pub proof fn lemma_only_keyboard_unmasked()
    ensures
        running_pic() == (Pic { master_mask: 0xFD, slave_mask: 0xFF }),
{
    assert(0xFFu8 & !(1u8 << 1u8) == 0xFDu8) by (bit_vector);
}

} // verus!
