//! The interrupt descriptor table: 256 gates, one for every vector.
//!
//! A gate holds the address of its handler in three pieces, as the CPU wants
//! it. [`setup_idt`] builds the whole table; loading it into the CPU is left
//! to the owner of the machine, who must do so before interrupts are enabled.

use vstd::prelude::*;

verus! {

/// Number of vectors, and of gates in the table.
pub const IDT_ENTRIES: usize = 256;

/// Size of one gate in memory, in bytes.
pub const IDT_ENTRY_SIZE: usize = 16;

/// Selector of the 64-bit code segment that the boot stage set up.
pub const KERNEL_CODE_SELECTOR: u16 = 0x28;

/// Attribute byte of a gate that is present, of ring 0, and a 64-bit
/// interrupt gate.
pub const INTERRUPT_GATE: u8 = 0x8E;

/// Vector of the first hardware request line.
pub const IRQ_FIRST_VECTOR: usize = 0x20;

/// Vector of the last hardware request line.
pub const IRQ_LAST_VECTOR: usize = 0x2F;

/// Vector of the keyboard's request line.
pub const KEYBOARD_VECTOR: usize = 0x21;

/// One gate of the table.
#[derive(Clone, Copy, Debug, PartialEq, Eq, Structural)]
pub struct IdtEntry {
    pub offset_low: u16,
    pub selector: u16,
    pub ist: u8,
    pub type_attr: u8,
    pub offset_mid: u16,
    pub offset_high: u32,
    pub reserved: u32,
}

/// What the CPU's table register is loaded with.
#[derive(Clone, Copy, Debug, PartialEq, Eq, Structural)]
pub struct IdtPtr {
    pub limit: u16,
    pub base: u64,
}

/// The entry addresses of the three handlers that the table refers to.
#[derive(Clone, Copy, Debug, PartialEq, Eq, Structural)]
pub struct Handlers {
    /// Disables interrupts and halts for good.
    pub default_handler: u64,
    /// Acknowledges a hardware interrupt and returns.
    pub irq_handler: u64,
    /// Serves the keyboard.
    pub keyboard_handler: u64,
}

/// The descriptor that sends its vector to `handler`, to run in segment
/// `selector`.
pub open spec fn gate(handler: u64, selector: u16) -> IdtEntry {
    IdtEntry {
        offset_low: (handler & 0xFFFF) as u16,
        selector,
        ist: 0,
        type_attr: INTERRUPT_GATE,
        offset_mid: ((handler >> 16) & 0xFFFF) as u16,
        offset_high: (handler >> 32) as u32,
        reserved: 0,
    }
}

/// The handler that serves `vector`: the keyboard's on its own vector, the
/// acknowledging one on the other hardware vectors, the halting one on all
/// the rest.
pub open spec fn handler_for(handlers: Handlers, vector: int) -> u64 {
    if vector == KEYBOARD_VECTOR {
        handlers.keyboard_handler
    } else if IRQ_FIRST_VECTOR <= vector <= IRQ_LAST_VECTOR {
        handlers.irq_handler
    } else {
        handlers.default_handler
    }
}

/// The table in which every vector leads to the handler that serves it.
pub open spec fn installed(handlers: Handlers) -> Seq<IdtEntry> {
    Seq::new(
        IDT_ENTRIES as nat,
        |vector: int| gate(handler_for(handlers, vector), KERNEL_CODE_SELECTOR),
    )
}

impl IdtEntry {
    /// The address that this descriptor sends its vector to.
    pub open spec fn handler(&self) -> u64 {
        (self.offset_low as u64) | ((self.offset_mid as u64) << 16) | ((self.offset_high as u64)
            << 32)
    }

    /// Whether the CPU takes this descriptor as valid.
    pub open spec fn present(&self) -> bool {
        self.type_attr & 0x80 != 0
    }

    /// The least privileged ring that may raise the vector by an instruction.
    pub open spec fn privilege(&self) -> u8 {
        (self.type_attr >> 5) & 0x3
    }

    /// The type of the descriptor; `0xE` is a 64-bit interrupt gate.
    pub open spec fn gate_type(&self) -> u8 {
        self.type_attr & 0x0F
    }

    /// A gate that is not present, with every field zero.
    pub fn empty() -> (entry: Self)
        ensures
            entry == (IdtEntry {
                offset_low: 0,
                selector: 0,
                ist: 0,
                type_attr: 0,
                offset_mid: 0,
                offset_high: 0,
                reserved: 0,
            }),
    {
        IdtEntry {
            offset_low: 0,
            selector: 0,
            ist: 0,
            type_attr: 0,
            offset_mid: 0,
            offset_high: 0,
            reserved: 0,
        }
    }

    /// Makes this descriptor a present interrupt gate of ring 0 that sends
    /// its vector to `handler`, on the current stack.
    pub fn set_handler(&mut self, handler: u64, selector: u16)
        ensures
            *final(self) == gate(handler, selector),
    {
        self.offset_low = (handler & 0xFFFF) as u16;
        self.offset_mid = ((handler >> 16) & 0xFFFF) as u16;
        self.offset_high = (handler >> 32) as u32;
        self.selector = selector;
        self.ist = 0;
        self.type_attr = INTERRUPT_GATE;
        self.reserved = 0;
    }
}

/// The table of all 256 gates.
#[derive(Debug)]
pub struct Idt {
    entries: [IdtEntry; 256],
}

impl View for Idt {
    type V = Seq<IdtEntry>;

    closed spec fn view(&self) -> Seq<IdtEntry> {
        self.entries@
    }
}

impl Idt {
    /// The descriptor of `vector`.
    pub fn entry(&self, vector: u8) -> (entry: IdtEntry)
        ensures
            entry == self@[vector as int],
    {
        self.entries[vector as usize]
    }

    /// The gates in the order of their vectors.
    pub fn entries(&self) -> (out: &[IdtEntry; 256])
        ensures
            out@ == self@,
    {
        &self.entries
    }

    /// The value for the CPU's table register, for a table that lies at
    /// address `base`.
    pub fn pointer(&self, base: u64) -> (ptr: IdtPtr)
        ensures
            ptr.limit == IDT_ENTRIES * IDT_ENTRY_SIZE - 1,
            ptr.base == base,
    {
        IdtPtr { limit: (IDT_ENTRIES * IDT_ENTRY_SIZE - 1) as u16, base }
    }
}

/// Builds the table.
///
/// Every vector first gets the halting handler: what nobody expects stops the
/// machine. The sixteen hardware vectors then get the handler that only
/// acknowledges, so that a line which nobody serves does no harm, and last
/// the keyboard's vector gets the keyboard's handler.
pub fn setup_idt(handlers: Handlers) -> (idt: Idt)
    ensures
        idt@ == installed(handlers),
{
    let mut entries: [IdtEntry; 256] = [IdtEntry::empty(); 256];
    let mut vector: usize = 0;
    while vector < IDT_ENTRIES
        invariant
            vector <= IDT_ENTRIES,
            forall|v: int|
                0 <= v < vector ==> #[trigger] entries@[v] == gate(
                    handlers.default_handler,
                    KERNEL_CODE_SELECTOR,
                ),
        decreases IDT_ENTRIES - vector,
    {
        entries[vector].set_handler(handlers.default_handler, KERNEL_CODE_SELECTOR);
        vector += 1;
    }
    let mut vector: usize = IRQ_FIRST_VECTOR;
    while vector <= IRQ_LAST_VECTOR
        invariant
            IRQ_FIRST_VECTOR <= vector <= IRQ_LAST_VECTOR + 1,
            forall|v: int|
                0 <= v < IDT_ENTRIES ==> #[trigger] entries@[v] == gate(
                    if IRQ_FIRST_VECTOR <= v < vector {
                        handlers.irq_handler
                    } else {
                        handlers.default_handler
                    },
                    KERNEL_CODE_SELECTOR,
                ),
        decreases IRQ_LAST_VECTOR + 1 - vector,
    {
        entries[vector].set_handler(handlers.irq_handler, KERNEL_CODE_SELECTOR);
        vector += 1;
    }
    entries[KEYBOARD_VECTOR].set_handler(handlers.keyboard_handler, KERNEL_CODE_SELECTOR);
    Idt { entries }
}

/// A gate sends its vector to the very address that it was made from: the
/// three pieces put together give the handler back.
pub proof fn lemma_gate_handler(handler: u64, selector: u16)
    ensures
        gate(handler, selector).handler() == handler,
        gate(handler, selector).selector == selector,
{
    assert((((handler & 0xFFFF) as u16) as u64) | ((((handler >> 16) & 0xFFFF) as u16) as u64)
        << 16 | (((handler >> 32) as u32) as u64) << 32 == handler) by (bit_vector);
}

/// A gate is present, open to ring 0 only, and a 64-bit interrupt gate.
pub proof fn lemma_gate_attributes(handler: u64, selector: u16)
    ensures
        gate(handler, selector).present(),
        gate(handler, selector).privilege() == 0,
        gate(handler, selector).gate_type() == 0xE,
        gate(handler, selector).ist == 0,
{
    assert(0x8Eu8 & 0x80 != 0) by (bit_vector);
    assert((0x8Eu8 >> 5) & 0x3 == 0) by (bit_vector);
    assert(0x8Eu8 & 0x0F == 0xE) by (bit_vector);
}

/// Every vector of the table that [`setup_idt`] builds has a present
/// descriptor, which leads to the handler that serves the vector.
pub proof fn lemma_every_vector_served(handlers: Handlers, vector: int)
    requires
        0 <= vector < IDT_ENTRIES,
    ensures
        installed(handlers).len() == IDT_ENTRIES,
        installed(handlers)[vector].present(),
        installed(handlers)[vector].handler() == handler_for(handlers, vector),
{
    lemma_gate_handler(handler_for(handlers, vector), KERNEL_CODE_SELECTOR);
    lemma_gate_attributes(handler_for(handlers, vector), KERNEL_CODE_SELECTOR);
}

} // verus!
