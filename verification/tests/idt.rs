use thaunos::idt::{
    setup_idt, Handlers, IdtEntry, IDT_ENTRIES, INTERRUPT_GATE, KERNEL_CODE_SELECTOR,
    KEYBOARD_VECTOR,
};

const HANDLERS: Handlers = Handlers {
    default_handler: 0xFFFF_FFFF_8000_1000,
    irq_handler: 0xFFFF_FFFF_8000_2000,
    keyboard_handler: 0xFFFF_FFFF_8000_3000,
};

fn address(entry: &IdtEntry) -> u64 {
    entry.offset_low as u64 | (entry.offset_mid as u64) << 16 | (entry.offset_high as u64) << 32
}

#[test]
fn empty_entry_is_all_zero() {
    let e = IdtEntry::empty();
    assert_eq!(
        e,
        IdtEntry {
            offset_low: 0,
            selector: 0,
            ist: 0,
            type_attr: 0,
            offset_mid: 0,
            offset_high: 0,
            reserved: 0
        }
    );
}

#[test]
fn set_handler_splits_the_address() {
    let mut e = IdtEntry::empty();
    e.set_handler(0x1122_3344_5566_7788, 0x28);
    assert_eq!(e.offset_low, 0x7788);
    assert_eq!(e.offset_mid, 0x5566);
    assert_eq!(e.offset_high, 0x1122_3344);
    assert_eq!(e.selector, 0x28);
    assert_eq!(e.ist, 0);
    assert_eq!(e.type_attr, 0x8E);
    assert_eq!(e.reserved, 0);
    assert_eq!(address(&e), 0x1122_3344_5566_7788);
}

#[test]
fn set_handler_overwrites_what_was_there() {
    let mut e = IdtEntry {
        offset_low: 1,
        selector: 2,
        ist: 3,
        type_attr: 4,
        offset_mid: 5,
        offset_high: 6,
        reserved: 7,
    };
    e.set_handler(0, 0x08);
    assert_eq!(
        e,
        IdtEntry {
            offset_low: 0,
            selector: 0x08,
            ist: 0,
            type_attr: INTERRUPT_GATE,
            offset_mid: 0,
            offset_high: 0,
            reserved: 0
        }
    );
}

#[test]
fn setup_idt_gives_every_vector_its_handler() {
    let idt = setup_idt(HANDLERS);
    assert_eq!(idt.entries().len(), IDT_ENTRIES);
    for vector in 0..IDT_ENTRIES {
        let e = idt.entry(vector as u8);
        let expected = if vector == 0x21 {
            HANDLERS.keyboard_handler
        } else if (0x20..=0x2F).contains(&vector) {
            HANDLERS.irq_handler
        } else {
            HANDLERS.default_handler
        };
        assert_eq!(address(&e), expected, "vector {}", vector);
        assert_eq!(e.selector, KERNEL_CODE_SELECTOR);
        assert_eq!(e.type_attr, 0x8E);
        assert_eq!(e.ist, 0);
        assert_eq!(e.reserved, 0);
        assert_eq!(e, idt.entries()[vector]);
    }
}

#[test]
fn setup_idt_edges_of_the_hardware_range() {
    let idt = setup_idt(HANDLERS);
    assert_eq!(address(&idt.entry(0x1F)), HANDLERS.default_handler);
    assert_eq!(address(&idt.entry(0x20)), HANDLERS.irq_handler);
    assert_eq!(address(&idt.entry(KEYBOARD_VECTOR as u8)), HANDLERS.keyboard_handler);
    assert_eq!(address(&idt.entry(0x22)), HANDLERS.irq_handler);
    assert_eq!(address(&idt.entry(0x2F)), HANDLERS.irq_handler);
    assert_eq!(address(&idt.entry(0x30)), HANDLERS.default_handler);
    assert_eq!(address(&idt.entry(0)), HANDLERS.default_handler);
    assert_eq!(address(&idt.entry(255)), HANDLERS.default_handler);
}

#[test]
fn pointer_covers_the_whole_table() {
    let idt = setup_idt(HANDLERS);
    let ptr = idt.pointer(0xDEAD_BEEF_0000);
    assert_eq!(ptr.limit, 4095);
    assert_eq!(ptr.base, 0xDEAD_BEEF_0000);
}
