use thaunos::boot::{
    framebuffer_info, init, negotiate, BootError, Display, FramebufferInfo, BASE_REVISION,
    BASE_REVISION_REQUEST, FRAMEBUFFER_REQUEST_ID, FRAMEBUFFER_REQUEST_REVISION,
    REQUESTS_END_MARKER, REQUESTS_START_MARKER,
};
use thaunos::idt::Handlers;
use thaunos::pic::Pic;
use thaunos::port::PortWrite;

const ACKNOWLEDGED: [u64; 3] = [0xf9562b2d5c95a6c8, 0x6a7b384944536bdc, 0];

const HANDLERS: Handlers = Handlers { default_handler: 0x1000, irq_handler: 0x2000, keyboard_handler: 0x3000 };

fn fb(address: u64) -> FramebufferInfo {
    FramebufferInfo { address, width: 1024, height: 768, pitch: 4096, bpp: 32 }
}

fn w(port: u16, value: u8) -> PortWrite {
    PortWrite { port, value }
}

#[test]
fn the_request_records_are_bit_exact() {
    assert_eq!(BASE_REVISION, 4);
    assert_eq!(BASE_REVISION_REQUEST, [0xf9562b2d5c95a6c8, 0x6a7b384944536bdc, 4]);
    assert_eq!(
        FRAMEBUFFER_REQUEST_ID,
        [0xc7b1dd30df4c8b88, 0x0a82e883a194f07b, 0x9d5827dcd881dd75, 0xa3148604f6fab11b]
    );
    assert_eq!(FRAMEBUFFER_REQUEST_REVISION, 0);
    assert_eq!(
        REQUESTS_START_MARKER,
        [0xf6b8f4b39de7d1ae, 0xfab91a6940fcb9cf, 0x785c6ed015d3e316, 0x181e920a7852b9d9]
    );
    assert_eq!(REQUESTS_END_MARKER, [0xadc0e0531bb10d03, 0x9572709f31764c62]);
}

#[test]
fn negotiate_takes_the_first_framebuffer() {
    let list = [fb(0xA000), fb(0xB000)];
    assert_eq!(negotiate(&ACKNOWLEDGED, Some(&list)), Ok(fb(0xA000)));
    let one = [fb(0xC000)];
    assert_eq!(negotiate(&ACKNOWLEDGED, Some(&one)), Ok(fb(0xC000)));
}

#[test]
fn negotiate_rejects_a_revision_that_was_not_acknowledged() {
    let list = [fb(0xA000)];
    assert_eq!(negotiate(&BASE_REVISION_REQUEST, Some(&list)), Err(BootError::UnsupportedRevision));
    assert_eq!(negotiate(&[0, 0, 1], Some(&list)), Err(BootError::UnsupportedRevision));
    assert_eq!(negotiate(&BASE_REVISION_REQUEST, None), Err(BootError::UnsupportedRevision));
    assert_eq!(negotiate(&BASE_REVISION_REQUEST, Some(&[])), Err(BootError::UnsupportedRevision));
}

#[test]
fn negotiate_rejects_a_missing_or_empty_answer() {
    assert_eq!(negotiate(&ACKNOWLEDGED, None), Err(BootError::NoFramebuffer));
    assert_eq!(negotiate(&ACKNOWLEDGED, Some(&[])), Err(BootError::NoFramebuffer));
}

#[test]
fn a_display_is_not_available_until_it_is_published() {
    let mut display = Display::new();
    assert_eq!(framebuffer_info(&display), None);
    display.publish(fb(0xFD00_0000));
    assert_eq!(framebuffer_info(&display), Some(&fb(0xFD00_0000)));
}

#[test]
fn init_brings_the_kernel_up() {
    let list = [fb(0xFD00_0000), fb(0x1)];
    let mut up = init(HANDLERS, &ACKNOWLEDGED, Some(&list));
    assert_eq!(up.idt.entry(0x21).offset_low, 0x3000);
    assert_eq!(up.idt.entry(0x20).offset_low, 0x2000);
    assert_eq!(up.idt.entry(0x00).offset_low, 0x1000);
    let running = up.outcome.as_mut().ok().expect("the kernel is up");
    assert_eq!(framebuffer_info(&running.display), Some(&fb(0xFD00_0000)));
    assert_eq!(running.pic, Pic { master_mask: 0xFD, slave_mask: 0xFF });
    assert_eq!(running.keyboard.pending(), 0);
    assert_eq!(running.keyboard.ring_buffer().write_idx(), 0);
    assert_eq!(running.keyboard.ring_buffer().read_idx(), 0);
    assert_eq!(running.keyboard.ring_buffer().buffer(), &[0u8; 256]);
    assert!(!running.keyboard.shift_held());
    assert!(!running.keyboard.caps_lock());
    let d = w(0x80, 0);
    assert_eq!(
        running.pic_writes.as_slice(),
        &[
            w(0x21, 0xFF), d,
            w(0xA1, 0xFF), d,
            w(0x20, 0x11), d,
            w(0xA0, 0x11), d,
            w(0x21, 0x20), d,
            w(0xA1, 0x28), d,
            w(0x21, 0x04), d,
            w(0xA1, 0x02), d,
            w(0x21, 0x01), d,
            w(0xA1, 0x01), d,
            w(0x21, 0xFF), d,
            w(0xA1, 0xFF), d,
            w(0x21, 0xFD),
        ]
    );
}

#[test]
fn init_halts_on_an_unsupported_revision() {
    let list = [fb(0xFD00_0000)];
    let up = init(HANDLERS, &BASE_REVISION_REQUEST, Some(&list));
    assert_eq!(up.idt.entry(0x21).offset_low, 0x3000);
    assert!(matches!(up.outcome, Err(BootError::UnsupportedRevision)));
}

#[test]
fn init_halts_without_a_framebuffer() {
    let up = init(HANDLERS, &ACKNOWLEDGED, None);
    assert_eq!(up.idt.entry(0x00).offset_low, 0x1000);
    assert!(matches!(up.outcome, Err(BootError::NoFramebuffer)));
    let up = init(HANDLERS, &ACKNOWLEDGED, Some(&[]));
    assert!(matches!(up.outcome, Err(BootError::NoFramebuffer)));
}
