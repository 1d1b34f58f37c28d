use thaunos::demo::{rand, Banner, HELLO_WORKS, HELLO_WORLD, MESSAGE};
use thaunos::vga_tty::Terminal;

#[test]
fn rand_is_its_seed() {
    assert_eq!(rand(0), 0);
    assert_eq!(rand(17), 17);
    assert_eq!(rand(-5), -5);
    assert_eq!(rand(i32::MAX), i32::MAX);
}

#[test]
fn the_texts_of_the_banner() {
    assert_eq!(&HELLO_WORLD, b"Hello, kernel World!\n\0");
    assert_eq!(&HELLO_WORKS, b"Hello, This Works!!\n\0");
    assert_eq!(&MESSAGE, b"Hello! Thaunos is alive!\n\0");
}

#[test]
fn the_banner_starts_with_the_greeting() {
    let mut term = Terminal::new();
    term.write(b'x');
    term.set_color(0x55);
    let banner = Banner::start(&mut term);
    assert_eq!((banner.counter(), banner.index()), (1, 0));
    assert_eq!((term.row(), term.column()), (2, 0));
    assert_eq!(term.color(), 0x07);
    let row0: Vec<u8> = (0..20).map(|x| (term.cells()[x] & 0xFF) as u8).collect();
    let row1: Vec<u8> = (0..19).map(|x| (term.cells()[80 + x] & 0xFF) as u8).collect();
    assert_eq!(row0, b"Hello, kernel World!");
    assert_eq!(row1, b"Hello, This Works!!");
    assert_eq!(term.cells()[20], 0x0720);
}

#[test]
fn the_banner_colours_each_character_by_its_count() {
    let mut term = Terminal::new();
    let mut banner = Banner::start(&mut term);
    for k in 0..24usize {
        banner.step(&mut term);
        let count = 2 + k as u16;
        assert_eq!(banner.counter() as u16, count);
        assert_eq!(banner.index(), k + 1);
        let colour = 0x0F | ((count % 16) << 4);
        assert_eq!(term.cells()[160 + k], (colour << 8) | MESSAGE[k] as u16);
    }
    banner.step(&mut term);
    assert_eq!((term.row(), term.column()), (3, 0));
    assert_eq!(banner.index(), 25);
    assert_eq!(term.color(), 0x0F | ((25 % 16) << 4));
    banner.step(&mut term);
    assert_eq!(banner.index(), 0);
    assert_eq!(banner.counter(), 27);
    assert_eq!(term.cells()[240], ((0x0F | ((27 % 16) << 4)) << 8) as u16);
    assert_eq!((term.row(), term.column()), (3, 1));
    banner.step(&mut term);
    assert_eq!(term.cells()[241], ((0x0F | ((28 % 16) << 4)) as u16) << 8 | b'H' as u16);
}
