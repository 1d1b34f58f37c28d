use thaunos::vga_tty::{Terminal, VGA_BUFFER_ADDR, VGA_CELLS, VGA_HEIGHT, VGA_WIDTH};

fn cell(term: &Terminal, x: usize, y: usize) -> u16 {
    term.cells()[y * VGA_WIDTH + x]
}

fn row_text(term: &Terminal, y: usize) -> Vec<u8> {
    (0..VGA_WIDTH).map(|x| (cell(term, x, y) & 0xFF) as u8).collect()
}

#[test]
fn text_terminal_geometry() {
    assert_eq!(VGA_WIDTH, 80);
    assert_eq!(VGA_HEIGHT, 25);
    assert_eq!(VGA_CELLS, 2000);
    assert_eq!(VGA_BUFFER_ADDR, 0xB8000);
}

#[test]
fn text_terminal_new_is_blank_light_grey_on_black() {
    let term = Terminal::new();
    assert_eq!(term.row(), 0);
    assert_eq!(term.column(), 0);
    assert_eq!(term.color(), 0x07);
    assert!(term.cells().iter().all(|&c| c == 0x0720));
}

#[test]
fn text_terminal_set_color_applies_to_what_follows() {
    let mut term = Terminal::new();
    term.write(b'a');
    term.set_color(0x4E);
    assert_eq!(term.color(), 0x4E);
    term.write(b'b');
    assert_eq!(cell(&term, 0, 0), 0x0761);
    assert_eq!(cell(&term, 1, 0), 0x4E62);
    assert_eq!(term.column(), 2);
}

#[test]
fn text_terminal_put_entry_at_leaves_the_cursor() {
    let mut term = Terminal::new();
    term.put_entry_at(b'X', 0x2F, 79, 24);
    term.put_entry_at(b'Y', 0x01, 3, 2);
    assert_eq!(cell(&term, 79, 24), 0x2F58);
    assert_eq!(cell(&term, 3, 2), 0x0159);
    assert_eq!(term.row(), 0);
    assert_eq!(term.column(), 0);
    assert_eq!(term.cells().iter().filter(|&&c| c != 0x0720).count(), 2);
}

#[test]
fn text_terminal_write_advances_and_newline_returns() {
    let mut term = Terminal::new();
    term.write(b'h');
    term.write(b'i');
    assert_eq!((term.row(), term.column()), (0, 2));
    term.write(b'\n');
    assert_eq!((term.row(), term.column()), (1, 0));
    term.write(b'!');
    assert_eq!(cell(&term, 0, 0), 0x0768);
    assert_eq!(cell(&term, 1, 0), 0x0769);
    assert_eq!(cell(&term, 0, 1), 0x0721);
    assert_eq!(cell(&term, 2, 0), 0x0720);
}

#[test]
fn text_terminal_wraps_at_the_right_edge() {
    let mut term = Terminal::new();
    for _ in 0..79 {
        term.write(b'x');
    }
    assert_eq!((term.row(), term.column()), (0, 79));
    term.write(b'y');
    assert_eq!((term.row(), term.column()), (1, 0));
    assert_eq!(cell(&term, 79, 0), 0x0779);
    term.write(b'z');
    assert_eq!(cell(&term, 0, 1), 0x077A);
}

#[test]
fn text_terminal_scrolls_at_the_bottom() {
    let mut term = Terminal::new();
    for y in 0..25u8 {
        term.write(b'a' + y);
        if y < 24 {
            term.write(b'\n');
        }
    }
    assert_eq!((term.row(), term.column()), (24, 1));
    assert_eq!(cell(&term, 0, 0), 0x0761);
    assert_eq!(cell(&term, 0, 24), 0x0779);
    term.set_color(0x1F);
    term.write(b'\n');
    assert_eq!((term.row(), term.column()), (24, 0));
    for y in 0..24usize {
        assert_eq!(cell(&term, 0, y), 0x0700 | (b'b' as u16 + y as u16));
        assert_eq!(cell(&term, 1, y), 0x0720);
    }
    for x in 0..VGA_WIDTH {
        assert_eq!(cell(&term, x, 24), 0x1F20);
    }
}

#[test]
fn text_terminal_scrolls_when_the_last_cell_is_written() {
    let mut term = Terminal::new();
    for _ in 0..24 {
        term.write(b'\n');
    }
    for _ in 0..79 {
        term.write(b'-');
    }
    assert_eq!((term.row(), term.column()), (24, 79));
    term.write(b'#');
    assert_eq!((term.row(), term.column()), (24, 0));
    let mut expected = vec![b'-'; 79];
    expected.push(b'#');
    assert_eq!(row_text(&term, 23), expected);
    assert_eq!(row_text(&term, 24), vec![b' '; 80]);
}

#[test]
fn text_terminal_write_string_stops_at_the_first_zero() {
    let mut term = Terminal::new();
    term.write_string(b"ab\0cd");
    assert_eq!((term.row(), term.column()), (0, 2));
    assert_eq!(&row_text(&term, 0)[..4], b"ab  ");
    term.write_string(b"xy\nz");
    assert_eq!((term.row(), term.column()), (1, 1));
    assert_eq!(&row_text(&term, 0)[..5], b"abxy ");
    assert_eq!(&row_text(&term, 1)[..2], b"z ");
    term.write_string(b"");
    term.write_string(b"\0");
    assert_eq!((term.row(), term.column()), (1, 1));
}

#[test]
fn text_terminal_delete_last_line_zeroes_the_last_row() {
    let mut term = Terminal::new();
    term.put_entry_at(b'k', 0x07, 5, 24);
    term.put_entry_at(b'j', 0x07, 5, 23);
    term.delete_last_line();
    for x in 0..VGA_WIDTH {
        assert_eq!(cell(&term, x, 24), 0);
    }
    assert_eq!(cell(&term, 5, 23), 0x076A);
    assert_eq!(cell(&term, 0, 0), 0x0720);
    assert_eq!((term.row(), term.column()), (0, 0));
}
