use thaunos::stdio::{kprint, kprintln, print, print_bytes, printf, putchar, puts, Arg};
use thaunos::vga_tty::Terminal;

fn row_text(term: &Terminal, y: usize, n: usize) -> Vec<u8> {
    (0..n).map(|x| (term.cells()[y * 80 + x] & 0xFF) as u8).collect()
}

#[test]
fn putchar_writes_its_byte_and_returns_it() {
    let mut term = Terminal::new();
    assert_eq!(putchar(&mut term, b'x'), b'x');
    assert_eq!(putchar(&mut term, b'\n'), b'\n');
    assert_eq!(putchar(&mut term, 0), 0);
    assert_eq!(term.cells()[0], 0x0778);
    assert_eq!(term.cells()[80], 0x0700);
    assert_eq!((term.row(), term.column()), (1, 1));
}

#[test]
fn kprint_writes_every_byte() {
    let mut term = Terminal::new();
    assert!(kprint(&mut term, b"Hello"));
    assert_eq!(row_text(&term, 0, 6), b"Hello ");
    assert_eq!((term.row(), term.column()), (0, 5));
    assert!(kprint(&mut term, b""));
    assert_eq!((term.row(), term.column()), (0, 5));
}

#[test]
fn kprint_stops_behind_the_first_zero_byte() {
    let mut term = Terminal::new();
    assert!(!kprint(&mut term, b"ab\0cd"));
    assert_eq!(row_text(&term, 0, 4), &[b'a', b'b', 0, b' ']);
    assert_eq!((term.row(), term.column()), (0, 3));
    assert!(!print_bytes(&mut term, b"\0"));
    assert_eq!((term.row(), term.column()), (0, 4));
}

#[test]
fn kprintln_adds_a_line_feed() {
    let mut term = Terminal::new();
    assert!(kprintln(&mut term, b"one"));
    assert!(kprintln(&mut term, b""));
    assert!(kprintln(&mut term, b"three"));
    assert_eq!(row_text(&term, 0, 4), b"one ");
    assert_eq!(row_text(&term, 1, 1), b" ");
    assert_eq!(row_text(&term, 2, 6), b"three ");
    assert_eq!((term.row(), term.column()), (3, 0));
}

#[test]
fn kprintln_without_the_line_feed_when_the_output_fails() {
    let mut term = Terminal::new();
    assert!(!kprintln(&mut term, b"a\0b"));
    assert_eq!((term.row(), term.column()), (0, 2));
}

fn screen_text(term: &Terminal) -> Vec<u8> {
    let n = term.row() * 80 + term.column();
    (0..n).map(|i| (term.cells()[i] & 0xFF) as u8).collect()
}

fn printed(format: &[u8], args: &[Arg]) -> (i32, Vec<u8>) {
    let mut term = Terminal::new();
    let n = printf(&mut term, format, args);
    (n, screen_text(&term))
}

#[test]
fn printf_writes_plain_text_as_it_stands() {
    assert_eq!(printed(b"hello\0", &[]), (5, b"hello".to_vec()));
    assert_eq!(printed(b"hello", &[]), (5, b"hello".to_vec()));
    assert_eq!(printed(b"\0", &[]), (0, vec![]));
    assert_eq!(printed(b"", &[]), (0, vec![]));
    assert_eq!(printed(b"ab\0cd", &[]), (2, b"ab".to_vec()));
}

#[test]
fn printf_fills_in_characters_and_strings() {
    assert_eq!(printed(b"<%c>\0", &[Arg::Char(b'x' as i32)]), (3, b"<x>".to_vec()));
    assert_eq!(printed(b"<%s>\0", &[Arg::Str(b"abc\0")]), (5, b"<abc>".to_vec()));
    assert_eq!(printed(b"%s\0", &[Arg::Str(b"abc\0def")]), (3, b"abc".to_vec()));
    assert_eq!(printed(b"%s\0", &[Arg::Str(b"no zero")]), (7, b"no zero".to_vec()));
    assert_eq!(printed(b"%s%s\0", &[Arg::Str(b"\0"), Arg::Str(b"")]), (0, vec![]));
    assert_eq!(
        printed(b"%c%s%c\0", &[Arg::Char(0x31), Arg::Str(b"-\0"), Arg::Char(0x32)]),
        (3, b"1-2".to_vec())
    );
    assert_eq!(printed(b"%c\0", &[Arg::Char(0x141)]), (1, b"A".to_vec()));
    assert_eq!(printed(b"%c\0", &[Arg::Char(-191)]), (1, b"A".to_vec()));
}

#[test]
fn printf_writes_one_percent_for_two() {
    assert_eq!(printed(b"100%%\0", &[]), (4, b"100%".to_vec()));
    assert_eq!(printed(b"%%\0", &[]), (1, b"%".to_vec()));
    assert_eq!(printed(b"%%%%\0", &[]), (2, b"%%".to_vec()));
    assert_eq!(printed(b"a%%b%%c\0", &[]), (5, b"a%b%c".to_vec()));
    assert_eq!(printed(b"%%c\0", &[]), (2, b"%c".to_vec()));
}

#[test]
fn printf_writes_an_unknown_conversion_and_the_rest_as_they_stand() {
    assert_eq!(printed(b"a%d b%c\0", &[Arg::Char(0x31)]), (7, b"a%d b%c".to_vec()));
    assert_eq!(printed(b"%x\0", &[]), (2, b"%x".to_vec()));
    assert_eq!(printed(b"%c%q%s\0", &[Arg::Char(0x31)]), (5, b"1%q%s".to_vec()));
}

#[test]
fn printf_drops_a_percent_that_ends_the_format() {
    assert_eq!(printed(b"abc%\0", &[]), (3, b"abc".to_vec()));
    assert_eq!(printed(b"%\0", &[]), (0, vec![]));
    assert_eq!(printed(b"%%%\0", &[]), (1, b"%".to_vec()));
}

#[test]
fn printf_fails_where_an_argument_is_missing_or_of_the_other_kind() {
    assert_eq!(printed(b"a%c\0", &[]), (-1, b"a".to_vec()));
    assert_eq!(printed(b"a%s\0", &[]), (-1, b"a".to_vec()));
    assert_eq!(printed(b"a%cb\0", &[Arg::Str(b"x")]), (-1, b"a".to_vec()));
    assert_eq!(printed(b"a%sb\0", &[Arg::Char(0x31)]), (-1, b"a".to_vec()));
    assert_eq!(printed(b"%c%c\0", &[Arg::Char(0x31)]), (-1, b"1".to_vec()));
}

#[test]
fn printf_fails_behind_a_zero_character() {
    assert_eq!(printed(b"a%cb\0", &[Arg::Char(0)]), (-1, vec![b'a', 0]));
    assert_eq!(printed(b"a%cb\0", &[Arg::Char(0x100)]), (-1, vec![b'a', 0]));
}

#[test]
fn printf_leaves_spare_arguments_alone() {
    assert_eq!(printed(b"x\0", &[Arg::Char(0x31), Arg::Str(b"y")]), (1, b"x".to_vec()));
}

#[test]
fn print_writes_a_c_string() {
    let mut term = Terminal::new();
    assert!(print(&mut term, b"abc\0def"));
    assert!(print(&mut term, b"\0"));
    assert!(print(&mut term, b"gh"));
    assert_eq!(screen_text(&term), b"abcgh");
}

#[test]
fn puts_is_printf_without_arguments() {
    let mut term = Terminal::new();
    assert_eq!(puts(&mut term, b"50%% off\0"), 7);
    assert_eq!(puts(&mut term, b"%c\0"), -1);
    assert_eq!(puts(&mut term, b"%z!\0"), 3);
    assert_eq!(screen_text(&term), b"50% off%z!");
}
