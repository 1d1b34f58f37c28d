use thaunos::kernel::{Shell, GREETING, INPUT_SIZE, INVALID_UTF8, INVITATION, PROMPT, YOU_TYPED};
use thaunos::vga_tty::Terminal;

fn lines(term: &Terminal) -> Vec<Vec<u8>> {
    (0..=term.row())
        .map(|y| {
            let row: Vec<u8> = (0..80).map(|x| (term.cells()[y * 80 + x] & 0xFF) as u8).collect();
            let end = if y == term.row() {
                term.column()
            } else {
                row.iter().rposition(|&b| b != b' ').map_or(0, |p| p + 1)
            };
            row[..end].to_vec()
        })
        .collect()
}

fn type_in(shell: &mut Shell, term: &mut Terminal, bytes: &[u8]) {
    for &b in bytes {
        shell.key(term, b);
    }
}

#[test]
fn the_messages_of_the_shell() {
    assert_eq!(INPUT_SIZE, 256);
    assert_eq!(&GREETING, b"Hello, Thaunos! This is the x86_64 kernel.");
    assert_eq!(&INVITATION, b"Keyboard input enabled. Type something:");
    assert_eq!(&PROMPT, b"> ");
    assert_eq!(&YOU_TYPED, b"You typed: ");
    assert_eq!(&INVALID_UTF8, b"<invalid UTF-8>");
}

#[test]
fn the_shell_greets_and_prompts() {
    let mut term = Terminal::new();
    Shell::start(&mut term);
    assert_eq!(
        lines(&term),
        vec![
            b"Hello, Thaunos! This is the x86_64 kernel.".to_vec(),
            b"Keyboard input enabled. Type something:".to_vec(),
            b"> ".to_vec(),
        ]
    );
}

#[test]
fn the_shell_echoes_each_byte_and_the_line_at_its_end() {
    let mut term = Terminal::new();
    let mut shell = Shell::new();
    assert_eq!(shell.line(), b"");
    type_in(&mut shell, &mut term, b"hi!");
    assert_eq!(shell.line(), b"hi!");
    assert_eq!(lines(&term), vec![b"hi!".to_vec()]);
    type_in(&mut shell, &mut term, b"\n");
    assert_eq!(shell.line(), b"");
    assert_eq!(lines(&term), vec![b"hi!".to_vec(), b"You typed: hi!".to_vec(), b"> ".to_vec()]);
    type_in(&mut shell, &mut term, b"ok\r");
    assert_eq!(
        lines(&term),
        vec![
            b"hi!".to_vec(),
            b"You typed: hi!".to_vec(),
            b"> ok".to_vec(),
            b"You typed: ok".to_vec(),
            b"> ".to_vec(),
        ]
    );
}

#[test]
fn the_shell_ignores_backspace() {
    let mut term = Terminal::new();
    let mut shell = Shell::new();
    type_in(&mut shell, &mut term, &[b'a', 8, b'b', 8, 8]);
    assert_eq!(shell.line(), b"ab");
    assert_eq!(lines(&term), vec![b"ab".to_vec()]);
}

#[test]
fn the_shell_answers_an_empty_line() {
    let mut term = Terminal::new();
    let mut shell = Shell::new();
    type_in(&mut shell, &mut term, b"\n");
    assert_eq!(lines(&term), vec![b"".to_vec(), b"You typed:".to_vec(), b"> ".to_vec()]);
    assert_eq!(term.cells()[80 + 10], 0x0720);
    assert_eq!((term.row(), term.column()), (2, 2));
}

#[test]
fn the_shell_notes_a_line_that_is_no_text() {
    let mut term = Terminal::new();
    let mut shell = Shell::new();
    type_in(&mut shell, &mut term, &[b'a', 0xFF, b'\n']);
    assert_eq!(lines(&term)[1], b"You typed: <invalid UTF-8>");
    type_in(&mut shell, &mut term, &[0xC3, 0xA9, b'\n']);
    assert_eq!(lines(&term)[3], [b"You typed: ".as_slice(), &[0xC3, 0xA9]].concat());
    type_in(&mut shell, &mut term, &[0xC3, b'\n']);
    assert_eq!(lines(&term)[5], b"You typed: <invalid UTF-8>");
    type_in(&mut shell, &mut term, &[0xED, 0xA0, 0x80, b'\n']);
    assert_eq!(lines(&term)[7], b"You typed: <invalid UTF-8>");
}

#[test]
fn the_shell_keeps_no_more_than_its_buffer_holds() {
    let mut term = Terminal::new();
    let mut shell = Shell::new();
    for i in 0..300u32 {
        shell.key(&mut term, b'a' + (i % 26) as u8);
    }
    assert_eq!(shell.line().len(), 256);
    assert_eq!(shell.line()[255], b'a' + (255 % 26) as u8);
    assert_eq!((term.row(), term.column()), (3, 60));
}
