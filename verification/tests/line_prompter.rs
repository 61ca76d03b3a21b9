use zenops::line_prompter::{BufReadPrompter, LineOutcome, LinePrompter};

fn line(outcome: LineOutcome) -> Option<String> {
    match outcome {
        LineOutcome::Line(s) => Some(s),
        _ => None,
    }
}

#[test]
fn bufread_strips_trailing_newline() {
    let input = b"hello\n";
    let mut prompter = BufReadPrompter::new(&input[..], Vec::new());
    let outcome = prompter.read_line("> ").unwrap();
    assert_eq!(line(outcome), Some("hello".to_string()));
    assert_eq!(prompter.writer(), b"> ");
}

#[test]
fn bufread_strips_trailing_crlf() {
    let input = b"hello\r\n";
    let mut prompter = BufReadPrompter::new(&input[..], Vec::new());
    let outcome = prompter.read_line("> ").unwrap();
    assert_eq!(line(outcome), Some("hello".to_string()));
}

#[test]
fn bufread_eof_returns_eof() {
    let input = b"";
    let mut prompter = BufReadPrompter::new(&input[..], Vec::new());
    let outcome = prompter.read_line("> ").unwrap();
    assert!(matches!(outcome, LineOutcome::Eof));
}

#[test]
fn bufread_blank_line_returns_empty_string() {
    let input = b"\n";
    let mut prompter = BufReadPrompter::new(&input[..], Vec::new());
    let outcome = prompter.read_line("> ").unwrap();
    assert_eq!(line(outcome), Some(String::new()));
}

#[test]
fn bufread_writeln_writes_to_writer() {
    let input = b"";
    let mut prompter = BufReadPrompter::new(&input[..], Vec::new());
    prompter.writeln("nope").unwrap();
    assert_eq!(prompter.writer(), b"nope\n");
}

#[test]
fn bufread_reads_lines_in_turn_and_keeps_last_unterminated() {
    let input = b"one\ntwo";
    let mut prompter = BufReadPrompter::new(&input[..], Vec::new());
    assert_eq!(line(prompter.read_line("a").unwrap()), Some("one".to_string()));
    assert_eq!(line(prompter.read_line("b").unwrap()), Some("two".to_string()));
    assert!(matches!(prompter.read_line("c").unwrap(), LineOutcome::Eof));
    assert_eq!(prompter.writer(), b"abc");
}

#[test]
fn bufread_rejects_invalid_utf8() {
    let input = [0xffu8, b'\n'];
    let mut prompter = BufReadPrompter::new(&input[..], Vec::new());
    assert!(prompter.read_line("> ").is_err());
}
