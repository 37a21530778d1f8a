use gamecore::commands::{is_ascii_whitespace, is_whitespace, parse_command, Command, CommandError, NumberError};

fn unknown(line: &str) -> String {
    match parse_command(line) {
        Err(CommandError::Unknown(w)) => w.into_iter().collect(),
        other => panic!("expected an unknown command, got {other:?}"),
    }
}

fn bad_number(line: &str) -> NumberError {
    match parse_command(line) {
        Err(CommandError::BadNumber(e)) => e,
        other => panic!("expected a bad number, got {other:?}"),
    }
}

#[test]
fn single_word_commands() {
    assert_eq!(parse_command("pause").unwrap(), Command::Pause);
    assert_eq!(parse_command("pa").unwrap(), Command::Pause);
    assert_eq!(parse_command("up").unwrap(), Command::Unpause);
    assert_eq!(parse_command("tick").unwrap(), Command::Tick);
    assert_eq!(parse_command("sc").unwrap(), Command::SanityCheck);
    assert_eq!(parse_command("in").unwrap(), Command::Inspect);
    assert_eq!(parse_command("unin").unwrap(), Command::Uninspect);
    assert_eq!(parse_command("show_walkable").unwrap(), Command::ShowWalkable);
    assert_eq!(parse_command("i").unwrap(), Command::InspectUnderCursor);
    assert_eq!(parse_command("kill").unwrap(), Command::Kill);
    assert_eq!(parse_command("ut").unwrap(), Command::Untrace);
}

#[test]
fn blank_line_is_nothing() {
    assert_eq!(parse_command("").unwrap(), Command::Nothing);
    assert_eq!(parse_command(" \t \n").unwrap(), Command::Nothing);
}

#[test]
fn surrounding_whitespace_is_ignored() {
    assert_eq!(parse_command("  reset\t").unwrap(), Command::Reset);
    assert_eq!(parse_command("\u{a0}reset\u{3000}").unwrap(), Command::Reset);
    assert_eq!(parse_command(" sl   12 ").unwrap(), Command::Sleep(12));
}

#[test]
fn numbers_are_read() {
    assert_eq!(parse_command("sleep 255").unwrap(), Command::Sleep(255));
    assert_eq!(parse_command("sleep +7").unwrap(), Command::Sleep(7));
    assert_eq!(parse_command("mv -3 4").unwrap(), Command::MoveTo(-3, 4));
    assert_eq!(parse_command("moveto 32767 -32768").unwrap(), Command::MoveTo(32767, -32768));
    assert_eq!(parse_command("setcam -2147483648 2147483647").unwrap(), Command::SetCamera(i32::MIN, i32::MAX));
}

#[test]
fn bad_numbers_are_reported() {
    assert_eq!(bad_number("sleep 256"), NumberError::TooLarge);
    assert_eq!(bad_number("sleep -1"), NumberError::InvalidDigit);
    assert_eq!(bad_number("sleep x"), NumberError::InvalidDigit);
    assert_eq!(bad_number("sleep +"), NumberError::InvalidDigit);
    assert_eq!(bad_number("sleep 9999x"), NumberError::TooLarge);
    assert_eq!(bad_number("mv -40000 0"), NumberError::TooSmall);
    assert_eq!(bad_number("mv 1 z"), NumberError::InvalidDigit);
    assert_eq!(bad_number("mv z 99999"), NumberError::InvalidDigit);
}

#[test]
fn unknown_commands_name_their_first_word() {
    assert_eq!(unknown("foo"), "foo");
    assert_eq!(unknown("jump high"), "jump");
    assert_eq!(unknown("mv 1"), "mv");
    assert_eq!(unknown("pause now"), "pause");
    assert_eq!(unknown("PAUSE"), "PAUSE");
}

#[test]
fn whitespace_kinds() {
    assert!(is_whitespace('\u{a0}'));
    assert!(is_whitespace('\t'));
    assert!(!is_whitespace('x'));
    assert!(is_ascii_whitespace('\u{c}'));
    assert!(!is_ascii_whitespace('\u{a0}'));
    assert!(!is_ascii_whitespace('\u{b}'));
}
