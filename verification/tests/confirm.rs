use ark::clock::{timestamp_of_reading, Timestamp};
use ark::confirm::{confirm_reply, prompt_line};
use ark::confirm_with;
use std::io::Cursor;

#[test]
fn confirm_yes() {
    let mut input = Cursor::new(b"y\n");
    let mut output = Vec::new();
    assert!(confirm_with("proceed?", &mut input, &mut output));
}

#[test]
fn confirm_yes_full() {
    let mut input = Cursor::new(b"yes\n");
    let mut output = Vec::new();
    assert!(confirm_with("proceed?", &mut input, &mut output));
}

#[test]
fn confirm_no() {
    let mut input = Cursor::new(b"n\n");
    let mut output = Vec::new();
    assert!(!confirm_with("proceed?", &mut input, &mut output));
}

#[test]
fn confirm_empty_is_no() {
    let mut input = Cursor::new(b"\n");
    let mut output = Vec::new();
    assert!(!confirm_with("proceed?", &mut input, &mut output));
}

#[test]
fn confirm_case_insensitive() {
    let mut input = Cursor::new(b"Y\n");
    let mut output = Vec::new();
    assert!(confirm_with("proceed?", &mut input, &mut output));
}

#[test]
fn confirm_prompt_is_written() {
    let mut input = Cursor::new(b"n\n");
    let mut output = Vec::new();
    confirm_with("Delete all?", &mut input, &mut output);
    let written = String::from_utf8(output).unwrap();
    assert!(written.contains("Delete all?"));
}

#[test]
fn confirm_prompt_has_choices() {
    let mut input = Cursor::new(b"n\n");
    let mut output = Vec::new();
    confirm_with("Go?", &mut input, &mut output);
    assert_eq!(String::from_utf8(output).unwrap(), "Go? [y/N] ");
}

#[test]
fn confirm_trims_and_ignores_case() {
    let mut input = Cursor::new(b"  YeS \t\n");
    let mut output = Vec::new();
    assert!(confirm_with("proceed?", &mut input, &mut output));
}

#[test]
fn confirm_end_of_input_is_no() {
    let mut input = Cursor::new(b"");
    let mut output = Vec::new();
    assert!(!confirm_with("proceed?", &mut input, &mut output));
}

#[test]
fn confirm_other_words_are_no() {
    for reply in ["yess\n", "ye\n", "no\n", "y y\n", "sure\n"] {
        let mut input = Cursor::new(reply.as_bytes());
        let mut output = Vec::new();
        assert!(!confirm_with("proceed?", &mut input, &mut output), "{}", reply);
    }
}

#[test]
fn affirmative_reply_only_first_line() {
    let mut input = Cursor::new(b"no\nyes\n");
    let mut output = Vec::new();
    assert!(!confirm_with("proceed?", &mut input, &mut output));
}

#[test]
fn is_affirmative_directly() {
    assert!(ark::confirm::is_affirmative("y"));
    assert!(ark::confirm::is_affirmative("\u{3000}YES\u{2028}"));
    assert!(!ark::confirm::is_affirmative(""));
    assert!(!ark::confirm::is_affirmative("yes please"));
}

#[test]
fn prompt_line_and_reply_decision() {
    assert_eq!(prompt_line("Delete all?"), "Delete all? [y/N] ");
    assert!(confirm_reply(Some(" YES \n".to_string())));
    assert!(confirm_reply(Some("y".to_string())));
    assert!(!confirm_reply(Some("yess\n".to_string())));
    assert!(!confirm_reply(Some(String::new())));
    assert!(!confirm_reply(None));
}

#[test]
fn clock_readings_become_timestamps() {
    assert_eq!(timestamp_of_reading(true, 1_700_000_000, 5), Timestamp { secs: 1_700_000_000, nanos: 5 });
    // before the epoch: rounded down to the whole second, nanoseconds past it
    assert_eq!(timestamp_of_reading(false, 3, 0), Timestamp { secs: -3, nanos: 0 });
    assert_eq!(timestamp_of_reading(false, 3, 250_000_000), Timestamp { secs: -4, nanos: 750_000_000 });
    // beyond the i64 range: held at its ends
    assert_eq!(timestamp_of_reading(true, u64::MAX, 7), Timestamp { secs: i64::MAX, nanos: 0 });
    assert_eq!(timestamp_of_reading(false, u64::MAX, 7), Timestamp { secs: i64::MIN, nanos: 0 });
    assert_eq!(timestamp_of_reading(false, 1u64 << 63, 0), Timestamp { secs: i64::MIN, nanos: 0 });
}
