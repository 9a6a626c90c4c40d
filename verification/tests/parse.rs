use beni::parse::{parse_outcome, ParseSlot};
use beni::ParseMessage;

fn written(line: u16, column: i32, text: &str) -> ParseSlot {
    ParseSlot { lineno: line, column, message: Some(text.to_string()) }
}

fn unwritten(line: u16, column: i32) -> ParseSlot {
    ParseSlot { lineno: line, column, message: None }
}

#[test]
fn an_unrecorded_message_has_zero_position_and_empty_text() {
    let m = ParseMessage::unrecorded();
    assert_eq!(m.line(), 0);
    assert_eq!(m.column(), 0);
    assert_eq!(m.message(), "");
}

#[test]
fn a_written_slot_reads_back_its_position_and_text() {
    let m = ParseMessage::from_slot(&written(4, 9, "unexpected ')'"));
    assert_eq!((m.line(), m.column(), m.message()), (4, 9, "unexpected ')'"));
    assert_eq!(ParseMessage::from_slot(&unwritten(4, 9)), ParseMessage::unrecorded());
}

#[test]
fn the_first_written_slot_is_reported_past_unwritten_ones() {
    let buffer = [unwritten(7, 7), written(2, 5, "first"), written(3, 1, "second")];
    let m = ParseMessage::first_recorded(&buffer);
    assert_eq!((m.line(), m.column(), m.message()), (2, 5, "first"));
    assert_eq!(ParseMessage::first_recorded(&[]), ParseMessage::unrecorded());
    assert_eq!(
        ParseMessage::first_recorded(&[unwritten(1, 1), unwritten(2, 2)]),
        ParseMessage::unrecorded()
    );
}

#[test]
fn a_parse_answers_ok_or_its_first_diagnostic() {
    let errors = [written(1, 3, "boom")];
    assert_eq!(parse_outcome(true, 0, true, &errors), Ok(()));
    assert_eq!(parse_outcome(false, 0, false, &errors), Err(ParseMessage::unrecorded()));
    let failed = parse_outcome(true, 1, true, &errors).unwrap_err();
    assert_eq!((failed.line(), failed.column(), failed.message()), (1, 3, "boom"));
    let no_tree = parse_outcome(true, 0, false, &[]).unwrap_err();
    assert_eq!(no_tree, ParseMessage::unrecorded());
}
