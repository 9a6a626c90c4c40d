use beni::error::{outcome, panic_message, PanicPayload};
use beni::parse::ParseSlot;
use beni::{Error, ParseMessage};
use std::any::Any;

/// What a panic boundary reads out of a caught payload.
fn payload_of(payload: Box<dyn Any + Send>) -> PanicPayload {
    match payload.downcast::<String>() {
        Ok(msg) => PanicPayload::Owned(*msg),
        Err(payload) => match payload.downcast::<&'static str>() {
            Ok(msg) => PanicPayload::Borrowed(*msg),
            Err(_) => PanicPayload::Other,
        },
    }
}

#[test]
fn panic_message_renders_every_payload_shape() {
    assert_eq!(panic_message(payload_of(Box::new("str payload"))), "str payload");
    assert_eq!(
        panic_message(payload_of(Box::new(String::from("string payload")))),
        "string payload"
    );
    assert_eq!(
        panic_message(payload_of(Box::new(42_i32))),
        "panic with a non-string payload"
    );
}

fn syntax(line: u16, column: i32, text: &str) -> Error<u32> {
    Error::Syntax(ParseMessage::from_slot(&ParseSlot {
        lineno: line,
        column,
        message: Some(text.to_string()),
    }))
}

#[test]
fn an_error_renders_its_kind_and_details() {
    assert_eq!(
        syntax(3, 14, "syntax error, unexpected end of file").render(),
        "syntax error at line 3, column 14: syntax error, unexpected end of file"
    );
    assert_eq!(
        syntax(0, 0, "").render(),
        "syntax error at line 0, column 0: "
    );
    assert_eq!(
        syntax(65535, -7, "x").render(),
        "syntax error at line 65535, column -7: x"
    );
    assert_eq!(
        Error::<u32>::Panic("boom".to_string()).render(),
        "panic in mruby-bound closure: boom"
    );
    assert_eq!(
        Error::Exception(5u32).render(),
        "mruby exception (Error::message(&mrb) renders the details)"
    );
}

#[test]
fn an_error_message_is_the_carried_text() {
    assert_eq!(syntax(1, 2, "bad token").message("ignored"), "bad token");
    assert_eq!(Error::<u32>::Panic("pop".to_string()).message("ignored"), "pop");
    assert_eq!(Error::Exception(1u32).message("RuntimeError: no"), "RuntimeError: no");
}

#[test]
fn an_operation_answers_its_value_or_the_pending_exception() {
    assert!(matches!(outcome(1u32, None), Ok(1)));
    assert!(matches!(outcome(1u32, Some(9)), Err(Error::Exception(9))));
}
