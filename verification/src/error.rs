//! The error surfaced across the mruby boundary.
//!
//! Every operation mruby can reject returns `Result<_, Error>` instead of
//! letting the raise long-jump across Rust frames, and a Rust panic caught
//! at the boundary travels the same channel.

use vstd::prelude::*;

use crate::parse::ParseMessage;
use crate::text::{push_decimal, push_signed_decimal};

verus! {

/// Error surfaced to Rust callers when mruby rejects an operation or a
/// wrapped closure panics. `X` is the handle on an mruby exception
/// object, meaningful only while the interpreter that raised it is open.
#[derive(Debug, Clone)]
pub enum Error<X> {
    /// An mruby exception captured while the interpreter is live.
    Exception(X),
    /// Source that did not parse, carrying the compiler's first recorded
    /// diagnostic. Distinct from `Exception` because a program that never
    /// compiled never ran: there is no exception object behind it.
    Syntax(ParseMessage),
    /// A Rust panic caught at the boundary, carrying the panic payload's
    /// message.
    Panic(String),
}

/// A caught panic's payload, by what it carries: an owned `String` or a
/// `&'static str` — what the `panic!` macro produces — or anything else.
pub enum PanicPayload {
    /// A `String` payload.
    Owned(String),
    /// A `&'static str` payload.
    Borrowed(&'static str),
    /// A payload of any other type.
    Other,
}

/// The text a panic with a payload of any other type renders as.
pub open spec fn non_string_payload() -> Seq<char> {
    "panic with a non-string payload"@
}

/// The message a caught panic's payload renders as.
pub open spec fn payload_text(payload: PanicPayload) -> Seq<char> {
    match payload {
        PanicPayload::Owned(s) => s@,
        PanicPayload::Borrowed(s) => s@,
        PanicPayload::Other => non_string_payload(),
    }
}

/// Render a caught panic's payload as the panic message: a `String` or
/// `&str` payload passes through, anything else falls back to a fixed
/// marker. Shared by every panic boundary.
pub fn panic_message(payload: PanicPayload) -> (r: String)
    ensures
        r@ == payload_text(payload),
{
    match payload {
        PanicPayload::Owned(s) => s,
        PanicPayload::Borrowed(s) => s.to_owned(),
        PanicPayload::Other => String::from_str("panic with a non-string payload"),
    }
}

/// The one-line rendering of an error, as its `Display` writes it.
pub open spec fn rendered<X>(e: Error<X>) -> Seq<char> {
    match e {
        Error::Exception(_) => "mruby exception (Error::message(&mrb) renders the details)"@,
        Error::Syntax(parse) => "syntax error at line "@ + crate::text::decimal(parse.spec_line() as nat)
            + ", column "@ + crate::text::signed_decimal(parse.spec_column() as int) + ": "@
            + parse.spec_message(),
        Error::Panic(msg) => "panic in mruby-bound closure: "@ + msg@,
    }
}

impl<X> Error<X> {
    /// The error's message. An exception renders through the live
    /// interpreter — `exception` is that rendering, what its `to_s`
    /// answers, or empty when `to_s` fails; a syntax error and a panic
    /// each carry their message directly.
    pub fn message(&self, exception: &str) -> (r: String)
        ensures
            r@ == (match self {
                Error::Exception(_) => exception@,
                Error::Syntax(parse) => parse.spec_message(),
                Error::Panic(msg) => msg@,
            }),
    {
        match self {
            Error::Exception(_) => String::from_str(exception),
            Error::Syntax(parse) => String::from_str(parse.message()),
            Error::Panic(msg) => msg.clone(),
        }
    }

    /// The one-line rendering of the error: a fixed line for an exception
    /// (rendering one needs the interpreter), the position and text of a
    /// syntax error, the message of a panic.
    pub fn render(&self) -> (r: String)
        ensures
            r@ == rendered(*self),
    {
        match self {
            Error::Exception(_) => String::from_str(
                "mruby exception (Error::message(&mrb) renders the details)",
            ),
            Error::Syntax(parse) => {
                let mut r = String::from_str("syntax error at line ");
                push_decimal(&mut r, parse.line() as u64);
                r.append(", column ");
                push_signed_decimal(&mut r, parse.column() as i64);
                r.append(": ");
                r.append(parse.message());
                r
            },
            Error::Panic(msg) => {
                let mut r = String::from_str("panic in mruby-bound closure: ");
                r.append(msg.as_str());
                r
            },
        }
    }
}

/// What a body run in mruby's protected frame answers: the value it
/// returned, or — when it raised — `Exception` carrying the exception
/// the frame caught, the pending exception cleared.
pub fn protected<X>(value: X, raised: bool) -> (r: Result<X, Error<X>>)
    ensures
        r == (if raised {
            Err::<X, Error<X>>(Error::Exception(value))
        } else {
            Ok(value)
        }),
{
    if raised {
        Err(Error::Exception(value))
    } else {
        Ok(value)
    }
}

/// What a body run in mruby's protected frame came to: the value it
/// returned, the exception it raised (which the frame caught), or the
/// payload of a panic, caught before it could cross mruby's frames.
pub enum BodyOutcome<X> {
    /// The body returned this value.
    Returned(X),
    /// The body raised this exception.
    Raised(X),
    /// The body panicked with this payload.
    Panicked(PanicPayload),
}

/// What a protected run answers for the body's outcome: the value it
/// returned, `Exception` for a raise, and `Panic` carrying the panic's
/// message for a panic — so a panic reaches the Rust caller as an error,
/// never as an unwind through mruby's frames.
pub fn protect_outcome<X>(body: BodyOutcome<X>) -> (r: Result<X, Error<X>>)
    ensures
        match body {
            BodyOutcome::Returned(v) => r == Ok::<X, Error<X>>(v),
            BodyOutcome::Raised(exc) => r == Err::<X, Error<X>>(Error::Exception(exc)),
            BodyOutcome::Panicked(payload) => r matches Err(Error::Panic(msg)) && msg@
                == payload_text(payload),
        },
{
    match body {
        BodyOutcome::Returned(v) => Ok(v),
        BodyOutcome::Raised(exc) => Err(Error::Exception(exc)),
        BodyOutcome::Panicked(payload) => Err(Error::Panic(panic_message(payload))),
    }
}

/// What an operation that reached mruby answers: its value, or the
/// exception it left pending, which the caller clears from the handle as
/// it crosses out. Every load answers through here, so a raise reaches a
/// Rust caller in one shape whatever compiled the program.
pub fn outcome<X>(value: X, pending: Option<X>) -> (r: Result<X, Error<X>>)
    ensures
        r == (match pending {
            Some(exc) => Err::<X, Error<X>>(Error::Exception(exc)),
            None => Ok(value),
        }),
{
    match pending {
        Some(exc) => Err(Error::Exception(exc)),
        None => Ok(value),
    }
}

} // verus!
