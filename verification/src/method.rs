//! Exposing Rust functions as mruby methods.
//!
//! mruby's method table takes a bare C function pointer with no userdata
//! slot, so a registered Rust function is reached through a monomorphic
//! bridge. Because every bridge has the same C signature, the arity
//! cannot be recovered from the bridge's type: a registration therefore
//! carries a `MethodDef` pairing the bridge with its arity, from which the
//! registration derives the method's argument spec (`class::method_aspec`).

use vstd::prelude::*;

use crate::class::method_aspec;
use crate::error::{panic_message, payload_text, Error, PanicPayload};
use crate::try_convert::arg_type_message;

verus! {

/// Bridge + arity pair a registration carries: `func` is the bridge,
/// `arity` the required positional count (`-1` for a bridge that reads
/// its call frame itself and accepts any arguments), `opt` the optional
/// positional count that follows them, and `block` whether the method
/// accepts a block.
#[derive(Copy, Clone)]
pub struct MethodDef<F> {
    func: F,
    arity: i8,
    opt: i8,
    block: bool,
}

impl<F: Copy> MethodDef<F> {
    /// The bridge.
    pub closed spec fn bridge(self) -> F {
        self.func
    }

    /// The required positional count, `-1` for any arguments.
    pub closed spec fn required(self) -> i8 {
        self.arity
    }

    /// The optional positional count.
    pub closed spec fn optional(self) -> i8 {
        self.opt
    }

    /// Whether the method accepts a block.
    pub closed spec fn takes_block(self) -> bool {
        self.block
    }

    /// A def for `func` taking `arity` required positionals (`-1` for any
    /// arguments), no optional ones and no block.
    pub fn new(func: F, arity: i8) -> (d: Self)
        ensures
            d.bridge() == func,
            d.required() == arity,
            d.optional() == 0,
            !d.takes_block(),
    {
        MethodDef { func, arity, opt: 0, block: false }
    }

    /// As `new`, declaring `opt` optional positionals after the required
    /// ones.
    pub fn new_with_opt(func: F, arity: i8, opt: i8) -> (d: Self)
        ensures
            d.bridge() == func,
            d.required() == arity,
            d.optional() == opt,
            !d.takes_block(),
    {
        MethodDef { func, arity, opt, block: false }
    }

    /// As `new`, declaring the method accepts a block after its required
    /// positionals.
    pub fn new_with_block(func: F, arity: i8) -> (d: Self)
        ensures
            d.bridge() == func,
            d.required() == arity,
            d.optional() == 0,
            d.takes_block(),
    {
        MethodDef { func, arity, opt: 0, block: true }
    }

    /// The bridge this def registers.
    pub fn func(&self) -> (r: F)
        ensures
            r == self.bridge(),
    {
        self.func
    }

    /// The required positional count, `-1` for any arguments.
    pub fn arity(&self) -> (r: i8)
        ensures
            r == self.required(),
    {
        self.arity
    }

    /// The optional positional count.
    pub fn opt(&self) -> (r: i8)
        ensures
            r == self.optional(),
    {
        self.opt
    }

    /// Whether the method accepts a block.
    pub fn block(&self) -> (r: bool)
        ensures
            r == self.takes_block(),
    {
        self.block
    }

    /// The argument spec mruby registers this def's method with.
    pub fn aspec(&self) -> (r: u32)
        ensures
            r == crate::class::aspec_of(self.required(), self.optional(), self.takes_block()),
    {
        method_aspec(self.arity, self.opt, self.block)
    }
}


/// A core exception class a bridge raises its own exceptions of.
#[derive(Copy, Clone, Debug, PartialEq, Eq, Structural)]
pub enum CoreClass {
    /// An argument that failed its conversion.
    TypeError,
    /// A panic in the registered function.
    RuntimeError,
    /// Source that did not parse.
    SyntaxError,
}

/// The exception a bridge raises to its Ruby caller.
#[derive(Clone, Debug)]
pub enum Raise<X> {
    /// An exception object already made, raised as it is.
    Exception(X),
    /// A fresh exception of a core class carrying the message.
    New(CoreClass, String),
}

/// Whether `raise` is a fresh exception of `class` whose message is `msg`.
pub open spec fn is_new_raise<X>(raise: Raise<X>, class: CoreClass, msg: Seq<char>) -> bool {
    match raise {
        Raise::New(c, m) => c == class && m@ == msg,
        Raise::Exception(_) => false,
    }
}

/// Whether `raise` is what the error `err` raises as: an exception as it
/// is, a panic as a `RuntimeError` carrying its message, a syntax error
/// as a `SyntaxError` carrying the diagnostic's message.
pub open spec fn raise_for<X>(err: Error<X>, raise: Raise<X>) -> bool {
    match err {
        Error::Exception(exc) => raise == Raise::<X>::Exception(exc),
        Error::Panic(msg) => raise == Raise::<X>::New(CoreClass::RuntimeError, msg),
        Error::Syntax(parse) => is_new_raise(raise, CoreClass::SyntaxError, parse.spec_message()),
    }
}

/// The exception an error raises as when it crosses back into Ruby: an
/// exception is raised as it is, a panic as a `RuntimeError` carrying the
/// panic's message, and a syntax error as a `SyntaxError` carrying the
/// diagnostic's message.
pub fn raise_of<X>(err: Error<X>) -> (r: Raise<X>)
    ensures
        raise_for(err, r),
{
    match err {
        Error::Exception(exc) => Raise::Exception(exc),
        Error::Panic(msg) => Raise::New(CoreClass::RuntimeError, msg),
        Error::Syntax(parse) => Raise::New(CoreClass::SyntaxError, String::from_str(parse.message())),
    }
}

/// What the call of a registered function came to: the value its return
/// converted to, the error a fallible function returned, or the payload
/// of a panic, caught at the bridge.
pub enum MethodBody<X> {
    /// The function returned; its return converted to this value.
    Returned(X),
    /// The function returned this error.
    Failed(Error<X>),
    /// The function panicked with this payload.
    Panicked(PanicPayload),
}

/// What a bridge answers its Ruby caller: a return value, or a raise.
pub enum Bridged<X> {
    /// The method returns this value.
    Returns(X),
    /// The method raises this exception.
    Raises(Raise<X>),
}

/// Whether every argument before position `i` converted.
pub open spec fn converted_before(converted: Seq<bool>, i: int) -> bool {
    forall|j: int| 0 <= j < i ==> converted[j]
}

/// Whether `raise` is the `TypeError` for the first argument that failed
/// its conversion, naming the type it was expected as:
/// `wrong argument type (expected <type>)`.
pub open spec fn conversion_raise<X>(raise: Raise<X>, converted: Seq<bool>, expected: Seq<&str>) -> bool {
    exists|i: int|
        0 <= i < converted.len() && !converted[i] && converted_before(converted, i) && is_new_raise(
            raise,
            CoreClass::TypeError,
            "wrong argument type (expected "@ + expected[i]@ + ")"@,
        )
}

/// What a bridge raises before the registered function runs, or nothing
/// when the function runs: the exception mruby's own read of the call
/// frame raised for a wrong argument count (`frame`), else the
/// `TypeError` naming the type the first argument that failed its
/// conversion was expected as (`converted` says, per argument, whether it
/// converted, and `expected` names each argument's type).
pub fn before_body<X>(frame: Option<X>, converted: &[bool], expected: &[&str]) -> (r: Option<
    Raise<X>,
>)
    requires
        converted@.len() == expected@.len(),
    ensures
        match frame {
            Some(exc) => r == Some(Raise::<X>::Exception(exc)),
            None => {
                &&& r is None <==> converted_before(converted@, converted@.len() as int)
                &&& r is Some ==> conversion_raise(r.unwrap(), converted@, expected@)
            },
        },
{
    match frame {
        Some(exc) => Some(Raise::Exception(exc)),
        None => {
            let mut i: usize = 0;
            while i < converted.len()
                invariant
                    i <= converted@.len(),
                    converted@.len() == expected@.len(),
                    converted_before(converted@, i as int),
                    frame is None,
                decreases converted@.len() - i,
            {
                if !converted[i] {
                    let r = Some(Raise::New(CoreClass::TypeError, arg_type_message(expected[i])));
                    assert(is_new_raise(
                        r.unwrap(),
                        CoreClass::TypeError,
                        "wrong argument type (expected "@ + expected@[i as int]@ + ")"@,
                    ));
                    assert(conversion_raise(r.unwrap(), converted@, expected@));
                    return r;
                }
                i = i + 1;
            }
            None
        },
    }
}

/// What a bridge answers once the registered function ran: its value, the
/// raise its error makes (`raise_of`), or a `RuntimeError` carrying the
/// message of its panic.
pub fn after_body<X>(body: MethodBody<X>) -> (r: Bridged<X>)
    ensures
        match body {
            MethodBody::Returned(v) => r == Bridged::<X>::Returns(v),
            MethodBody::Failed(err) => r is Raises && raise_for(err, r->Raises_0),
            MethodBody::Panicked(payload) => r is Raises && is_new_raise(
                r->Raises_0,
                CoreClass::RuntimeError,
                payload_text(payload),
            ),
        },
{
    match body {
        MethodBody::Returned(v) => Bridged::Returns(v),
        MethodBody::Failed(err) => Bridged::Raises(raise_of(err)),
        MethodBody::Panicked(payload) => Bridged::Raises(
            Raise::New(CoreClass::RuntimeError, panic_message(payload)),
        ),
    }
}

/// The whole crossing of a registered method, in its order: a wrong
/// argument count raises what mruby's frame read raised, a failed
/// conversion raises its `TypeError` before the function runs — so
/// nothing the function would have done matters — and otherwise the
/// function's outcome decides (`after_body`).
pub fn bridge_outcome<X>(
    frame: Option<X>,
    converted: &[bool],
    expected: &[&str],
    body: MethodBody<X>,
) -> (r: Bridged<X>)
    requires
        converted@.len() == expected@.len(),
    ensures
        frame matches Some(exc) ==> r == Bridged::<X>::Raises(Raise::Exception(exc)),
        frame is None && !converted_before(converted@, converted@.len() as int) ==> (r is Raises
            && conversion_raise(r->Raises_0, converted@, expected@)),
        frame is None && converted_before(converted@, converted@.len() as int) ==> match body {
            MethodBody::Returned(v) => r == Bridged::<X>::Returns(v),
            MethodBody::Failed(err) => r is Raises && raise_for(err, r->Raises_0),
            MethodBody::Panicked(payload) => r is Raises && is_new_raise(
                r->Raises_0,
                CoreClass::RuntimeError,
                payload_text(payload),
            ),
        },
{
    match before_body(frame, converted, expected) {
        Some(raise) => Bridged::Raises(raise),
        None => after_body(body),
    }
}

} // verus!
