//! The conversion a method's arguments cross, in the terms mruby raises
//! its mismatches in: which integers a Rust integer target takes, and the
//! exception messages a mismatch carries, worded as mruby words them.

use vstd::prelude::*;

use crate::text::push_signed_decimal;

verus! {

/// A Rust integer type an mruby integer converts into.
#[derive(Copy, Clone, Debug, PartialEq, Eq, Structural)]
pub enum IntTarget {
    I8,
    I16,
    I32,
    I64,
    I128,
    Isize,
    U8,
    U16,
    U32,
    U64,
    U128,
    Usize,
}

impl IntTarget {
    /// The smallest integer the target holds.
    pub open spec fn lowest(self) -> int {
        match self {
            IntTarget::I8 => i8::MIN as int,
            IntTarget::I16 => i16::MIN as int,
            IntTarget::I32 => i32::MIN as int,
            IntTarget::I64 => i64::MIN as int,
            IntTarget::I128 => i128::MIN as int,
            IntTarget::Isize => isize::MIN as int,
            _ => 0,
        }
    }

    /// The largest integer the target holds.
    pub open spec fn highest(self) -> int {
        match self {
            IntTarget::I8 => i8::MAX as int,
            IntTarget::I16 => i16::MAX as int,
            IntTarget::I32 => i32::MAX as int,
            IntTarget::I64 => i64::MAX as int,
            IntTarget::I128 => i128::MAX as int,
            IntTarget::Isize => isize::MAX as int,
            IntTarget::U8 => u8::MAX as int,
            IntTarget::U16 => u16::MAX as int,
            IntTarget::U32 => u32::MAX as int,
            IntTarget::U64 => u64::MAX as int,
            IntTarget::U128 => u128::MAX as int,
            IntTarget::Usize => usize::MAX as int,
        }
    }
}

/// Each target holds exactly the integers its Rust type does: an integer
/// converts into `i8` just when `i8` can represent it, into `u32` just
/// when `u32` can, and so on for every target.
pub proof fn lemma_targets_hold_their_types(n: int)
    ensures
        (IntTarget::I8.lowest() <= n <= IntTarget::I8.highest()) == (-128 <= n <= 127),
        (IntTarget::I16.lowest() <= n <= IntTarget::I16.highest()) == (-32768 <= n <= 32767),
        (IntTarget::I32.lowest() <= n <= IntTarget::I32.highest()) == (-2147483648 <= n
            <= 2147483647),
        (IntTarget::I64.lowest() <= n <= IntTarget::I64.highest()) == (-9223372036854775808 <= n
            <= 9223372036854775807),
        (IntTarget::I128.lowest() <= n <= IntTarget::I128.highest()) == (
        -170141183460469231731687303715884105728 <= n <= 170141183460469231731687303715884105727),
        (IntTarget::Isize.lowest() <= n <= IntTarget::Isize.highest()) == (isize::MIN <= n
            <= isize::MAX),
        (IntTarget::U8.lowest() <= n <= IntTarget::U8.highest()) == (0 <= n <= 255),
        (IntTarget::U16.lowest() <= n <= IntTarget::U16.highest()) == (0 <= n <= 65535),
        (IntTarget::U32.lowest() <= n <= IntTarget::U32.highest()) == (0 <= n <= 4294967295),
        (IntTarget::U64.lowest() <= n <= IntTarget::U64.highest()) == (0 <= n
            <= 18446744073709551615),
        (IntTarget::U128.lowest() <= n <= IntTarget::U128.highest()) == (0 <= n
            <= 340282366920938463463374607431768211455),
        (IntTarget::Usize.lowest() <= n <= IntTarget::Usize.highest()) == (0 <= n <= usize::MAX),
{
}

/// Whether the integer `n` an mruby value carries converts into
/// `target`: a conversion that loses nothing, or none — the downcast
/// answers nothing and the argument conversion raises `RangeError`.
pub fn fits(n: i64, target: IntTarget) -> (r: bool)
    ensures
        r == (target.lowest() <= n <= target.highest()),
{
    match target {
        IntTarget::I8 => i8::MIN as i64 <= n && n <= i8::MAX as i64,
        IntTarget::I16 => i16::MIN as i64 <= n && n <= i16::MAX as i64,
        IntTarget::I32 => i32::MIN as i64 <= n && n <= i32::MAX as i64,
        IntTarget::I64 => true,
        IntTarget::I128 => true,
        IntTarget::Isize => isize::MIN as i128 <= n as i128 && n as i128 <= isize::MAX as i128,
        IntTarget::U8 => 0 <= n && n <= u8::MAX as i64,
        IntTarget::U16 => 0 <= n && n <= u16::MAX as i64,
        IntTarget::U32 => 0 <= n && n <= u32::MAX as i64,
        IntTarget::U64 => 0 <= n,
        IntTarget::U128 => 0 <= n,
        IntTarget::Usize => 0 <= n && n as i128 <= usize::MAX as i128,
    }
}

/// Why an integer does not convert into a target: the target does not
/// hold it (a `RangeError`), or the target is non-zero and it is zero (an
/// `ArgumentError`).
#[derive(Copy, Clone, Debug, PartialEq, Eq, Structural)]
pub enum IntRefusal {
    /// The target does not hold the integer.
    OutOfRange,
    /// The target is a non-zero integer type and the integer is zero.
    Zero,
}

/// Convert the integer `n` an mruby value carries into `target`, or into
/// its non-zero form when `non_zero` is set: `n` itself when the target
/// holds it (and, for a non-zero target, it is not zero); `OutOfRange`
/// when the target does not hold it, which is checked first; `Zero` for a
/// zero a non-zero target refuses.
pub fn convert_int(n: i64, target: IntTarget, non_zero: bool) -> (r: Result<i64, IntRefusal>)
    ensures
        r == (if !(target.lowest() <= n <= target.highest()) {
            Err::<i64, IntRefusal>(IntRefusal::OutOfRange)
        } else if non_zero && n == 0 {
            Err::<i64, IntRefusal>(IntRefusal::Zero)
        } else {
            Ok::<i64, IntRefusal>(n)
        }),
{
    if !fits(n, target) {
        Err(IntRefusal::OutOfRange)
    } else if non_zero && n == 0 {
        Err(IntRefusal::Zero)
    } else {
        Ok(n)
    }
}

impl IntRefusal {
    /// The message the refusal of `n` carries: `n out of range` for the
    /// `RangeError`, `value must be non-zero` for the `ArgumentError`.
    pub fn message(&self, n: i64) -> (r: String)
        ensures
            r@ == (match self {
                IntRefusal::OutOfRange => crate::text::signed_decimal(n as int) + " out of range"@,
                IntRefusal::Zero => "value must be non-zero"@,
            }),
    {
        match self {
            IntRefusal::OutOfRange => out_of_range_message(n),
            IntRefusal::Zero => String::from_str("value must be non-zero"),
        }
    }
}

/// The `ArgumentError` message for bytes that are not UTF-8 where a
/// string conversion needs text.
pub open spec fn invalid_utf8_text() -> Seq<char> {
    "invalid UTF-8 byte sequence"@
}

/// What a conversion into text answers for the bytes' decoding: the text,
/// or — when the bytes are not UTF-8 — the `ArgumentError` message
/// `invalid UTF-8 byte sequence`.
pub fn text_outcome<S>(decoded: Option<S>) -> (r: Result<S, &'static str>)
    ensures
        match decoded {
            Some(text) => r == Ok::<S, &'static str>(text),
            None => r matches Err(m) && m@ == invalid_utf8_text(),
        },
{
    match decoded {
        Some(text) => Ok(text),
        None => Err("invalid UTF-8 byte sequence"),
    }
}

/// The message wrapping an instance of a class that cannot carry data
/// stops with, `message` the rendering of the exception the allocation
/// raised: `a TypedData class cannot carry data: <message>`.
pub fn cannot_carry_message(message: &str) -> (r: String)
    ensures
        r@ == "a TypedData class cannot carry data: "@ + message@,
{
    let mut r = String::from_str("a TypedData class cannot carry data: ");
    r.append(message);
    r
}

/// The `RangeError` message for an integer `n` a target does not hold:
/// `n out of range`.
pub fn out_of_range_message(n: i64) -> (r: String)
    ensures
        r@ == crate::text::signed_decimal(n as int) + " out of range"@,
{
    let mut r = String::new();
    push_signed_decimal(&mut r, n);
    r.append(" out of range");
    r
}

/// mruby's `%Y` for a value: `nil`, `true` or `false` itself (its
/// `inspect`), any other value its class name.
pub fn described<'a>(special: bool, inspected: &'a str, classname: &'a str) -> (r: &'a str)
    ensures
        r@ == (if special { inspected@ } else { classname@ }),
{
    if special {
        inspected
    } else {
        classname
    }
}

/// The `TypeError` message for a value (described by `described`) its
/// target class does not convert: `<described> cannot be converted to
/// <target>`.
pub fn not_convertible_message(described: &str, target: &str) -> (r: String)
    ensures
        r@ == described@ + " cannot be converted to "@ + target@,
{
    let mut r = String::from_str(described);
    r.append(" cannot be converted to ");
    r.append(target);
    r
}

/// The `TypeError` message for a value that is not a class or module
/// handle of the kind asked for: `<inspected> is not <kind>`.
pub fn not_kind_message(inspected: &str, kind: &str) -> (r: String)
    ensures
        r@ == inspected@ + " is not "@ + kind@,
{
    let mut r = String::from_str(inspected);
    r.append(" is not ");
    r.append(kind);
    r
}

/// The `TypeError` message for a value that is not a Proc:
/// `wrong argument type <classname> (expected Proc)`.
pub fn proc_expected_message(classname: &str) -> (r: String)
    ensures
        r@ == "wrong argument type "@ + classname@ + " (expected Proc)"@,
{
    let mut r = String::from_str("wrong argument type ");
    r.append(classname);
    r.append(" (expected Proc)");
    r
}

/// The `TypeError` message a registered method raises when an argument
/// fails its conversion, naming the Rust type the function expected:
/// `wrong argument type (expected <expected>)`.
pub fn arg_type_message(expected: &str) -> (r: String)
    ensures
        r@ == "wrong argument type (expected "@ + expected@ + ")"@,
{
    let mut r = String::from_str("wrong argument type (expected ");
    r.append(expected);
    r.append(")");
    r
}

/// The `TypeError` message a constant or class-variable accessor raises
/// for a receiver that is not a class or module:
/// `<classname> is not a class/module`.
pub fn not_class_or_module_message(classname: &str) -> (r: String)
    ensures
        r@ == classname@ + " is not a class/module"@,
{
    let mut r = String::from_str(classname);
    r.append(" is not a class/module");
    r
}

/// The `TypeError` message for a data carrier of the right data type
/// whose payload was never set: `uninitialized <classname> (expected
/// <data_type>)`.
pub fn uninitialized_message(classname: &str, data_type: &str) -> (r: String)
    ensures
        r@ == "uninitialized "@ + classname@ + " (expected "@ + data_type@ + ")"@,
{
    let mut r = String::from_str("uninitialized ");
    r.append(classname);
    r.append(" (expected ");
    r.append(data_type);
    r.append(")");
    r
}

} // verus!
