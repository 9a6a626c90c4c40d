//! The configured integer and float widths, read from the metadata the
//! mruby archive's build publishes for each, and the integer width's
//! bounds that every length or offset handed to mruby saturates into.

use vstd::prelude::*;

use crate::text::str_eq;

verus! {

/// The variable the integer-width metadata reaches a build through.
pub const INTEGER_WIDTH_METADATA: &'static str = "DEP_MRUBY_DEFINES_MRB_INT64";

/// The variable the float-width metadata reaches a build through.
pub const FLOAT_WIDTH_METADATA: &'static str = "DEP_MRUBY_DEFINES_MRB_FLOAT32";

/// Whether `metadata` is one of the two values a width's metadata
/// carries: `true` or `false`.
pub open spec fn is_width_value(metadata: Option<&str>) -> bool {
    match metadata {
        Some(value) => value@ == "true"@ || value@ == "false"@,
        None => false,
    }
}

/// The flag a width's metadata names: `Some(true)` for `true`,
/// `Some(false)` for `false`, and `None` for a missing value or any
/// other text, which names no width.
pub fn width_metadata(metadata: Option<&str>) -> (r: Option<bool>)
    ensures
        r is Some <==> is_width_value(metadata),
        r == Some(true) <==> (metadata is Some && metadata.unwrap()@ == "true"@),
{
    match metadata {
        Some(value) => {
            if str_eq(value, "true") {
                Some(true)
            } else if str_eq(value, "false") {
                Some(false)
            } else {
                None
            }
        },
        None => None,
    }
}

/// Whether the configured integer width is 64 bits, from the metadata's
/// value: `true` reads as 64 bits and `false` as 32. A build without the
/// metadata, or with any other value, is refused before it gets here:
/// the integer conversions depend on the width, so none of them is
/// guessed.
pub fn configured_mrb_int64(metadata: Option<&str>) -> (r: bool)
    requires
        is_width_value(metadata),
    ensures
        r == (metadata.unwrap()@ == "true"@),
{
    match width_metadata(metadata) {
        Some(flag) => flag,
        None => false,
    }
}

/// Whether the configured float width is 32 bits, from the metadata's
/// value: `true` reads as 32 bits and `false` as 64. Refused as the
/// integer read is for any other value.
pub fn configured_mrb_float32(metadata: Option<&str>) -> (r: bool)
    requires
        is_width_value(metadata),
    ensures
        r == (metadata.unwrap()@ == "true"@),
{
    match width_metadata(metadata) {
        Some(flag) => flag,
        None => false,
    }
}

/// How a width's metadata value shows in the refusal: `unset` when the
/// build has none, the value in backquotes otherwise.
pub open spec fn shown(metadata: Option<&str>) -> Seq<char> {
    match metadata {
        Some(value) => "`"@ + value@ + "`"@,
        None => "unset"@,
    }
}

/// The message a build stops with when the metadata `variable` carries
/// for the configured `what` width names no width.
pub open spec fn refusal_text(variable: Seq<char>, what: Seq<char>, metadata: Option<&str>) -> Seq<
    char,
> {
    "beni: "@ + variable + " is "@ + shown(metadata)
        + ", where `beni-sys` publishes `true` or `false` for the configured "@ + what
        + " width. Build `beni` against the `beni-sys` released beside it."@
}

/// The message a build stops with when the metadata `variable` carries
/// for the configured `what` width (`integer` or `float`) is missing or
/// is neither `true` nor `false`.
pub fn width_refusal(variable: &str, what: &str, metadata: Option<&str>) -> (r: String)
    ensures
        r@ == refusal_text(variable@, what@, metadata),
{
    let mut r = String::from_str("beni: ");
    r.append(variable);
    r.append(" is ");
    match metadata {
        Some(value) => {
            r.append("`");
            r.append(value);
            r.append("`");
        },
        None => {
            r.append("unset");
        },
    }
    r.append(", where `beni-sys` publishes `true` or `false` for the configured ");
    r.append(what);
    r.append(" width. Build `beni` against the `beni-sys` released beside it.");
    r
}

/// The configured integer width read from its metadata: whether it is
/// 64 bits when the metadata is `true` or `false`, and otherwise the
/// message the build stops with — no width is ever guessed.
pub fn read_integer_width(metadata: Option<&str>) -> (r: Result<bool, String>)
    ensures
        r is Ok <==> is_width_value(metadata),
        r matches Ok(flag) ==> flag == (metadata.unwrap()@ == "true"@),
        r matches Err(msg) ==> msg@ == refusal_text(INTEGER_WIDTH_METADATA@, "integer"@, metadata),
{
    match width_metadata(metadata) {
        Some(flag) => Ok(flag),
        None => Err(width_refusal(INTEGER_WIDTH_METADATA, "integer", metadata)),
    }
}

/// The configured float width read from its metadata: whether it is 32
/// bits when the metadata is `true` or `false`, and otherwise the
/// message the build stops with.
pub fn read_float_width(metadata: Option<&str>) -> (r: Result<bool, String>)
    ensures
        r is Ok <==> is_width_value(metadata),
        r matches Ok(flag) ==> flag == (metadata.unwrap()@ == "true"@),
        r matches Err(msg) ==> msg@ == refusal_text(FLOAT_WIDTH_METADATA@, "float"@, metadata),
{
    match width_metadata(metadata) {
        Some(flag) => Ok(flag),
        None => Err(width_refusal(FLOAT_WIDTH_METADATA, "float", metadata)),
    }
}

/// The width of mruby's integer (`mrb_int`) the archive was built with.
#[derive(Copy, Clone, Debug, PartialEq, Eq, Structural)]
pub enum IntWidth {
    /// 32 bits (`MRB_INT32`, or a 32-bit target).
    Bits32,
    /// 64 bits, mruby's default on a 64-bit target.
    Bits64,
}

impl IntWidth {
    /// The largest integer the width holds.
    pub open spec fn max_spec(self) -> int {
        match self {
            IntWidth::Bits32 => i32::MAX as int,
            IntWidth::Bits64 => i64::MAX as int,
        }
    }

    /// The smallest integer the width holds.
    pub open spec fn min_spec(self) -> int {
        match self {
            IntWidth::Bits32 => i32::MIN as int,
            IntWidth::Bits64 => i64::MIN as int,
        }
    }

    /// The width a configured-64-bit flag names.
    pub fn from_int64(int64: bool) -> (r: IntWidth)
        ensures
            r == (if int64 { IntWidth::Bits64 } else { IntWidth::Bits32 }),
    {
        if int64 {
            IntWidth::Bits64
        } else {
            IntWidth::Bits32
        }
    }

    /// The largest integer the width holds.
    pub fn max(self) -> (r: i64)
        ensures
            r == self.max_spec(),
    {
        match self {
            IntWidth::Bits32 => i32::MAX as i64,
            IntWidth::Bits64 => i64::MAX,
        }
    }

    /// The smallest integer the width holds.
    pub fn min(self) -> (r: i64)
        ensures
            r == self.min_spec(),
    {
        match self {
            IntWidth::Bits32 => i32::MIN as i64,
            IntWidth::Bits64 => i64::MIN,
        }
    }
}

/// `v` clamped into `[lo, hi]`.
pub open spec fn clamp(v: int, lo: int, hi: int) -> int {
    if v < lo {
        lo
    } else if v > hi {
        hi
    } else {
        v
    }
}

/// An offset or a length carried into the width: itself when the width
/// holds it, otherwise the nearest bound, so a value past either end
/// still reads as "past the beginning" or "past the end" rather than a
/// truncated value landing on a wrong in-range position.
pub fn saturate(v: i64, width: IntWidth) -> (r: i64)
    ensures
        r == clamp(v as int, width.min_spec(), width.max_spec()),
{
    let lo = width.min();
    let hi = width.max();
    if v < lo {
        lo
    } else if v > hi {
        hi
    } else {
        v
    }
}

/// Saturating keeps what matters about an offset: its sign, and its order
/// against any other offset, so a position past either end of a
/// collection still reads as past that end.
pub proof fn lemma_saturate_keeps_sign_and_order(v: int, w: int, width: IntWidth)
    ensures
        (clamp(v, width.min_spec(), width.max_spec()) < 0) == (v < 0),
        (clamp(v, width.min_spec(), width.max_spec()) == 0) == (v == 0),
        v <= w ==> clamp(v, width.min_spec(), width.max_spec()) <= clamp(
            w,
            width.min_spec(),
            width.max_spec(),
        ),
        width.min_spec() <= v <= width.max_spec() ==> clamp(v, width.min_spec(), width.max_spec())
            == v,
{
}

/// A length or a count carried into the width: itself when the width
/// holds it, otherwise the width's largest integer.
pub fn saturate_len(len: usize, width: IntWidth) -> (r: i64)
    ensures
        r == (if len <= width.max_spec() { len as int } else { width.max_spec() }),
{
    let hi = width.max();
    if (len as u128) <= (hi as u128) {
        len as i64
    } else {
        hi
    }
}

/// A length carried into the width exactly, or nothing when the width
/// cannot hold it.
pub fn checked_len(len: usize, width: IntWidth) -> (r: Option<i64>)
    ensures
        r == (if len <= width.max_spec() { Some(len as i64) } else { None::<i64> }),
{
    let hi = width.max();
    if (len as u128) <= (hi as u128) {
        Some(len as i64)
    } else {
        None
    }
}

/// The argument count an arity error reports: `given` capped at the
/// width's largest integer, then carried into the width as mruby's
/// integer type carries it (a 32-bit width keeps the low 32 bits of a
/// count below its range).
pub fn argnum_count(given: i64, width: IntWidth) -> (r: i64)
    ensures
        ({
            let capped = if given <= width.max_spec() { given as int } else { width.max_spec() };
            r == (if width == IntWidth::Bits64 { capped } else { (capped as i32) as int })
        }),
{
    let hi = width.max();
    let capped = if given <= hi { given } else { hi };
    match width {
        IntWidth::Bits64 => capped,
        IntWidth::Bits32 => (capped as i32) as i64,
    }
}

} // verus!
