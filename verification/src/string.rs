//! What the string operations decide around mruby's own string calls:
//! the arguments they carry into the configured integer width, and how
//! mruby's answers read back.

use vstd::prelude::*;

use crate::width::{checked_len, saturate, saturate_len, IntWidth};
use core::cmp::Ordering;

verus! {

/// The arguments a substring read hands mruby: the begin offset and the
/// length, each carried into the width by saturating at its nearest
/// bound, so an offset past either end still reads as past it.
pub fn substr_args(beg: i64, len: i64, width: IntWidth) -> (r: (i64, i64))
    ensures
        r.0 == crate::width::clamp(beg as int, width.min_spec(), width.max_spec()),
        r.1 == crate::width::clamp(len as int, width.min_spec(), width.max_spec()),
{
    (saturate(beg, width), saturate(len, width))
}

/// What a substring read answers for mruby's result: nothing for `nil`
/// (a begin offset outside the string), the substring otherwise.
pub fn substr_result<X>(value: X, is_nil: bool) -> (r: Option<X>)
    ensures
        r == (if is_nil { None::<X> } else { Some(value) }),
{
    if is_nil {
        None
    } else {
        Some(value)
    }
}

/// The arguments a byte search hands mruby: the offset saturated at its
/// nearest bound, and the needle's length saturated upward (a needle
/// longer than the width holds cannot fit before the end either, so it
/// stays "not found").
pub fn index_args(offset: i64, needle_len: usize, width: IntWidth) -> (r: (i64, i64))
    ensures
        r.0 == crate::width::clamp(offset as int, width.min_spec(), width.max_spec()),
        r.1 == (if needle_len <= width.max_spec() { needle_len as int } else { width.max_spec() }),
{
    (saturate(offset, width), saturate_len(needle_len, width))
}

/// The byte index a search answered: mruby's `-1` (any negative) is no
/// match.
pub fn index_result(pos: i64) -> (r: Option<usize>)
    ensures
        r == (if pos < 0 { None::<usize> } else { Some(pos as usize) }),
{
    if pos < 0 {
        None
    } else {
        Some(pos as usize)
    }
}

/// The length a resize hands mruby, or nothing for a length mruby's
/// integer cannot hold — which the resize reports as the same
/// `ArgumentError` (`string size too large`) mruby raises for an
/// overflowed length.
pub fn resize_len(len: usize, width: IntWidth) -> (r: Option<i64>)
    ensures
        r == (if len <= width.max_spec() { Some(len as i64) } else { None::<i64> }),
{
    checked_len(len, width)
}

/// The ordering a byte comparison answered as its sign: negative orders
/// first, zero equal, positive after.
pub fn ordering_of(sign: i32) -> (r: Ordering)
    ensures
        r == (if sign < 0 {
            Ordering::Less
        } else if sign == 0 {
            Ordering::Equal
        } else {
            Ordering::Greater
        }),
{
    if sign < 0 {
        Ordering::Less
    } else if sign == 0 {
        Ordering::Equal
    } else {
        Ordering::Greater
    }
}

} // verus!
