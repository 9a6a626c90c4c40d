//! How a value comparison's answer reads back, and what an integer
//! rendering refuses.

use vstd::prelude::*;

use core::cmp::Ordering;

verus! {

/// The sentinel mruby's comparison answers for two incomparable values.
pub const INCOMPARABLE: i64 = -2;

/// The rank a comparison answered: nothing for the incomparable sentinel
/// (Ruby's `<=>` yielding `nil`), otherwise the ordering its sign gives —
/// Ruby's `<=>` promises only a negative, zero or positive result, not a
/// magnitude.
pub fn rank_of(n: i64) -> (r: Option<Ordering>)
    ensures
        r == (if n == INCOMPARABLE {
            None::<Ordering>
        } else if n == 0 {
            Some(Ordering::Equal)
        } else if n < 0 {
            Some(Ordering::Less)
        } else {
            Some(Ordering::Greater)
        }),
{
    if n == INCOMPARABLE {
        None
    } else if n == 0 {
        Some(Ordering::Equal)
    } else if n < 0 {
        Some(Ordering::Less)
    } else {
        Some(Ordering::Greater)
    }
}


/// The `TypeError` message rendering a value in a radix raises for a
/// value that is not an Integer — a Float included, which is refused
/// rather than coerced — and nothing for an Integer, which goes on to
/// mruby's own rendering.
pub fn integer_guard(is_integer: bool) -> (r: Option<&'static str>)
    ensures
        r is None <==> is_integer,
        r matches Some(m) ==> m@ == "no implicit conversion to Integer"@,
{
    if is_integer {
        None
    } else {
        Some("no implicit conversion to Integer")
    }
}

} // verus!
