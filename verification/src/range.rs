//! The normalized slice a Range covers of a collection.

use vstd::prelude::*;

use crate::width::IntWidth;

verus! {

/// mruby's `MRB_RANGE_TYPE_MISMATCH`: the receiver is not a Range.
pub const MRB_RANGE_TYPE_MISMATCH: i32 = 0;

/// mruby's `MRB_RANGE_OK`: the Range maps onto the collection.
pub const MRB_RANGE_OK: i32 = 1;

/// mruby's `MRB_RANGE_OUT`: the Range begins outside the collection.
pub const MRB_RANGE_OUT: i32 = 2;

/// The three-way outcome of `Range::beg_len` — the normalized slice a
/// Range covers of a collection of a given length. `Out` and
/// `TypeMismatch` are kept distinct so a caller can tell an out-of-range
/// Range from a non-Range receiver.
#[derive(Copy, Clone, Debug, PartialEq, Eq, Structural)]
pub enum RangeBegLen {
    /// The Range maps onto the collection: `beg` is the normalized begin
    /// offset (negative bounds counted back from the length) and `len`
    /// the selected length.
    Within {
        /// Normalized begin offset into the collection.
        beg: i64,
        /// Selected length from `beg`.
        len: i64,
    },
    /// The begin offset falls outside the collection. Carries no offsets.
    Out,
    /// The receiver is not a Range. Carries no offsets.
    TypeMismatch,
}

impl RangeBegLen {
    /// The outcome mruby's `mrb_range_beg_len` reported as `outcome`,
    /// with the offsets it wrote (read only when it reports `OK`).
    pub fn from_outcome(outcome: i32, beg: i64, len: i64) -> (r: RangeBegLen)
        ensures
            r == (if outcome == MRB_RANGE_OK {
                RangeBegLen::Within { beg, len }
            } else if outcome == MRB_RANGE_OUT {
                RangeBegLen::Out
            } else {
                RangeBegLen::TypeMismatch
            }),
    {
        if outcome == MRB_RANGE_OK {
            RangeBegLen::Within { beg, len }
        } else if outcome == MRB_RANGE_OUT {
            RangeBegLen::Out
        } else {
            RangeBegLen::TypeMismatch
        }
    }
}

/// The collection length a Range is resolved against, carried into the
/// configured integer width: itself when the width holds it, otherwise
/// the width's largest integer, so the clamp sees "as large as
/// representable" rather than a wrapped value landing on a wrong span.
pub fn beg_len_extent(len: i64, width: IntWidth) -> (r: i64)
    ensures
        r == (if width.min_spec() <= len <= width.max_spec() { len as int } else { width.max_spec() }),
{
    let lo = width.min();
    let hi = width.max();
    if lo <= len && len <= hi {
        len
    } else {
        hi
    }
}

} // verus!
