//! The signal a hash walk's body steers it with.

use vstd::prelude::*;

verus! {

/// Signal a `Hash::each` body returns to steer the walk: mruby's walk
/// has no delete-and-continue path, so visiting on and stopping are the
/// two.
#[derive(Copy, Clone, PartialEq, Eq, Debug, Structural)]
pub enum ForEach {
    /// Visit the remaining pairs.
    Continue,
    /// End the walk before the remaining pairs.
    Stop,
}

/// The code the walk's C callback hands mruby for one visited pair, from
/// what the body answered — `None` when the body panicked, which stops
/// the walk too so the panic never crosses mruby's frames: zero visits
/// on, anything else stops.
pub fn walk_code(outcome: Option<ForEach>) -> (r: i32)
    ensures
        r == (if outcome == Some(ForEach::Continue) { 0i32 } else { 1i32 }),
{
    match outcome {
        Some(ForEach::Continue) => 0,
        Some(ForEach::Stop) => 1,
        None => 1,
    }
}


/// What a hash walk answers once mruby's walk has returned: a panic
/// parked by the body resumes first, preempting whatever the protected
/// walk answered; otherwise that answer.
pub enum AfterWalk<P, R> {
    /// Resume unwinding with the parked panic's payload.
    Resume(P),
    /// Answer the protected walk's result.
    Done(R),
}

/// Decide what a walk answers from the panic it parked, if any, and the
/// result of the protected walk.
pub fn after_walk<P, R>(parked: Option<P>, result: R) -> (r: AfterWalk<P, R>)
    ensures
        match parked {
            Some(payload) => r == AfterWalk::<P, R>::Resume(payload),
            None => r == AfterWalk::<P, R>::Done(result),
        },
{
    match parked {
        Some(payload) => AfterWalk::Resume(payload),
        None => AfterWalk::Done(result),
    }
}

} // verus!
