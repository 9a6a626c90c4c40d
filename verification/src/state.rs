//! The interpreter-level pieces: what opening one reports on failure,
//! the root table, the embedder's user-data slot, the carrier record's constant paths and the
//! bytecode loader's structural checks.

pub mod carrier;
pub mod load;
pub mod root;
pub mod user_data;

use vstd::prelude::*;

verus! {

/// Returned by `Mrb::open` when mruby could not produce a usable
/// interpreter: `mrb_open` returned NULL (allocation failure), or
/// returned a state with a pending exception (core or gem init failure).
#[derive(Debug, Clone, Copy, PartialEq, Eq, Structural)]
pub struct MrbOpenError;

impl MrbOpenError {
    /// The error's one-line rendering, as its `Display` writes it.
    pub fn render(&self) -> (r: String)
        ensures
            r@ == "mruby could not produce a usable interpreter"@,
    {
        String::from_str("mruby could not produce a usable interpreter")
    }
}

/// Whether a freshly opened state is a usable interpreter: not when
/// `mrb_open` answered NULL, and not when it answered a state whose
/// core or gem initialization left an exception pending.
pub fn open_outcome(state_is_null: bool, exception_pending: bool) -> (r: Result<(), MrbOpenError>)
    ensures
        r is Ok <==> (!state_is_null && !exception_pending),
{
    if state_is_null || exception_pending {
        Err(MrbOpenError)
    } else {
        Ok(())
    }
}

} // verus!
