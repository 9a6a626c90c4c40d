//! The one slot of user data an interpreter holds for its embedder.
//!
//! The slot holds nothing or one value, tagged by the type it was
//! installed as. Installing never replaces what it holds — replacing is
//! taking first — and a read or a take by another type finds nothing
//! and leaves the slot as it was.

use vstd::prelude::*;

verus! {

/// The user-data slot: empty, or a value of type `V` tagged by the type
/// (`tag`) it was installed as.
pub struct UserData<V> {
    slot: Option<(u64, V)>,
}

impl<V> View for UserData<V> {
    type V = Option<(u64, V)>;

    /// What the slot holds: the tag of the type it was installed as, and
    /// the value.
    closed spec fn view(&self) -> Option<(u64, V)> {
        self.slot
    }
}

/// Whether the slot's contents `held` are a value installed as the type
/// `tag`.
pub open spec fn holds_tag<V>(held: Option<(u64, V)>, tag: u64) -> bool {
    held is Some && held.unwrap().0 == tag
}

impl<V> UserData<V> {
    /// An empty slot, as an interpreter opens with.
    pub fn new() -> (u: Self)
        ensures
            u@ is None,
    {
        UserData { slot: None }
    }

    /// Install `value` as the type `tag`. A slot that already holds a
    /// value refuses it, handing `value` back and leaving the held one in
    /// place.
    pub fn set(&mut self, tag: u64, value: V) -> (r: Result<(), V>)
        ensures
            old(self)@ is Some ==> r == Err::<(), V>(value) && final(self)@ == old(self)@,
            old(self)@ is None ==> r is Ok && final(self)@ == Some((tag, value)),
    {
        if self.slot.is_some() {
            return Err(value);
        }
        self.slot = Some((tag, value));
        Ok(())
    }

    /// The value in place, when the slot holds one installed as the type
    /// `tag`; nothing for an empty slot or one holding another type.
    pub fn get(&self, tag: u64) -> (r: Option<&V>)
        ensures
            r is Some <==> holds_tag(self@, tag),
            r matches Some(v) ==> *v == self@.unwrap().1,
    {
        match &self.slot {
            Some((t, v)) => {
                if *t == tag {
                    Some(v)
                } else {
                    None
                }
            },
            None => None,
        }
    }

    /// Take the value out, leaving the slot empty, when it holds one
    /// installed as the type `tag`; nothing for an empty slot or one
    /// holding another type, which is left as it was.
    pub fn take(&mut self, tag: u64) -> (r: Option<V>)
        ensures
            holds_tag(old(self)@, tag) ==> r == Some(old(self)@.unwrap().1) && final(self)@ is None,
            !holds_tag(old(self)@, tag) ==> r is None && final(self)@ == old(self)@,
    {
        match self.slot.take() {
            Some((t, v)) => {
                if t == tag {
                    Some(v)
                } else {
                    self.slot = Some((t, v));
                    None
                }
            },
            None => None,
        }
    }

    /// Drop whatever the slot holds, as the interpreter closes.
    pub fn clear(&mut self)
        ensures
            final(self)@ is None,
    {
        self.slot = None;
    }
}

} // verus!
