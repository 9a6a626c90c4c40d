//! The walk over an array's elements by C-level index.

use vstd::prelude::*;

verus! {

/// A walk over an array's elements by index, against the length fixed
/// when the walk began: it hands out each index below that length once,
/// in order, then nothing. A position the array no longer reaches reads
/// `nil` when the caller reads it; an element appended past the fixed
/// length is not visited.
pub struct Entries {
    idx: usize,
    len: usize,
}

impl Entries {
    /// The walk never hands out an index past its fixed length.
    #[verifier::type_invariant]
    spec fn within(&self) -> bool {
        self.idx <= self.len
    }

    /// The next index the walk hands out.
    pub closed spec fn position(&self) -> nat {
        self.idx as nat
    }

    /// The length the walk was fixed to when it began.
    pub closed spec fn fixed_len(&self) -> nat {
        self.len as nat
    }

    /// A walk over an array `len` elements long.
    pub fn new(len: usize) -> (e: Entries)
        ensures
            e.position() == 0,
            e.fixed_len() == len,
    {
        Entries { idx: 0, len }
    }

    /// The next index to read, or nothing once every index below the
    /// fixed length was handed out.
    pub fn next_index(&mut self) -> (r: Option<usize>)
        ensures
            final(self).fixed_len() == old(self).fixed_len(),
            final(self).position() <= final(self).fixed_len(),
            old(self).position() < old(self).fixed_len() ==> r == Some(old(self).position() as usize)
                && final(self).position() == old(self).position() + 1,
            old(self).position() >= old(self).fixed_len() ==> r is None && final(self).position()
                == old(self).position(),
    {
        proof {
            use_type_invariant(&*self);
        }
        if self.idx >= self.len {
            return None;
        }
        let i = self.idx;
        self.idx = self.idx + 1;
        Some(i)
    }

    /// How many indices remain, exactly: the fixed length less those
    /// handed out, whatever the array does meanwhile.
    pub fn size_hint(&self) -> (r: (usize, Option<usize>))
        ensures
            r.0 == self.fixed_len() - self.position(),
            r.1 == Some(r.0),
    {
        proof {
            use_type_invariant(self);
        }
        let remaining = self.len - self.idx;
        (remaining, Some(remaining))
    }
}

} // verus!
