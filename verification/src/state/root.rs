//! The root table behind releasable GC roots.
//!
//! A value a Rust caller holds past the frame that made it needs a root.
//! mruby's own registry is keyed by value, so removing one registration
//! drops every root over that value; each releasable root therefore owns
//! a slot of a table the interpreter keeps reachable, and releasing it
//! clears that slot alone, leaving every other slot — another root over
//! the same value included — standing.
//!
//! The table is an intrusive free list: slot 0 holds the index of the
//! first free slot (zero when there is none), each free slot holds the
//! index of the next one, and every other slot holds a rooted value. A
//! slot index is never zero, so zero can mean "no free slot", and a
//! released slot is reused without scanning.

use vstd::prelude::*;

verus! {

/// One slot of a root table.
#[derive(Copy, Clone)]
pub enum RootEntry<T> {
    /// The head slot, or a free slot: the index of the next free slot,
    /// zero when there is none.
    Link(usize),
    /// A slot holding a rooted value.
    Held(T),
}

/// The table of releasable roots: one slot per live root, the free
/// slots threaded into a list from slot 0.
pub struct RootTable<T: Copy> {
    entries: Vec<RootEntry<T>>,
    /// The free slots, in the order the list threads them.
    free: Ghost<Seq<usize>>,
}

/// The link a free slot at position `i` of the free list `free` holds:
/// the next free slot, or zero after the last.
pub open spec fn link_after(free: Seq<usize>, i: int) -> usize {
    if i + 1 < free.len() {
        free[i + 1]
    } else {
        0
    }
}

/// The link the head slot holds over the free list `free`: its first
/// slot, or zero when it is empty.
pub open spec fn head_of(free: Seq<usize>) -> usize {
    if free.len() > 0 {
        free[0]
    } else {
        0
    }
}

impl<T: Copy> View for RootTable<T> {
    type V = Map<usize, T>;

    /// The live roots: each slot holding a value, mapped to it.
    closed spec fn view(&self) -> Map<usize, T> {
        Map::new(
            |j: usize| 1 <= j < self.entries@.len() && self.entries@[j as int] is Held,
            |j: usize| self.entries@[j as int]->Held_0,
        )
    }
}

impl<T: Copy> RootTable<T> {
    /// The table is a well-formed free list: the head slot links the
    /// first free slot, each free slot links the next, the free slots
    /// are distinct non-head slots, and every non-head slot either holds
    /// a value or is on the list — never both.
    #[verifier::type_invariant]
    pub closed spec fn wf(&self) -> bool {
        let e = self.entries@;
        let f = self.free@;
        &&& e.len() >= 1
        &&& e[0] == RootEntry::<T>::Link(head_of(f))
        &&& forall|i: int| 0 <= i < f.len() ==> 1 <= #[trigger] f[i] < e.len()
        &&& forall|i: int, j: int| 0 <= i < j < f.len() ==> f[i] != f[j]
        &&& forall|i: int|
            0 <= i < f.len() ==> e[#[trigger] f[i] as int] == RootEntry::<T>::Link(link_after(f, i))
        &&& forall|j: int| 1 <= j < e.len() ==> (#[trigger] e[j] is Held <==> !f.contains(j as usize))
    }

    /// The free slots, in the order claims reuse them.
    pub closed spec fn free_list(&self) -> Seq<usize> {
        self.free@
    }

    /// The number of slots, the head slot included.
    pub closed spec fn slot_count(&self) -> nat {
        self.entries@.len()
    }

    /// The slot the next claim takes: the first free slot, or a new slot
    /// at the end when none is free.
    pub open spec fn next_slot(&self) -> usize {
        if self.free_list().len() > 0 {
            self.free_list()[0]
        } else {
            self.slot_count() as usize
        }
    }

    /// `post` is this table after a claim of `v` answered `slot`: the
    /// value is rooted at the slot the claim takes, a slot that held no
    /// root, and no other root moves.
    pub open spec fn claimed(self, v: T, slot: usize, post: Self) -> bool {
        &&& post.wf()
        &&& slot == self.next_slot()
        &&& slot >= 1
        &&& !self@.contains_key(slot)
        &&& post@ == self@.insert(slot, v)
        &&& post.free_list() == (if self.free_list().len() > 0 {
            self.free_list().drop_first()
        } else {
            self.free_list()
        })
        &&& post.slot_count() == (if self.free_list().len() > 0 {
            self.slot_count()
        } else {
            self.slot_count() + 1
        })
    }

    /// `post` is this table after `slot` was released: that root alone is
    /// gone, and the slot heads the free list.
    pub open spec fn released(self, slot: usize, post: Self) -> bool {
        &&& post.wf()
        &&& post@ == self@.remove(slot)
        &&& post.free_list() == seq![slot] + self.free_list()
        &&& post.slot_count() == self.slot_count()
    }

    /// An empty table: the head slot alone, linking no free slot.
    pub fn new() -> (t: Self)
        ensures
            t.wf(),
            t@ == Map::<usize, T>::empty(),
            t.free_list() == Seq::<usize>::empty(),
            t.slot_count() == 1,
    {
        let mut entries: Vec<RootEntry<T>> = Vec::new();
        entries.push(RootEntry::Link(0));
        let t = RootTable { entries, free: Ghost(Seq::empty()) };
        assert(t@ =~= Map::<usize, T>::empty());
        t
    }

    /// The first free slot, or zero when there is none.
    pub fn free_head(&self) -> (r: usize)
        ensures
            r == head_of(self.free_list()),
    {
        proof {
            use_type_invariant(self);
        }
        match &self.entries[0] {
            RootEntry::Link(head) => *head,
            RootEntry::Held(_) => 0,
        }
    }

    /// The value rooted at `slot`, or nothing when the slot roots none.
    pub fn get(&self, slot: usize) -> (r: Option<T>)
        ensures
            r == (if self@.contains_key(slot) { Some(self@[slot]) } else { None::<T> }),
    {
        proof {
            use_type_invariant(self);
        }
        if slot == 0 || slot >= self.entries.len() {
            return None;
        }
        match &self.entries[slot] {
            RootEntry::Held(v) => Some(*v),
            RootEntry::Link(_) => None,
        }
    }

    /// Root `v` in a free slot, reusing the most recently released one
    /// when the free list has any and growing the table when it does not,
    /// and answer the slot.
    pub fn claim(&mut self, v: T) -> (slot: usize)
        requires
            old(self).slot_count() < usize::MAX,
        ensures
            old(self).claimed(v, slot, *final(self)),
    {
        proof {
            use_type_invariant(&*self);
        }
        let mut t = RootTable::new();
        std::mem::swap(&mut t, self);
        let RootTable { mut entries, free } = t;
        let ghost f = free@;
        let ghost e0 = entries@;
        let head = match &entries[0] {
            RootEntry::Link(head) => *head,
            RootEntry::Held(_) => 0,
        };
        if head == 0 {
            let slot = entries.len();
            proof {
                if f.len() > 0 {
                    assert(1 <= f[0]);
                }
                assert(!f.contains(slot)) by {
                    if f.contains(slot) {
                        let k = f.index_of(slot);
                        assert(f[k] < e0.len());
                    }
                }
            }
            entries.push(RootEntry::Held(v));
            proof {
                let e = entries@;
                assert forall|i: int| 0 <= i < f.len() implies e[#[trigger] f[i] as int]
                    == RootEntry::<T>::Link(link_after(f, i)) by {
                    assert(f[i] < e0.len());
                }
                assert forall|j: int| 1 <= j < e.len() implies (#[trigger] e[j] is Held <==> !f.contains(
                    j as usize,
                )) by {
                    if j < e0.len() {
                        assert(e[j] == e0[j]);
                    }
                }
            }
            *self = RootTable { entries, free: Ghost(f) };
            proof {
                assert(self@ =~= old(self)@.insert(slot, v));
            }
            slot
        } else {
            proof {
                assert(f.len() > 0);
                assert(f[0] == head);
            }
            let next = match &entries[head] {
                RootEntry::Link(n) => *n,
                RootEntry::Held(_) => 0,
            };
            proof {
                assert(e0[f[0] as int] == RootEntry::<T>::Link(link_after(f, 0)));
                assert(next == link_after(f, 0));
            }
            entries.set(0, RootEntry::Link(next));
            entries.set(head, RootEntry::Held(v));
            let ghost g = f.drop_first();
            proof {
                let e = entries@;
                assert(e[0] == RootEntry::<T>::Link(head_of(g)));
                assert forall|i: int| 0 <= i < g.len() implies 1 <= #[trigger] g[i] < e.len() by {
                    assert(g[i] == f[i + 1]);
                }
                assert forall|i: int, j: int| 0 <= i < j < g.len() implies g[i] != g[j] by {
                    assert(g[i] == f[i + 1]);
                    assert(g[j] == f[j + 1]);
                }
                assert forall|i: int| 0 <= i < g.len() implies e[#[trigger] g[i] as int]
                    == RootEntry::<T>::Link(link_after(g, i)) by {
                    assert(g[i] == f[i + 1]);
                    assert(f[i + 1] != f[0]);
                    assert(e0[f[i + 1] as int] == RootEntry::<T>::Link(link_after(f, i + 1)));
                }
                assert forall|j: int| 1 <= j < e.len() implies (#[trigger] e[j] is Held <==> !g.contains(
                    j as usize,
                )) by {
                    if j == head {
                        if g.contains(j as usize) {
                            let k = g.index_of(j as usize);
                            assert(g[k] == f[k + 1]);
                            assert(f[k + 1] != f[0]);
                        }
                    } else {
                        assert(e[j] == e0[j]);
                        if f.contains(j as usize) {
                            let k = f.index_of(j as usize);
                            assert(k != 0);
                            assert(g[k - 1] == f[k]);
                            assert(g.contains(j as usize));
                        }
                        if g.contains(j as usize) {
                            let k = g.index_of(j as usize);
                            assert(g[k] == f[k + 1]);
                            assert(f.contains(j as usize));
                        }
                    }
                }
                assert(!old(self)@.contains_key(head)) by {
                    assert(f[0] == head);
                    assert(f.contains(head));
                }
            }
            *self = RootTable { entries, free: Ghost(g) };
            proof {
                assert(self@ =~= old(self)@.insert(head, v));
            }
            head
        }
    }

    /// Release the root at `slot`: clear the slot and thread it onto the
    /// front of the free list, so the next claim reuses it.
    pub fn release(&mut self, slot: usize)
        requires
            old(self)@.contains_key(slot),
        ensures
            old(self).released(slot, *final(self)),
    {
        proof {
            use_type_invariant(&*self);
        }
        let mut t = RootTable::new();
        std::mem::swap(&mut t, self);
        let RootTable { mut entries, free } = t;
        let ghost f = free@;
        let ghost e0 = entries@;
        let head = match &entries[0] {
            RootEntry::Link(head) => *head,
            RootEntry::Held(_) => 0,
        };
        proof {
            assert(1 <= slot < e0.len());
            assert(e0[slot as int] is Held);
            assert(!f.contains(slot));
        }
        entries.set(slot, RootEntry::Link(head));
        entries.set(0, RootEntry::Link(slot));
        let ghost g = seq![slot] + f;
        proof {
            let e = entries@;
            assert(e.len() == entries.len());
            assert(g[0] == slot);
            assert forall|i: int| 0 <= i < g.len() implies 1 <= #[trigger] g[i] < e.len() by {
                if i > 0 {
                    assert(g[i] == f[i - 1]);
                }
            }
            assert forall|i: int, j: int| 0 <= i < j < g.len() implies g[i] != g[j] by {
                if i == 0 {
                    assert(g[j] == f[j - 1]);
                    assert(f.contains(f[j - 1]));
                } else {
                    assert(g[i] == f[i - 1]);
                    assert(g[j] == f[j - 1]);
                }
            }
            assert forall|i: int| 0 <= i < g.len() implies e[#[trigger] g[i] as int]
                == RootEntry::<T>::Link(link_after(g, i)) by {
                if i == 0 {
                    assert(e[slot as int] == RootEntry::<T>::Link(head));
                    if f.len() > 0 {
                        assert(link_after(g, 0) == f[0]);
                    }
                } else {
                    assert(g[i] == f[i - 1]);
                    assert(f.contains(f[i - 1]));
                    assert(f[i - 1] != slot);
                    assert(e[f[i - 1] as int] == e0[f[i - 1] as int]);
                    assert(link_after(g, i) == link_after(f, i - 1));
                }
            }
            assert forall|j: int| 1 <= j < e.len() implies (#[trigger] e[j] is Held <==> !g.contains(
                j as usize,
            )) by {
                if j == slot {
                    assert(g[0] == slot);
                } else {
                    assert(e[j] == e0[j]);
                    if f.contains(j as usize) {
                        let k = f.index_of(j as usize);
                        assert(g[k + 1] == f[k]);
                    }
                    if g.contains(j as usize) {
                        let k = g.index_of(j as usize);
                        assert(g[k] == j as usize);
                        assert(j < usize::MAX);
                        assert(k != 0);
                        assert(g[k] == f[k - 1]);
                    }
                }
            }
        }
        *self = RootTable { entries, free: Ghost(g) };
        proof {
            assert(self@ =~= old(self)@.remove(slot));
        }
    }
}

/// A released slot is the one the next root takes: releasing `slot` and
/// then claiming roots the new value at that same slot, so the table
/// reuses it rather than growing, and every other root is as it was.
pub proof fn lemma_released_slot_is_reused<T: Copy>(
    t0: RootTable<T>,
    slot: usize,
    t1: RootTable<T>,
    v: T,
    claimed: usize,
    t2: RootTable<T>,
)
    requires
        t0.released(slot, t1),
        t1.claimed(v, claimed, t2),
    ensures
        claimed == slot,
        t2@ == t0@.remove(slot).insert(slot, v),
        t2.slot_count() == t0.slot_count(),
        t2.free_list() == t0.free_list(),
{
    assert(t1.free_list()[0] == slot);
    assert(t1.free_list().drop_first() =~= t0.free_list());
}

/// Roots are independent: two roots over the same value own two slots,
/// and releasing one leaves the other standing, still holding the value.
pub proof fn lemma_roots_are_independent<T: Copy>(
    t0: RootTable<T>,
    v: T,
    a: usize,
    t1: RootTable<T>,
    b: usize,
    t2: RootTable<T>,
    t3: RootTable<T>,
)
    requires
        t0.claimed(v, a, t1),
        t1.claimed(v, b, t2),
        t2.released(a, t3),
    ensures
        a != b,
        t3@.contains_key(b),
        t3@[b] == v,
        !t3@.contains_key(a),
{
}

/// Releasing the root a claim took leaves the table's roots as they were
/// before the claim.
pub proof fn lemma_claim_then_release_restores<T: Copy>(
    t0: RootTable<T>,
    v: T,
    slot: usize,
    t1: RootTable<T>,
    t2: RootTable<T>,
)
    requires
        t0.claimed(v, slot, t1),
        t1.released(slot, t2),
    ensures
        t2@ == t0@,
{
    assert(t2@ =~= t0@);
}

} // verus!
