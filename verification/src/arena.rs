//! The memory arena: an indexed, growable collection of banks of words.
//! Bank 0 holds the running program and is never abandoned. A stack of
//! freed indices lets allocation reuse the most recently abandoned index
//! before growing the arena.

use crate::error::{err, Error, Fault};
use crate::platter::Platter;
use vstd::prelude::*;

verus! {

/// The mathematical model of the arena: every bank's contents, and the
/// stack of reusable indices (top of stack last).
pub struct ArenaView {
    pub banks: Seq<Seq<Platter>>,
    pub free: Seq<usize>,
}

impl ArenaView {
    /// A zero-filled bank of `size` words.
    pub open spec fn zero_bank(size: nat) -> Seq<Platter> {
        Seq::new(size, |i: int| Platter(0))
    }

    /// The arena's invariant: bank 0 exists, and every freed index is a
    /// distinct in-range index other than 0 whose bank has been cleared.
    pub open spec fn wf(self) -> bool {
        &&& self.banks.len() >= 1
        &&& forall|i: int|
            0 <= i < self.free.len() ==> 0 < #[trigger] self.free[i] < self.banks.len()
        &&& forall|i: int|
            0 <= i < self.free.len() ==> (#[trigger] self.banks[self.free[i] as int]).len() == 0
        &&& forall|i: int, j: int|
            0 <= i < j < self.free.len() ==> self.free[i] != self.free[j]
    }

    /// A bank index that is currently allocated: in range and not freed.
    pub open spec fn is_live(self, i: int) -> bool {
        0 <= i < self.banks.len() && !self.free.contains(i as usize)
    }

    /// The index the next allocation returns: the most recently freed
    /// index if one exists, else a fresh index past the end.
    pub open spec fn alloc_index(self) -> int {
        if self.free.len() > 0 {
            self.free.last() as int
        } else {
            self.banks.len() as int
        }
    }

    /// The arena after allocating a zero-filled bank of `size` words.
    pub open spec fn after_alloc(self, size: nat) -> ArenaView {
        if self.free.len() > 0 {
            ArenaView {
                banks: self.banks.update(self.free.last() as int, Self::zero_bank(size)),
                free: self.free.drop_last(),
            }
        } else {
            ArenaView { banks: self.banks.push(Self::zero_bank(size)), free: self.free }
        }
    }

    /// Whether bank `i` may be abandoned: it is not bank 0, it is in
    /// range, and it has not already been abandoned.
    pub open spec fn may_abandon(self, i: int) -> bool {
        0 < i < self.banks.len() && !self.free.contains(i as usize)
    }

    /// The arena after abandoning bank `i`: its contents are cleared and
    /// its index becomes reusable.
    pub open spec fn after_abandon(self, i: int) -> ArenaView {
        ArenaView {
            banks: self.banks.update(i, Seq::<Platter>::empty()),
            free: self.free.push(i as usize),
        }
    }

    /// Whether reading or writing bank `i` at offset `off` is in bounds.
    pub open spec fn in_bounds(self, i: int, off: int) -> bool {
        0 <= i < self.banks.len() && 0 <= off < self.banks[i].len()
    }
}

/// Last in, first out: after a bank is abandoned, the very next
/// allocation returns that bank's index again, with a zero-filled bank
/// of the requested size; the index was not live in between.
pub proof fn lemma_abandon_then_allocate_reuses(a: ArenaView, i: usize, size: nat)
    requires
        a.wf(),
        a.may_abandon(i as int),
    ensures
        a.after_abandon(i as int).alloc_index() == i,
        !a.after_abandon(i as int).is_live(i as int),
        a.after_abandon(i as int).after_alloc(size).banks[i as int] == ArenaView::zero_bank(size),
        a.after_abandon(i as int).after_alloc(size).is_live(i as int),
{
    let freed = a.after_abandon(i as int);
    assert(freed.free.last() == i);
    assert(freed.free.contains(i));
    assert(!freed.after_alloc(size).free.contains(i)) by {
        if freed.after_alloc(size).free.contains(i) {
            let j = choose|j: int|
                0 <= j < freed.after_alloc(size).free.len() && freed.after_alloc(size).free[j]
                    == i;
            assert(a.free[j] == i);
        }
    }
}

/// The memory arena itself.
pub struct Arena {
    banks: Vec<Vec<Platter>>,
    free: Vec<usize>,
}

impl View for Arena {
    type V = ArenaView;

    closed spec fn view(&self) -> ArenaView {
        ArenaView { banks: self.banks@.map_values(|b: Vec<Platter>| b@), free: self.free@ }
    }
}

/// A zero-filled bank of `size` words.
fn zero_vec(size: usize) -> (v: Vec<Platter>)
    ensures
        v@ == ArenaView::zero_bank(size as nat),
{
    let v = vec![Platter(0); size];
    proof {
        assert(v@ =~= ArenaView::zero_bank(size as nat));
    }
    v
}

impl Arena {
    /// A fresh arena holding a single empty bank 0 and no freed indices.
    pub fn new() -> (a: Arena)
        ensures
            a@.wf(),
            a@.banks == seq![Seq::<Platter>::empty()],
            a@.free == Seq::<usize>::empty(),
    {
        let a = Arena { banks: vec![Vec::new()], free: Vec::new() };
        proof {
            assert(a@.banks =~= seq![Seq::<Platter>::empty()]);
        }
        a
    }

    /// How many banks the arena holds, freed ones included.
    pub fn bank_count(&self) -> (n: usize)
        ensures
            n == self@.banks.len(),
    {
        self.banks.len()
    }

    /// The length of bank `index`.
    pub fn bank_len(&self, index: usize) -> (n: usize)
        requires
            index < self@.banks.len(),
        ensures
            n == self@.banks[index as int].len(),
    {
        self.banks[index].len()
    }

    /// Whether `index` is on the free list.
    fn contains_free(&self, index: usize) -> (r: bool)
        ensures
            r == self@.free.contains(index),
    {
        let mut k: usize = 0;
        while k < self.free.len()
            invariant
                k <= self.free.len(),
                forall|j: int| 0 <= j < k ==> self.free@[j] != index,
            decreases self.free.len() - k,
        {
            if self.free[k] == index {
                return true;
            }
            k += 1;
        }
        false
    }

    /// Creates a zero-filled bank of `size` words, reusing the most
    /// recently freed index if one exists (last in, first out), else
    /// appending a new bank. Never fails; the returned index was not
    /// live before the call and is live after it.
    pub fn allocate(&mut self, size: usize) -> (index: usize)
        requires
            old(self)@.wf(),
        ensures
            final(self)@.wf(),
            index as int == old(self)@.alloc_index(),
            final(self)@ == old(self)@.after_alloc(size as nat),
            !old(self)@.is_live(index as int),
            final(self)@.is_live(index as int),
            index < final(self)@.banks.len(),
            final(self)@.banks[index as int] == ArenaView::zero_bank(size as nat),
    {
        let zero = zero_vec(size);
        let index = match self.free.pop() {
            Some(idx) => {
                self.banks[idx] = zero;
                proof {
                    assert(self@.banks =~= old(self)@.banks.update(
                        idx as int,
                        ArenaView::zero_bank(size as nat),
                    ));
                    assert(self@.free =~= old(self)@.free.drop_last());
                }
                idx
            },
            None => {
                let idx = self.banks.len();
                self.banks.push(zero);
                proof {
                    assert(self@.banks =~= old(self)@.banks.push(
                        ArenaView::zero_bank(size as nat),
                    ));
                }
                idx
            },
        };
        proof {
            assert(final(self)@ == old(self)@.after_alloc(size as nat));
            if old(self)@.free.len() > 0 {
                assert(!old(self)@.free.drop_last().contains(index)) by {
                    if old(self)@.free.drop_last().contains(index) {
                        let j = choose|j: int|
                            0 <= j < old(self)@.free.len() - 1 && old(self)@.free[j] == index;
                        assert(old(self)@.free[j] == old(self)@.free[old(self)@.free.len() - 1]);
                    }
                }
            }
        }
        index
    }

    /// Clears bank `index` and marks its index reusable. Fails with a
    /// memory fault if `index` is 0, out of range, or already abandoned;
    /// a failed abandonment changes nothing.
    pub fn abandon(&mut self, index: usize) -> (r: Result<(), Error>)
        requires
            old(self)@.wf(),
        ensures
            final(self)@.wf(),
            match r {
                Ok(_) => old(self)@.may_abandon(index as int) && final(self)@ == old(
                    self,
                )@.after_abandon(index as int),
                Err(e) => e.kind == Fault::MemoryFault && !old(self)@.may_abandon(index as int)
                    && final(self)@ == old(self)@,
            },
    {
        if index == 0 || index >= self.banks.len() || self.contains_free(index) {
            return Err(err(Fault::MemoryFault));
        }
        self.banks[index] = Vec::new();
        self.free.push(index);
        proof {
            assert(self@.banks =~= old(self)@.banks.update(index as int, Seq::<Platter>::empty()));
        }
        Ok(())
    }

    /// Reads the word at `offset` in bank `index`; fails with a memory
    /// fault exactly when the access is out of bounds (an abandoned bank
    /// is empty, so any access to it is out of bounds).
    pub fn read(&self, index: usize, offset: usize) -> (r: Result<Platter, Error>)
        ensures
            match r {
                Ok(p) => self@.in_bounds(index as int, offset as int) && p == self@.banks[
                    index as int
                ][offset as int],
                Err(e) => e.kind == Fault::MemoryFault && !self@.in_bounds(
                    index as int,
                    offset as int,
                ),
            },
    {
        if index < self.banks.len() && offset < self.banks[index].len() {
            Ok(self.banks[index][offset])
        } else {
            Err(err(Fault::MemoryFault))
        }
    }

    /// Writes `value` at `offset` in bank `index`; fails with a memory
    /// fault exactly when the access is out of bounds, changing nothing.
    pub fn write(&mut self, index: usize, offset: usize, value: Platter) -> (r: Result<(), Error>)
        requires
            old(self)@.wf(),
        ensures
            final(self)@.wf(),
            final(self)@.free == old(self)@.free,
            match r {
                Ok(_) => old(self)@.in_bounds(index as int, offset as int) && final(self)@.banks
                    == old(self)@.banks.update(
                    index as int,
                    old(self)@.banks[index as int].update(offset as int, value),
                ),
                Err(e) => e.kind == Fault::MemoryFault && !old(self)@.in_bounds(
                    index as int,
                    offset as int,
                ) && final(self)@ == old(self)@,
            },
    {
        if index < self.banks.len() && offset < self.banks[index].len() {
            self.banks[index][offset] = value;
            proof {
                assert(self@.banks =~= old(self)@.banks.update(
                    index as int,
                    old(self)@.banks[index as int].update(offset as int, value),
                ));
                assert forall|i: int| 0 <= i < self@.free.len() implies (#[trigger] self@.banks[
                    self@.free[i] as int]).len() == 0 by {
                    assert(old(self)@.banks[old(self)@.free[i] as int].len() == 0);
                }
            }
            Ok(())
        } else {
            Err(err(Fault::MemoryFault))
        }
    }

    /// Replaces bank 0 with a copy of bank `index` (the self-modifying
    /// program load); fails with a memory fault exactly when `index` is
    /// out of range, changing nothing.
    pub fn duplicate_to_zero(&mut self, index: usize) -> (r: Result<(), Error>)
        requires
            old(self)@.wf(),
        ensures
            final(self)@.wf(),
            final(self)@.free == old(self)@.free,
            match r {
                Ok(_) => index < old(self)@.banks.len() && final(self)@.banks == old(
                    self,
                )@.banks.update(0, old(self)@.banks[index as int]),
                Err(e) => e.kind == Fault::MemoryFault && index >= old(self)@.banks.len()
                    && final(self)@ == old(self)@,
            },
    {
        if index >= self.banks.len() {
            return Err(err(Fault::MemoryFault));
        }
        let bank = self.banks[index].clone();
        proof {
            assert(bank@ =~= old(self)@.banks[index as int]);
        }
        self.banks[0] = bank;
        proof {
            assert(self@.banks =~= old(self)@.banks.update(0, old(self)@.banks[index as int]));
            assert forall|i: int| 0 <= i < self@.free.len() implies (#[trigger] self@.banks[
                self@.free[i] as int]).len() == 0 by {
                assert(old(self)@.banks[old(self)@.free[i] as int].len() == 0);
            }
        }
        Ok(())
    }

    /// Replaces bank 0 with the given words (the initial program load).
    pub fn set_program(&mut self, words: Vec<Platter>)
        requires
            old(self)@.wf(),
        ensures
            final(self)@.wf(),
            final(self)@.free == old(self)@.free,
            final(self)@.banks == old(self)@.banks.update(0, words@),
    {
        let ghost w = words@;
        self.banks[0] = words;
        proof {
            assert(self@.banks =~= old(self)@.banks.update(0, w));
            assert forall|i: int| 0 <= i < self@.free.len() implies (#[trigger] self@.banks[
                self@.free[i] as int]).len() == 0 by {
                assert(old(self)@.banks[old(self)@.free[i] as int].len() == 0);
            }
        }
    }
}

} // verus!
