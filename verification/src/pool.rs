//! Fixed-capacity slot storage with a free list and an active list.
//!
//! The pool preallocates `capacity` default-valued slots. Spawning moves a
//! pointer from the free list to the active list and resets its slot;
//! destroying moves it back and leaves the slot's data in place until the
//! next spawn or an explicit wipe.
//!
//! The bookkeeping invariant holds after construction and after every
//! operation: the free and active lists are duplicate-free, disjoint, stay
//! inside the pool's bounds, and their lengths add up to the capacity.

use vstd::prelude::*;

use crate::types::Entity;

verus! {

/// A reference to a slot in the pool. A pointer can outlive the spawn that
/// produced it; `exists` tells whether its slot is currently active.
pub type Pointer = usize;

#[derive(Clone, Copy, Debug, PartialEq, Eq, Structural)]
pub enum PoolError {
    /// Spawned more items than the pool can hold.
    Overflow,
}

/// A test payload for exercising the pool: one string value.
pub struct PoolTestType(String);

impl View for PoolTestType {
    type V = Seq<char>;

    closed spec fn view(&self) -> Seq<char> {
        self.0@
    }
}

impl PoolTestType {
    /// Overwrites the held value.
    pub fn set(&mut self, val: &str)
        ensures
            final(self)@ == val@,
    {
        self.0 = String::from_str(val);
    }

    /// Reads the held value.
    pub fn get(&self) -> (r: &str)
        ensures
            r@ == self@,
    {
        self.0.as_str()
    }
}

impl Entity for PoolTestType {
    open spec fn base_view() -> Seq<char> {
        Seq::<char>::empty()
    }

    fn base() -> (r: Self)
        ensures
            r@ == Self::base_view(),
    {
        PoolTestType(String::new())
    }

    fn duplicate(&self) -> (r: Self)
        ensures
            r@ == self@,
    {
        PoolTestType(self.0.clone())
    }
}

/// Fixed-capacity object pool: payload storage plus free/active bookkeeping.
pub struct Pool<T> {
    pool: Vec<T>,
    free: Vec<Pointer>,
    in_use: Vec<Pointer>,
}

impl<T: Entity> Pool<T> {
    /// The number of slots, fixed at construction.
    pub closed spec fn capacity(self) -> nat {
        self.pool@.len()
    }

    /// The stored payloads, one per slot.
    pub closed spec fn slots(self) -> Seq<T> {
        self.pool@
    }

    /// The free pointers, next-to-be-spawned last.
    pub closed spec fn free_list(self) -> Seq<Pointer> {
        self.free@
    }

    /// The active pointers, oldest spawn first.
    pub closed spec fn active_list(self) -> Seq<Pointer> {
        self.in_use@
    }

    /// Whether a pointer is currently active.
    pub open spec fn active(self, pointer: Pointer) -> bool {
        self.active_list().contains(pointer)
    }

    /// Whether a pointer is currently on the free list.
    pub open spec fn free_slot(self, pointer: Pointer) -> bool {
        self.free_list().contains(pointer)
    }

    /// The bookkeeping invariant: lengths add up to the capacity, both lists
    /// stay in bounds, neither holds a duplicate, and no pointer is in both.
    pub closed spec fn wf(self) -> bool {
        &&& self.free@.len() + self.in_use@.len() == self.pool@.len()
        &&& (forall|i: int| 0 <= i < self.free@.len() ==> (#[trigger] self.free@[i]) < self.pool@.len())
        &&& (forall|i: int|
            0 <= i < self.in_use@.len() ==> (#[trigger] self.in_use@[i]) < self.pool@.len())
        &&& (forall|i: int, j: int|
            #![trigger self.free@[i], self.free@[j]]
            0 <= i < j < self.free@.len() ==> self.free@[i] != self.free@[j])
        &&& (forall|i: int, j: int|
            #![trigger self.in_use@[i], self.in_use@[j]]
            0 <= i < j < self.in_use@.len() ==> self.in_use@[i] != self.in_use@[j])
        &&& (forall|i: int, j: int|
            #![trigger self.free@[i], self.in_use@[j]]
            0 <= i < self.free@.len() && 0 <= j < self.in_use@.len() ==> self.free@[i]
                != self.in_use@[j])
    }

    /// Creates a pool of `size` default-valued slots, all of them free.
    ///
    /// The free list is arranged so that pointers are handed out in
    /// ascending order, starting at slot 0.
    pub fn new(size: usize) -> (r: Self)
        ensures
            r.wf(),
            r.capacity() == size,
            r.active_list().len() == 0,
            r.free_list().len() == size,
            forall|i: int| 0 <= i < size ==> r.free_list()[i] == size - 1 - i,
            forall|i: int| 0 <= i < size ==> (#[trigger] r.slots()[i])@ == T::base_view(),
    {
        let mut pool: Vec<T> = Vec::new();
        let mut free: Vec<Pointer> = Vec::new();
        let in_use: Vec<Pointer> = Vec::new();
        let mut i: usize = 0;
        while i < size
            invariant
                i <= size,
                pool@.len() == i,
                free@.len() == i,
                forall|j: int| 0 <= j < i ==> free@[j] == size - 1 - j,
                forall|j: int| 0 <= j < i ==> (#[trigger] pool@[j])@ == T::base_view(),
            decreases size - i,
        {
            pool.push(T::base());
            free.push(size - 1 - i);
            i += 1;
        }
        Pool { pool, free, in_use }
    }

    /// Runs an action over every active slot, in spawn order, replacing each
    /// payload with the action's result. Inactive slots are untouched.
    pub fn edit_all<F: Fn(&T) -> T>(&mut self, action: F)
        requires
            old(self).wf(),
            forall|i: int|
                0 <= i < old(self).slots().len() ==> call_requires(action, (&old(self).slots()[i],)),
        ensures
            final(self).wf(),
            final(self).capacity() == old(self).capacity(),
            final(self).free_list() == old(self).free_list(),
            final(self).active_list() == old(self).active_list(),
            forall|k: int|
                0 <= k < old(self).active_list().len() ==> call_ensures(
                    action,
                    (&old(self).slots()[#[trigger] old(self).active_list()[k] as int],),
                    final(self).slots()[old(self).active_list()[k] as int],
                ),
            forall|p: int|
                0 <= p < old(self).slots().len() && !old(self).active(p as usize) ==> final(self).slots()[p] == old(self).slots()[p],
    {
        let ghost orig = *self;
        let mut k: usize = 0;
        while k < self.in_use.len()
            invariant
                self.wf(),
                orig.wf(),
                self.free@ == orig.free@,
                self.in_use@ == orig.in_use@,
                self.pool@.len() == orig.pool@.len(),
                k <= self.in_use@.len(),
                forall|i: int|
                    0 <= i < orig.slots().len() ==> call_requires(action, (&orig.slots()[i],)),
                forall|j: int|
                    0 <= j < k ==> call_ensures(
                        action,
                        (&orig.pool@[#[trigger] orig.in_use@[j] as int],),
                        self.pool@[orig.in_use@[j] as int],
                    ),
                forall|p: int|
                    0 <= p < orig.pool@.len() && (forall|j: int|
                        0 <= j < k ==> orig.in_use@[j] != p) ==> self.pool@[p] == orig.pool@[p],
            decreases self.in_use@.len() - k,
        {
            let p: usize = self.in_use[k];
            proof {
                // the slot about to be edited still holds its original value
                assert(forall|j: int| 0 <= j < k ==> orig.in_use@[j] != p as int);
                assert(self.pool@[p as int] == orig.pool@[p as int]);
                assert(call_requires(action, (&orig.slots()[p as int],)));
            }
            let updated = action(&self.pool[p]);
            self.pool[p] = updated;
            k += 1;
        }
        proof {
            assert(forall|p: int|
                0 <= p < orig.pool@.len() && !orig.active(p as usize) ==> self.pool@[p]
                    == orig.pool@[p]) by {
                assert forall|p: int|
                    0 <= p < orig.pool@.len() && !orig.active(p as usize) implies self.pool@[p]
                    == orig.pool@[p] by {
                    assert(forall|j: int|
                        0 <= j < orig.in_use@.len() ==> orig.in_use@[j] != p) by {
                        assert(forall|j: int|
                            0 <= j < orig.in_use@.len() ==> !(#[trigger] orig.in_use@[j] == p)
                                || orig.active_list().contains(orig.in_use@[j]));
                    }
                }
            }
        }
    }

    /// Runs an action on the slot a pointer refers to, active or not,
    /// replacing its payload with the action's result. A pointer beyond the
    /// capacity leaves the pool untouched.
    pub fn edit<F: Fn(&T) -> T>(&mut self, pointer: &Pointer, action: F)
        requires
            old(self).wf(),
            *pointer < old(self).capacity() ==> call_requires(
                action,
                (&old(self).slots()[*pointer as int],),
            ),
        ensures
            final(self).wf(),
            final(self).capacity() == old(self).capacity(),
            final(self).free_list() == old(self).free_list(),
            final(self).active_list() == old(self).active_list(),
            *pointer < old(self).capacity() ==> call_ensures(
                action,
                (&old(self).slots()[*pointer as int],),
                final(self).slots()[*pointer as int],
            ) && final(self).slots() == old(self).slots().update(
                *pointer as int,
                final(self).slots()[*pointer as int],
            ),
            *pointer >= old(self).capacity() ==> final(self).slots() == old(self).slots(),
    {
        if *pointer < self.pool.len() {
            let updated = action(&self.pool[*pointer]);
            self.pool[*pointer] = updated;
            proof {
                assert(self.slots() =~= old(self).slots().update(
                    *pointer as int,
                    self.slots()[*pointer as int],
                ));
            }
        }
    }

    /// Scans the whole pool, active or not, for the first slot whose payload
    /// satisfies the predicate.
    pub fn find<P: Fn(&T) -> bool>(&self, predicate: P) -> (r: Option<Pointer>)
        requires
            forall|i: int|
                0 <= i < self.slots().len() ==> call_requires(predicate, (&self.slots()[i],)),
        ensures
            match r {
                Some(p) => p < self.slots().len() && call_ensures(
                    predicate,
                    (&self.slots()[p as int],),
                    true,
                ) && forall|j: int|
                    0 <= j < p ==> call_ensures(predicate, (&self.slots()[j],), false),
                None => forall|j: int|
                    0 <= j < self.slots().len() ==> call_ensures(
                        predicate,
                        (&self.slots()[j],),
                        false,
                    ),
            },
    {
        let mut i: usize = 0;
        while i < self.pool.len()
            invariant
                i <= self.pool@.len(),
                forall|k: int|
                    0 <= k < self.slots().len() ==> call_requires(predicate, (&self.slots()[k],)),
                forall|j: int| 0 <= j < i ==> call_ensures(predicate, (&self.slots()[j],), false),
            decreases self.pool@.len() - i,
        {
            proof {
                assert(call_requires(predicate, (&self.slots()[i as int],)));
            }
            if predicate(&self.pool[i]) {
                return Some(i);
            }
            i += 1;
        }
        None
    }

    /// Activates one slot: pops a free pointer, pushes it onto the active
    /// list and resets the slot to the default payload. Fails with
    /// `Overflow`, changing nothing, exactly when no slot is free.
    pub fn spawn(&mut self) -> (r: Result<Pointer, PoolError>)
        requires
            old(self).wf(),
        ensures
            final(self).wf(),
            final(self).capacity() == old(self).capacity(),
            match r {
                Ok(p) => old(self).free_list().len() > 0 && p == old(self).free_list().last()
                    && final(self).free_list() == old(self).free_list().drop_last() && final(self).active_list() == old(self).active_list().push(p) && final(self).slots() == old(self).slots().update(p as int, final(self).slots()[p as int]) && final(self).slots()[p as int]@ == T::base_view(),
                Err(e) => e == PoolError::Overflow && old(self).free_list().len() == 0 && final(self).free_list() == old(self).free_list() && final(self).active_list() == old(self).active_list() && final(self).slots() == old(self).slots(),
            },
    {
        match self.free.pop() {
            Some(index) => {
                self.in_use.push(index);
                self.wipe(&index);
                proof {
                    assert(self.slots() =~= old(self).slots().update(
                        index as int,
                        self.slots()[index as int],
                    ));
                }
                Ok(index)
            },
            None => Err(PoolError::Overflow),
        }
    }

    /// Deactivates the slot a pointer refers to: removes the pointer from
    /// the active list and returns it to the free list. The payload is left
    /// in place. Destroying an inactive pointer changes nothing.
    pub fn destroy(&mut self, pointer: &Pointer)
        requires
            old(self).wf(),
        ensures
            final(self).wf(),
            final(self).capacity() == old(self).capacity(),
            final(self).slots() == old(self).slots(),
            old(self).active(*pointer) ==> exists|k: int|
                0 <= k < old(self).active_list().len() && old(self).active_list()[k] == *pointer
                    && final(self).active_list() == old(self).active_list().remove(k) && final(self).free_list() == old(self).free_list().push(*pointer),
            !old(self).active(*pointer) ==> final(self).free_list() == old(self).free_list()
                && final(self).active_list() == old(self).active_list(),
    {
        let mut i: usize = 0;
        while i < self.in_use.len()
            invariant
                self == old(self),
                old(self).wf(),
                i <= self.in_use@.len(),
                forall|j: int| 0 <= j < i ==> self.in_use@[j] != *pointer,
            decreases self.in_use@.len() - i,
        {
            if self.in_use[i] == *pointer {
                self.in_use.remove(i);
                self.free.push(*pointer);
                proof {
                    let before = old(self).in_use@;
                    before.remove_ensures(i as int);
                    assert(old(self).active_list()[i as int] == *pointer);
                    assert(self.in_use@ == before.remove(i as int));
                    // the removed pointer sat nowhere else in the active list
                    assert forall|a: int|
                        0 <= a < self.in_use@.len() implies self.in_use@[a] != *pointer by {
                        if a < i {
                            assert(self.in_use@[a] == before[a]);
                        } else {
                            assert(self.in_use@[a] == before[a + 1]);
                            assert(old(self).in_use@[i as int] != old(self).in_use@[a + 1]);
                        }
                    }
                    // nor anywhere on the old free list
                    assert forall|a: int|
                        0 <= a < old(self).free@.len() implies old(self).free@[a]
                        != *pointer by {
                        assert(old(self).free@[a] != old(self).in_use@[i as int]);
                    }
                    assert(old(self).active(*pointer));
                }
                return ;
            }
            i += 1;
        }
        proof {
            assert(!old(self).active(*pointer));
        }
    }

    /// Resets one slot to the default payload, active or not, without
    /// touching the free/active bookkeeping.
    pub fn wipe(&mut self, pointer: &Pointer)
        requires
            old(self).wf(),
            *pointer < old(self).capacity(),
        ensures
            final(self).wf(),
            final(self).capacity() == old(self).capacity(),
            final(self).free_list() == old(self).free_list(),
            final(self).active_list() == old(self).active_list(),
            final(self).slots() == old(self).slots().update(
                *pointer as int,
                final(self).slots()[*pointer as int],
            ),
            final(self).slots()[*pointer as int]@ == T::base_view(),
    {
        self.pool[*pointer] = T::base();
        proof {
            assert(self.slots() =~= old(self).slots().update(
                *pointer as int,
                self.slots()[*pointer as int],
            ));
        }
    }

    /// Whether the slot at the pointer's position is currently active.
    pub fn is_spawned(&self, pointer: &Pointer) -> (r: bool)
        ensures
            r == self.active(*pointer),
    {
        let mut i: usize = 0;
        while i < self.in_use.len()
            invariant
                i <= self.in_use@.len(),
                forall|j: int| 0 <= j < i ==> self.in_use@[j] != *pointer,
            decreases self.in_use@.len() - i,
        {
            if self.in_use[i] == *pointer {
                return true;
            }
            i += 1;
        }
        false
    }

    /// The maximum capacity of the pool.
    pub fn size(&self) -> (r: usize)
        ensures
            r == self.capacity(),
    {
        self.pool.len()
    }
}

/// Capacity invariant: however the pool got to a well-formed state, the free
/// and active lists always partition the capacity.
pub proof fn lemma_capacity_partition<T: Entity>(pool: Pool<T>)
    requires
        pool.wf(),
    ensures
        pool.free_list().len() + pool.active_list().len() == pool.capacity(),
{
}

/// Duplicate freedom: in a well-formed pool neither the free list nor the
/// active list names the same pointer twice.
pub proof fn lemma_duplicate_free<T: Entity>(pool: Pool<T>)
    requires
        pool.wf(),
    ensures
        forall|i: int, j: int|
            0 <= i < j < pool.free_list().len() ==> pool.free_list()[i] != pool.free_list()[j],
        forall|i: int, j: int|
            0 <= i < j < pool.active_list().len() ==> pool.active_list()[i]
                != pool.active_list()[j],
{
}

/// No double allocation: a well-formed pool never holds the same pointer on
/// the free list and the active list at once.
pub proof fn lemma_no_double_allocation<T: Entity>(pool: Pool<T>, pointer: Pointer)
    requires
        pool.wf(),
    ensures
        !(pool.free_slot(pointer) && pool.active(pointer)),
{
    if pool.free_slot(pointer) && pool.active(pointer) {
        let i = choose|i: int|
            0 <= i < pool.free_list().len() && pool.free_list()[i] == pointer;
        let j = choose|j: int|
            0 <= j < pool.active_list().len() && pool.active_list()[j] == pointer;
        assert(pool.free_list()[i] != pool.active_list()[j]);
    }
}

} // verus!
