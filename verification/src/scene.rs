//! The scene: fixed-capacity payload storage composed with per-group index
//! buckets and a factory registry, exposing the spawn/destroy/query surface.
//!
//! Bookkeeping model: `free` holds the pointers not currently spawned
//! (next-to-be-spawned last), `in_use` the handles of the active entities in
//! spawn order, `spawns` a handle table indexed by pointer, and `groups` one
//! pointer bucket per registered factory. The invariant `wf` ties them
//! together and is preserved by every operation.

use vstd::prelude::*;
use vstd::string::StringSliceAdditionalSpecFns;

use crate::spawns::{has_pointer, padded_name, Group, Name, Spawn};
use crate::events::{delivered_views, Messenger};
use crate::types::{Components, Entity, Factory};

verus! {

/// A reference to a slot in the scene's pool. A pointer can outlive the
/// spawn that produced it; `exists` tells whether it is currently active.
pub type Pointer = usize;

#[derive(Clone, Copy, Debug, PartialEq, Eq, Structural)]
pub enum SceneError {
    /// Spawned more items than the pool can hold.
    Overflow,
    /// Pointer not within the boundaries preset at construction.
    OutOfBounds,
    /// Group not within the boundaries preset at construction.
    GroupNotFound,
    /// The factory registered under this group does not claim it.
    FactoryNotFound,
}

/// Entity manager over a fixed pool of payload slots: spawning borrows a
/// slot and builds its payload through the group's factory; destroying
/// returns the slot, leaving stale payload data behind.
pub struct Scene<E, F> {
    factories: Vec<F>,
    pool: Vec<E>,
    spawns: Vec<Spawn>,
    free: Vec<Pointer>,
    in_use: Vec<Spawn>,
    groups: Vec<Vec<Pointer>>,
}

/// The observable state of a scene as one ghost record: the payload views,
/// the handle table, the free and active lists, and the per-group pointer
/// buckets. Contracts that fix a whole operation's effect speak of this.
#[verifier::ext_equal]
pub struct SceneView<V> {
    pub payloads: Seq<V>,
    pub handles: Seq<Spawn>,
    pub free: Seq<Pointer>,
    pub active: Seq<Spawn>,
    pub buckets: Seq<Seq<Pointer>>,
}

impl<E: Entity, F: Factory<E>> Scene<E, F> {
    /// The number of payload slots, fixed at construction.
    pub open spec fn capacity(self) -> nat {
        self.slots().len()
    }

    /// The number of registered groups, fixed at construction.
    pub open spec fn num_groups(self) -> nat {
        self.factory_list().len()
    }

    /// The registered factories, group id = position.
    pub closed spec fn factory_list(self) -> Seq<F> {
        self.factories@
    }

    /// The stored payloads, one per slot.
    pub closed spec fn slots(self) -> Seq<E> {
        self.pool@
    }

    /// The stored payloads, at the view level.
    pub open spec fn payloads(self) -> Seq<<E as View>::V> {
        self.slots().map_values(|e: E| e@)
    }

    /// The handle table: one handle per slot, current for active slots.
    pub closed spec fn handles(self) -> Seq<Spawn> {
        self.spawns@
    }

    /// The free pointers, next-to-be-spawned last.
    pub closed spec fn free_list(self) -> Seq<Pointer> {
        self.free@
    }

    /// The active handles, oldest spawn first.
    pub closed spec fn active_list(self) -> Seq<Spawn> {
        self.in_use@
    }

    /// The pointer buckets of all groups, group id = position.
    pub closed spec fn buckets(self) -> Seq<Seq<Pointer>> {
        self.groups@.map_values(|bucket: Vec<Pointer>| bucket@)
    }

    /// The pointer bucket of one group.
    pub open spec fn group_bucket(self, group: Group) -> Seq<Pointer> {
        self.buckets()[group as int]
    }

    /// Whether a pointer is currently active.
    pub open spec fn active(self, pointer: Pointer) -> bool {
        has_pointer(self.active_list(), pointer)
    }

    /// The observable state, gathered as one record.
    pub open spec fn view_state(self) -> SceneView<<E as View>::V> {
        SceneView {
            payloads: self.payloads(),
            handles: self.handles(),
            free: self.free_list(),
            active: self.active_list(),
            buckets: self.buckets(),
        }
    }

    /// The bookkeeping invariant.
    pub closed spec fn wf(self) -> bool {
        // the handle table covers every slot, and each entry knows its place
        &&& self.spawns@.len() == self.pool@.len()
        &&& (forall|p: int|
            0 <= p < self.spawns@.len() ==> (#[trigger] self.spawns@[p]).pointer == p)
        // one bucket per factory
        &&& self.groups@.len() == self.factories@.len()
        // free list: in bounds, no duplicates
        &&& (forall|i: int| 0 <= i < self.free@.len() ==> (#[trigger] self.free@[i]) < self.pool@.len())
        &&& (forall|i: int, j: int| 0 <= i < j < self.free@.len() ==> self.free@[i] != self.free@[j])
        // active list: handles agree with the table, stay in bounds, name a
        // registered group, and no pointer appears twice
        &&& (forall|i: int|
            0 <= i < self.in_use@.len() ==> (#[trigger] self.in_use@[i]).pointer
                < self.pool@.len())
        &&& (forall|i: int|
            0 <= i < self.in_use@.len() ==> (#[trigger] self.in_use@[i]).group
                < self.groups@.len())
        &&& (forall|i: int|
            0 <= i < self.in_use@.len() ==> (#[trigger] self.in_use@[i]) == self.spawns@[self.in_use@[i].pointer as int])
        &&& (forall|i: int, j: int|
            0 <= i < j < self.in_use@.len() ==> self.in_use@[i].pointer != self.in_use@[j].pointer)
        // free and active are disjoint and together fill the capacity
        &&& (forall|i: int, j: int|
            0 <= i < self.free@.len() && 0 <= j < self.in_use@.len() ==> self.free@[i]
                != self.in_use@[j].pointer)
        &&& self.free@.len() + self.in_use@.len() == self.pool@.len()
        // each bucket holds active pointers of its own group, without
        // duplicates, and every active pointer sits in its group's bucket
        &&& (forall|g: int, k: int|
            0 <= g < self.groups@.len() && 0 <= k < self.groups@[g]@.len() ==> (
            #[trigger] self.groups@[g]@[k]) < self.pool@.len())
        &&& (forall|g: int, k: int|
            0 <= g < self.groups@.len() && 0 <= k < self.groups@[g]@.len()
                ==> has_pointer(self.in_use@, self.groups@[g]@[k]))
        &&& (forall|g: int, k: int|
            0 <= g < self.groups@.len() && 0 <= k < self.groups@[g]@.len()
                ==> (#[trigger] self.spawns@[self.groups@[g]@[k] as int]).group == g)
        &&& (forall|g: int, k1: int, k2: int|
            0 <= g < self.groups@.len() && 0 <= k1 < k2 < self.groups@[g]@.len()
                ==> self.groups@[g]@[k1] != self.groups@[g]@[k2])
        &&& (forall|i: int|
            0 <= i < self.in_use@.len() ==> self.group_bucket(
                (#[trigger] self.in_use@[i]).group,
            ).contains(self.in_use@[i].pointer))
    }

    /// Creates a scene of `size` default-valued slots, all free, with one
    /// group bucket per factory. Pointers are handed out in ascending
    /// order, starting at slot 0.
    pub fn new(size: usize, factories: Vec<F>) -> (r: Self)
        ensures
            r.wf(),
            r.capacity() == size,
            r.num_groups() == factories@.len(),
            r.factory_list() == factories@,
            r.active_list().len() == 0,
            r.free_list().len() == size,
            forall|i: int| 0 <= i < size ==> r.free_list()[i] == size - 1 - i,
            forall|i: int| 0 <= i < size ==> (#[trigger] r.slots()[i])@ == E::base_view(),
            forall|g: Group|
                g < factories@.len() ==> (#[trigger] r.group_bucket(g)).len() == 0,
    {
        let mut pool: Vec<E> = Vec::new();
        let mut spawns: Vec<Spawn> = Vec::new();
        let mut free: Vec<Pointer> = Vec::new();
        let in_use: Vec<Spawn> = Vec::new();
        let mut groups: Vec<Vec<Pointer>> = Vec::new();

        let mut i: usize = 0;
        while i < size
            invariant
                i <= size,
                pool@.len() == i,
                spawns@.len() == i,
                free@.len() == i,
                forall|j: int| 0 <= j < i ==> free@[j] == size - 1 - j,
                forall|j: int| 0 <= j < i ==> (#[trigger] pool@[j])@ == E::base_view(),
                forall|j: int| 0 <= j < i ==> (#[trigger] spawns@[j]).pointer == j,
            decreases size - i,
        {
            pool.push(E::base());
            let mut handle = Spawn::default();
            handle.pointer = i;
            spawns.push(handle);
            free.push(size - 1 - i);
            i += 1;
        }

        let mut g: usize = 0;
        while g < factories.len()
            invariant
                g <= factories@.len(),
                groups@.len() == g,
                forall|j: int| 0 <= j < g ==> (#[trigger] groups@[j])@.len() == 0,
            decreases factories@.len() - g,
        {
            groups.push(Vec::new());
            g += 1;
        }

        Scene { factories, pool, spawns, free, in_use, groups }
    }

    /// Whether every registered factory claims the group id its position
    /// assigns it. A complete registry never surfaces `FactoryNotFound`
    /// from `spawn`; checking here catches the configuration error at
    /// construction time instead.
    pub fn registry_complete(&self) -> (r: bool)
        ensures
            r == (forall|g: int|
                0 <= g < self.factory_list().len() ==> (#[trigger] self.factory_list()[g]).group_view() == g),
    {
        let mut g: usize = 0;
        while g < self.factories.len()
            invariant
                g <= self.factories@.len(),
                forall|j: int| 0 <= j < g ==> (#[trigger] self.factories@[j]).group_view() == j,
            decreases self.factories@.len() - g,
        {
            if self.factories[g].group() != g {
                proof {
                    assert(self.factory_list()[g as int].group_view() != g);
                }
                return false;
            }
            g += 1;
        }
        true
    }

    /// A read-only borrow of the factory registered for a group.
    pub fn get_factory(&self, group: &Group) -> (r: &F)
        requires
            self.wf(),
            *group < self.num_groups(),
        ensures
            *r == self.factory_list()[*group as int],
    {
        &self.factories[*group]
    }

    /// A mutable borrow of the factory registered for a group.
    pub fn mut_factory(&mut self, group: &Group) -> (r: &mut F)
        requires
            old(self).wf(),
            *group < old(self).num_groups(),
        ensures
            *r == old(self).factory_list()[*group as int],
            final(self).factory_list() == old(self).factory_list().update(
                *group as int,
                *final(r),
            ),
            final(self).wf(),
            final(self).capacity() == old(self).capacity(),
            final(self).num_groups() == old(self).num_groups(),
            final(self).slots() == old(self).slots(),
            final(self).free_list() == old(self).free_list(),
            final(self).active_list() == old(self).active_list(),
            final(self).handles() == old(self).handles(),
            final(self).buckets() == old(self).buckets(),
            forall|g: Group|
                g < old(self).num_groups() ==> (#[trigger] final(self).group_bucket(g)) == old(
                    self,
                ).group_bucket(g),
    {
        &mut self.factories[*group]
    }

    /// A snapshot copy of the currently active handles, in spawn order.
    /// Later spawns and destroys do not touch a returned snapshot.
    pub fn list_spawned(&self) -> (r: Vec<Spawn>)
        ensures
            r@ == self.active_list(),
            self.wf() ==> forall|t: int|
                0 <= t < r@.len() ==> (#[trigger] r@[t]).pointer < self.capacity(),
    {
        let mut out: Vec<Spawn> = Vec::new();
        let mut i: usize = 0;
        while i < self.in_use.len()
            invariant
                i <= self.in_use@.len(),
                out@ == self.in_use@.subrange(0, i as int),
            decreases self.in_use@.len() - i,
        {
            out.push(self.in_use[i]);
            i += 1;
        }
        proof {
            assert(out@ =~= self.active_list());
        }
        out
    }

    /// A read-only borrow of the payload a handle points at, whether or not
    /// the handle is still active.
    pub fn get_ref(&self, spawn: &Spawn) -> (r: &E)
        requires
            spawn.pointer < self.capacity(),
        ensures
            *r == self.slots()[spawn.pointer as int],
    {
        &self.pool[spawn.pointer]
    }

    /// An exclusive borrow of the payload a handle points at. Rust's borrow
    /// discipline enforces at most one exclusive borrow at a time.
    pub fn get_mut(&mut self, spawn: &Spawn) -> (r: &mut E)
        requires
            old(self).wf(),
            spawn.pointer < old(self).capacity(),
        ensures
            *r == old(self).slots()[spawn.pointer as int],
            final(self).slots() == old(self).slots().update(spawn.pointer as int, *final(r)),
            final(self).wf(),
            final(self).capacity() == old(self).capacity(),
            final(self).num_groups() == old(self).num_groups(),
            final(self).free_list() == old(self).free_list(),
            final(self).active_list() == old(self).active_list(),
            final(self).handles() == old(self).handles(),
            final(self).factory_list() == old(self).factory_list(),
            final(self).buckets() == old(self).buckets(),
            forall|g: Group|
                g < old(self).num_groups() ==> (#[trigger] final(self).group_bucket(g)) == old(
                    self,
                ).group_bucket(g),
    {
        &mut self.pool[spawn.pointer]
    }

    /// Overwrites the payload at a pointer position, active or not, without
    /// touching any bookkeeping. A pointer beyond the capacity leaves the
    /// scene untouched.
    pub fn override_field(&mut self, pointer: &Pointer, value: E)
        requires
            old(self).wf(),
        ensures
            final(self).wf(),
            final(self).capacity() == old(self).capacity(),
            final(self).num_groups() == old(self).num_groups(),
            final(self).factory_list() == old(self).factory_list(),
            final(self).free_list() == old(self).free_list(),
            final(self).active_list() == old(self).active_list(),
            final(self).handles() == old(self).handles(),
            final(self).buckets() == old(self).buckets(),
            forall|g: Group|
                g < old(self).num_groups() ==> (#[trigger] final(self).group_bucket(g)) == old(
                    self,
                ).group_bucket(g),
            *pointer < old(self).capacity() ==> final(self).slots() == old(self).slots().update(
                *pointer as int,
                value,
            ),
            *pointer >= old(self).capacity() ==> final(self).slots() == old(self).slots(),
    {
        if *pointer < self.pool.len() {
            self.pool[*pointer] = value;
        }
    }

    /// Clones the payload at a pointer position, active or not; fails with
    /// `OutOfBounds` exactly when the pointer exceeds the capacity.
    pub fn clone_spawn(&self, pointer: &Pointer) -> (r: Result<E, SceneError>)
        ensures
            match r {
                Ok(e) => *pointer < self.capacity() && e@ == self.payloads()[*pointer as int],
                Err(e) => e == SceneError::OutOfBounds && *pointer >= self.capacity(),
            },
    {
        if *pointer >= self.pool.len() {
            Err(SceneError::OutOfBounds)
        } else {
            Ok(self.pool[*pointer].duplicate())
        }
    }

    /// Resets one slot to the default payload, active or not, without
    /// touching any bookkeeping.
    pub fn wipe(&mut self, pointer: &Pointer)
        requires
            old(self).wf(),
            *pointer < old(self).capacity(),
        ensures
            final(self).wf(),
            final(self).capacity() == old(self).capacity(),
            final(self).num_groups() == old(self).num_groups(),
            final(self).free_list() == old(self).free_list(),
            final(self).active_list() == old(self).active_list(),
            final(self).handles() == old(self).handles(),
            final(self).factory_list() == old(self).factory_list(),
            final(self).buckets() == old(self).buckets(),
            forall|g: Group|
                g < old(self).num_groups() ==> (#[trigger] final(self).group_bucket(g)) == old(
                    self,
                ).group_bucket(g),
            final(self).slots() == old(self).slots().update(
                *pointer as int,
                final(self).slots()[*pointer as int],
            ),
            final(self).slots()[*pointer as int]@ == E::base_view(),
    {
        self.pool[*pointer] = E::base();
        proof {
            assert(self.slots() =~= old(self).slots().update(
                *pointer as int,
                self.slots()[*pointer as int],
            ));
        }
    }

    /// Whether the entity a handle refers to is currently active.
    pub fn is_spawned(&self, spawn: &Spawn) -> (r: bool)
        ensures
            r == self.active(spawn.pointer),
    {
        let mut i: usize = 0;
        while i < self.in_use.len()
            invariant
                i <= self.in_use@.len(),
                forall|j: int| 0 <= j < i ==> self.in_use@[j].pointer != spawn.pointer,
            decreases self.in_use@.len() - i,
        {
            if self.in_use[i].pointer == spawn.pointer {
                return true;
            }
            i += 1;
        }
        false
    }

    /// Whether the entity a handle refers to is active within one group's
    /// bucket. An out-of-range group reads as "not found".
    pub fn exists_in_group(&self, spawn: &Spawn, group: Group) -> (r: bool)
        requires
            self.wf(),
        ensures
            r == (group < self.num_groups() && self.group_bucket(group).contains(spawn.pointer)),
            r ==> self.active(spawn.pointer) && self.handles()[spawn.pointer as int].group
                == group,
    {
        if group >= self.groups.len() {
            return false;
        }
        let bucket_len = self.groups[group].len();
        let mut k: usize = 0;
        while k < bucket_len
            invariant
                self.wf(),
                group < self.groups@.len(),
                bucket_len == self.groups@[group as int]@.len(),
                k <= bucket_len,
                forall|j: int| 0 <= j < k ==> self.groups@[group as int]@[j] != spawn.pointer,
            decreases bucket_len - k,
        {
            if self.groups[group][k] == spawn.pointer {
                return true;
            }
            k += 1;
        }
        false
    }

    /// The maximum capacity of the pool.
    pub fn size(&self) -> (r: usize)
        ensures
            r == self.capacity(),
    {
        self.pool.len()
    }

    /// Whether a pointer position currently holds an active entity.
    pub fn active_at(&self, pointer: &Pointer) -> (r: bool)
        ensures
            r == self.active(*pointer),
    {
        let mut i: usize = 0;
        while i < self.in_use.len()
            invariant
                i <= self.in_use@.len(),
                forall|j: int| 0 <= j < i ==> self.in_use@[j].pointer != *pointer,
            decreases self.in_use@.len() - i,
        {
            if self.in_use[i].pointer == *pointer {
                return true;
            }
            i += 1;
        }
        false
    }

    /// Finds the first active entity, in spawn order, whose stored name
    /// equals the given name once truncated and zero-padded.
    pub fn find_spawn(&self, name: &str) -> (r: Option<Spawn>)
        ensures
            match r {
                Some(s) => exists|i: int|
                    0 <= i < self.active_list().len() && self.active_list()[i] == s && s.name@
                        == padded_name(name.spec_bytes()) && (forall|j: int|
                        0 <= j < i ==> (#[trigger] self.active_list()[j]).name@ != padded_name(
                            name.spec_bytes(),
                        )),
                None => forall|i: int|
                    0 <= i < self.active_list().len() ==> (#[trigger] self.active_list()[i]).name@
                        != padded_name(name.spec_bytes()),
            },
    {
        let wanted = Name::from_str(name);
        let mut i: usize = 0;
        while i < self.in_use.len()
            invariant
                i <= self.in_use@.len(),
                wanted@ == padded_name(name.spec_bytes()),
                forall|j: int|
                    0 <= j < i ==> (#[trigger] self.in_use@[j]).name@ != padded_name(
                        name.spec_bytes(),
                    ),
            decreases self.in_use@.len() - i,
        {
            if self.in_use[i].name.same(&wanted) {
                proof {
                    assert(self.active_list()[i as int] == self.in_use@[i as int]
                        && self.in_use@[i as int].name@ == padded_name(name.spec_bytes()));
                }
                return Some(self.in_use[i]);
            }
            i += 1;
        }
        None
    }

    /// Finds the first active entity of one group, in bucket order, whose
    /// stored name equals the given name once truncated and zero-padded.
    /// An out-of-range group reads as "not found".
    pub fn find_spawn_in_group(&self, name: &str, group: Group) -> (r: Option<Spawn>)
        requires
            self.wf(),
        ensures
            match r {
                Some(s) => group < self.num_groups() && s.group == group && self.active(s.pointer)
                    && s == self.handles()[s.pointer as int] && s.name@ == padded_name(
                    name.spec_bytes(),
                ) && exists|k: int|
                    0 <= k < self.group_bucket(group).len() && self.group_bucket(group)[k]
                        == s.pointer && (forall|j: int|
                        0 <= j < k ==> (#[trigger] self.handles()[self.group_bucket(group)[j] as int]).name@ != padded_name(name.spec_bytes())),
                None => group >= self.num_groups() || forall|k: int|
                    0 <= k < self.group_bucket(group).len() ==> (#[trigger] self.handles()[self.group_bucket(group)[k] as int]).name@ != padded_name(name.spec_bytes()),
            },
    {
        if group >= self.groups.len() {
            return None;
        }
        let wanted = Name::from_str(name);
        let bucket_len = self.groups[group].len();
        let mut k: usize = 0;
        while k < bucket_len
            invariant
                self.wf(),
                group < self.groups@.len(),
                bucket_len == self.groups@[group as int]@.len(),
                k <= bucket_len,
                wanted@ == padded_name(name.spec_bytes()),
                forall|j: int|
                    0 <= j < k ==> (#[trigger] self.spawns@[self.groups@[group as int]@[j] as int]).name@ != padded_name(name.spec_bytes()),
            decreases bucket_len - k,
        {
            let pointer = self.groups[group][k];
            if self.spawns[pointer].name.same(&wanted) {
                return Some(self.spawns[pointer]);
            }
            k += 1;
        }
        None
    }

    /// Finds the first active entity, in spawn order, whose payload
    /// satisfies the predicate.
    pub fn search_components<P: Fn(&E) -> bool>(&self, predicate: P) -> (r: Option<Spawn>)
        requires
            self.wf(),
            forall|p: int|
                0 <= p < self.slots().len() ==> call_requires(predicate, (&self.slots()[p],)),
        ensures
            match r {
                Some(s) => self.active(s.pointer) && exists|i: int|
                    0 <= i < self.active_list().len() && self.active_list()[i] == s
                        && call_ensures(
                        predicate,
                        (&self.slots()[s.pointer as int],),
                        true,
                    ) && (forall|j: int|
                        0 <= j < i ==> call_ensures(
                            predicate,
                            (&self.slots()[(#[trigger] self.active_list()[j]).pointer as int],),
                            false,
                        )),
                None => forall|i: int|
                    0 <= i < self.active_list().len() ==> call_ensures(
                        predicate,
                        (&self.slots()[(#[trigger] self.active_list()[i]).pointer as int],),
                        false,
                    ),
            },
    {
        let mut i: usize = 0;
        while i < self.in_use.len()
            invariant
                self.wf(),
                i <= self.in_use@.len(),
                forall|p: int|
                    0 <= p < self.slots().len() ==> call_requires(predicate, (&self.slots()[p],)),
                forall|j: int|
                    0 <= j < i ==> call_ensures(
                        predicate,
                        (&self.slots()[(#[trigger] self.in_use@[j]).pointer as int],),
                        false,
                    ),
            decreases self.in_use@.len() - i,
        {
            let s = self.in_use[i];
            proof {
                assert(call_requires(predicate, (&self.slots()[s.pointer as int],)));
            }
            if predicate(&self.pool[s.pointer]) {
                proof {
                    assert(self.active_list()[i as int] == s && call_ensures(
                        predicate,
                        (&self.slots()[s.pointer as int],),
                        true,
                    ));
                }
                return Some(s);
            }
            i += 1;
        }
        None
    }

    /// Finds the first active entity of one group, in bucket order, whose
    /// payload satisfies the predicate. An out-of-range group reads as "not
    /// found". A returned handle always carries the group searched.
    pub fn search_components_in_group<P: Fn(&E) -> bool>(&self, group: Group, predicate: P) -> (r:
        Option<Spawn>)
        requires
            self.wf(),
            forall|p: int|
                0 <= p < self.slots().len() ==> call_requires(predicate, (&self.slots()[p],)),
        ensures
            match r {
                Some(s) => group < self.num_groups() && s.group == group && self.active(s.pointer)
                    && s == self.handles()[s.pointer as int] && exists|k: int|
                    0 <= k < self.group_bucket(group).len() && self.group_bucket(group)[k]
                        == s.pointer && call_ensures(
                        predicate,
                        (&self.slots()[s.pointer as int],),
                        true,
                    ) && (forall|j: int|
                        0 <= j < k ==> call_ensures(
                            predicate,
                            (&self.slots()[(#[trigger] self.group_bucket(group)[j]) as int],),
                            false,
                        )),
                None => group >= self.num_groups() || forall|k: int|
                    0 <= k < self.group_bucket(group).len() ==> call_ensures(
                        predicate,
                        (&self.slots()[(#[trigger] self.group_bucket(group)[k]) as int],),
                        false,
                    ),
            },
    {
        if group >= self.groups.len() {
            return None;
        }
        let bucket_len = self.groups[group].len();
        let mut k: usize = 0;
        while k < bucket_len
            invariant
                self.wf(),
                group < self.groups@.len(),
                bucket_len == self.groups@[group as int]@.len(),
                k <= bucket_len,
                forall|p: int|
                    0 <= p < self.slots().len() ==> call_requires(predicate, (&self.slots()[p],)),
                forall|j: int|
                    0 <= j < k ==> call_ensures(
                        predicate,
                        (&self.slots()[(#[trigger] self.groups@[group as int]@[j]) as int],),
                        false,
                    ),
            decreases bucket_len - k,
        {
            let pointer = self.groups[group][k];
            proof {
                assert(call_requires(predicate, (&self.slots()[pointer as int],)));
            }
            if predicate(&self.pool[pointer]) {
                return Some(self.spawns[pointer]);
            }
            k += 1;
        }
        None
    }

    /// Finds the first active entity of one group, in bucket order, whose
    /// payload satisfies the predicate, returning its pointer. An
    /// out-of-range group reads as "not found".
    pub fn find_in_group<P: Fn(&E) -> bool>(&self, group: Group, predicate: P) -> (r: Option<
        Pointer,
    >)
        requires
            self.wf(),
            forall|p: int|
                0 <= p < self.slots().len() ==> call_requires(predicate, (&self.slots()[p],)),
        ensures
            match r {
                Some(p) => group < self.num_groups() && self.active(p) && self.handles()[p as int].group == group
                    && call_ensures(predicate, (&self.slots()[p as int],), true),
                None => group >= self.num_groups() || forall|k: int|
                    0 <= k < self.group_bucket(group).len() ==> call_ensures(
                        predicate,
                        (&self.slots()[(#[trigger] self.group_bucket(group)[k]) as int],),
                        false,
                    ),
            },
    {
        match self.search_components_in_group(group, predicate) {
            Some(s) => Some(s.pointer),
            None => None,
        }
    }

    /// Tests whether every active payload satisfies the predicate.
    pub fn test_all<P: Fn(&E) -> bool>(&self, predicate: P) -> (r: bool)
        requires
            self.wf(),
            forall|p: int|
                0 <= p < self.slots().len() ==> call_requires(predicate, (&self.slots()[p],)),
        ensures
            r ==> forall|i: int|
                0 <= i < self.active_list().len() ==> call_ensures(
                    predicate,
                    (&self.slots()[(#[trigger] self.active_list()[i]).pointer as int],),
                    true,
                ),
            !r ==> exists|i: int|
                0 <= i < self.active_list().len() && call_ensures(
                    predicate,
                    (&self.slots()[(#[trigger] self.active_list()[i]).pointer as int],),
                    false,
                ),
    {
        let mut i: usize = 0;
        while i < self.in_use.len()
            invariant
                self.wf(),
                i <= self.in_use@.len(),
                forall|p: int|
                    0 <= p < self.slots().len() ==> call_requires(predicate, (&self.slots()[p],)),
                forall|j: int|
                    0 <= j < i ==> call_ensures(
                        predicate,
                        (&self.slots()[(#[trigger] self.in_use@[j]).pointer as int],),
                        true,
                    ),
            decreases self.in_use@.len() - i,
        {
            let s = self.in_use[i];
            proof {
                assert(call_requires(predicate, (&self.slots()[s.pointer as int],)));
            }
            if !predicate(&self.pool[s.pointer]) {
                proof {
                    assert(call_ensures(
                        predicate,
                        (&self.slots()[(self.active_list()[i as int]).pointer as int],),
                        false,
                    ));
                }
                return false;
            }
            i += 1;
        }
        true
    }

    /// Tests whether some active payload satisfies the predicate.
    pub fn sample<P: Fn(&E) -> bool>(&self, predicate: P) -> (r: bool)
        requires
            self.wf(),
            forall|p: int|
                0 <= p < self.slots().len() ==> call_requires(predicate, (&self.slots()[p],)),
        ensures
            r ==> exists|i: int|
                0 <= i < self.active_list().len() && call_ensures(
                    predicate,
                    (&self.slots()[(#[trigger] self.active_list()[i]).pointer as int],),
                    true,
                ),
            !r ==> forall|i: int|
                0 <= i < self.active_list().len() ==> call_ensures(
                    predicate,
                    (&self.slots()[(#[trigger] self.active_list()[i]).pointer as int],),
                    false,
                ),
    {
        let mut i: usize = 0;
        while i < self.in_use.len()
            invariant
                self.wf(),
                i <= self.in_use@.len(),
                forall|p: int|
                    0 <= p < self.slots().len() ==> call_requires(predicate, (&self.slots()[p],)),
                forall|j: int|
                    0 <= j < i ==> call_ensures(
                        predicate,
                        (&self.slots()[(#[trigger] self.in_use@[j]).pointer as int],),
                        false,
                    ),
            decreases self.in_use@.len() - i,
        {
            let s = self.in_use[i];
            proof {
                assert(call_requires(predicate, (&self.slots()[s.pointer as int],)));
            }
            if predicate(&self.pool[s.pointer]) {
                proof {
                    assert(call_ensures(
                        predicate,
                        (&self.slots()[(self.active_list()[i as int]).pointer as int],),
                        true,
                    ));
                }
                return true;
            }
            i += 1;
        }
        false
    }

    /// Tests whether some active payload fails the predicate.
    pub fn sample_false<P: Fn(&E) -> bool>(&self, predicate: P) -> (r: bool)
        requires
            self.wf(),
            forall|p: int|
                0 <= p < self.slots().len() ==> call_requires(predicate, (&self.slots()[p],)),
        ensures
            r ==> exists|i: int|
                0 <= i < self.active_list().len() && call_ensures(
                    predicate,
                    (&self.slots()[(#[trigger] self.active_list()[i]).pointer as int],),
                    false,
                ),
            !r ==> forall|i: int|
                0 <= i < self.active_list().len() ==> call_ensures(
                    predicate,
                    (&self.slots()[(#[trigger] self.active_list()[i]).pointer as int],),
                    true,
                ),
    {
        let mut i: usize = 0;
        while i < self.in_use.len()
            invariant
                self.wf(),
                i <= self.in_use@.len(),
                forall|p: int|
                    0 <= p < self.slots().len() ==> call_requires(predicate, (&self.slots()[p],)),
                forall|j: int|
                    0 <= j < i ==> call_ensures(
                        predicate,
                        (&self.slots()[(#[trigger] self.in_use@[j]).pointer as int],),
                        true,
                    ),
            decreases self.in_use@.len() - i,
        {
            let s = self.in_use[i];
            proof {
                assert(call_requires(predicate, (&self.slots()[s.pointer as int],)));
            }
            if !predicate(&self.pool[s.pointer]) {
                proof {
                    assert(call_ensures(
                        predicate,
                        (&self.slots()[(self.active_list()[i as int]).pointer as int],),
                        false,
                    ));
                }
                return true;
            }
            i += 1;
        }
        false
    }

    /// A copied list of the active payloads, in spawn order.
    pub fn into_object_list(&self) -> (r: Vec<E>)
        requires
            self.wf(),
        ensures
            r@.len() == self.active_list().len(),
            forall|k: int|
                0 <= k < r@.len() ==> (#[trigger] r@[k])@ == self.payloads()[self.active_list()[k].pointer as int],
    {
        let mut clones: Vec<E> = Vec::new();
        let mut i: usize = 0;
        while i < self.in_use.len()
            invariant
                self.wf(),
                i <= self.in_use@.len(),
                clones@.len() == i,
                forall|k: int|
                    0 <= k < i ==> (#[trigger] clones@[k])@ == self.payloads()[self.in_use@[k].pointer as int],
            decreases self.in_use@.len() - i,
        {
            let s = self.in_use[i];
            clones.push(self.pool[s.pointer].duplicate());
            i += 1;
        }
        clones
    }

    /// Compares a fixed reference entity against every active entity, in
    /// spawn order, returning the first whose pair satisfies the predicate.
    pub fn compare_against<P: Fn(&E, &E) -> bool>(&self, against: Spawn, on_compare: P) -> (r:
        Option<Spawn>)
        requires
            self.wf(),
            against.pointer < self.capacity(),
            forall|p: int, q: int|
                0 <= p < self.slots().len() && 0 <= q < self.slots().len() ==> call_requires(
                    on_compare,
                    (&self.slots()[p], &self.slots()[q]),
                ),
        ensures
            match r {
                Some(s) => self.active(s.pointer) && exists|i: int|
                    0 <= i < self.active_list().len() && self.active_list()[i] == s
                        && call_ensures(
                        on_compare,
                        (&self.slots()[against.pointer as int], &self.slots()[s.pointer as int]),
                        true,
                    ) && (forall|j: int|
                        0 <= j < i ==> call_ensures(
                            on_compare,
                            (
                                &self.slots()[against.pointer as int],
                                &self.slots()[(#[trigger] self.active_list()[j]).pointer as int],
                            ),
                            false,
                        )),
                None => forall|i: int|
                    0 <= i < self.active_list().len() ==> call_ensures(
                        on_compare,
                        (
                            &self.slots()[against.pointer as int],
                            &self.slots()[(#[trigger] self.active_list()[i]).pointer as int],
                        ),
                        false,
                    ),
            },
    {
        let mut i: usize = 0;
        while i < self.in_use.len()
            invariant
                self.wf(),
                against.pointer < self.capacity(),
                i <= self.in_use@.len(),
                forall|p: int, q: int|
                    0 <= p < self.slots().len() && 0 <= q < self.slots().len() ==> call_requires(
                        on_compare,
                        (&self.slots()[p], &self.slots()[q]),
                    ),
                forall|j: int|
                    0 <= j < i ==> call_ensures(
                        on_compare,
                        (
                            &self.slots()[against.pointer as int],
                            &self.slots()[(#[trigger] self.in_use@[j]).pointer as int],
                        ),
                        false,
                    ),
            decreases self.in_use@.len() - i,
        {
            let s = self.in_use[i];
            proof {
                assert(call_requires(
                    on_compare,
                    (&self.slots()[against.pointer as int], &self.slots()[s.pointer as int]),
                ));
            }
            if on_compare(&self.pool[against.pointer], &self.pool[s.pointer]) {
                return Some(s);
            }
            i += 1;
        }
        None
    }

    /// Compares every ordered pair of distinct active entities, in spawn
    /// order, returning the first pair that satisfies the predicate.
    /// Self-pairs are never compared, so a returned pair never holds the
    /// same entity twice.
    pub fn compare_all<P: Fn(&E, &E) -> bool>(&self, on_compare: P) -> (r: Option<(Spawn, Spawn)>)
        requires
            self.wf(),
            forall|p: int, q: int|
                0 <= p < self.slots().len() && 0 <= q < self.slots().len() ==> call_requires(
                    on_compare,
                    (&self.slots()[p], &self.slots()[q]),
                ),
        ensures
            match r {
                Some(pair) => pair.0.pointer != pair.1.pointer && self.active(pair.0.pointer)
                    && self.active(pair.1.pointer) && call_ensures(
                    on_compare,
                    (
                        &self.slots()[pair.0.pointer as int],
                        &self.slots()[pair.1.pointer as int],
                    ),
                    true,
                ) && exists|i: int, j: int|
                    0 <= i < self.active_list().len() && 0 <= j < self.active_list().len() && i
                        != j && self.active_list()[i] == pair.0 && self.active_list()[j] == pair.1
                        && (forall|a: int, b: int|
                        0 <= a < self.active_list().len() && 0 <= b < self.active_list().len()
                            && a != b && (a < i || (a == i && b < j)) ==> call_ensures(
                            on_compare,
                            (
                                &self.slots()[(#[trigger] self.active_list()[a]).pointer as int],
                                &self.slots()[(#[trigger] self.active_list()[b]).pointer as int],
                            ),
                            false,
                        )),
                None => forall|i: int, j: int|
                    0 <= i < self.active_list().len() && 0 <= j < self.active_list().len() && i != j
                        ==> call_ensures(
                        on_compare,
                        (
                            &self.slots()[(#[trigger] self.active_list()[i]).pointer as int],
                            &self.slots()[(#[trigger] self.active_list()[j]).pointer as int],
                        ),
                        false,
                    ),
            },
    {
        let mut i: usize = 0;
        while i < self.in_use.len()
            invariant
                self.wf(),
                i <= self.in_use@.len(),
                forall|p: int, q: int|
                    0 <= p < self.slots().len() && 0 <= q < self.slots().len() ==> call_requires(
                        on_compare,
                        (&self.slots()[p], &self.slots()[q]),
                    ),
                forall|a: int, b: int|
                    0 <= a < i && 0 <= b < self.in_use@.len() && a != b ==> call_ensures(
                        on_compare,
                        (
                            &self.slots()[(#[trigger] self.in_use@[a]).pointer as int],
                            &self.slots()[(#[trigger] self.in_use@[b]).pointer as int],
                        ),
                        false,
                    ),
            decreases self.in_use@.len() - i,
        {
            let a = self.in_use[i];
            let mut j: usize = 0;
            while j < self.in_use.len()
                invariant
                    self.wf(),
                    i < self.in_use@.len(),
                    a == self.in_use@[i as int],
                    j <= self.in_use@.len(),
                    forall|p: int, q: int|
                        0 <= p < self.slots().len() && 0 <= q < self.slots().len()
                            ==> call_requires(on_compare, (&self.slots()[p], &self.slots()[q])),
                    forall|x: int, y: int|
                        0 <= x < i && 0 <= y < self.in_use@.len() && x != y ==> call_ensures(
                            on_compare,
                            (
                                &self.slots()[(#[trigger] self.in_use@[x]).pointer as int],
                                &self.slots()[(#[trigger] self.in_use@[y]).pointer as int],
                            ),
                            false,
                        ),
                    forall|b: int|
                        0 <= b < j && b != i ==> call_ensures(
                            on_compare,
                            (
                                &self.slots()[self.in_use@[i as int].pointer as int],
                                &self.slots()[(#[trigger] self.in_use@[b]).pointer as int],
                            ),
                            false,
                        ),
                decreases self.in_use@.len() - j,
            {
                if i != j {
                    let b = self.in_use[j];
                    proof {
                        assert(call_requires(
                            on_compare,
                            (&self.slots()[a.pointer as int], &self.slots()[b.pointer as int]),
                        ));
                    }
                    if on_compare(&self.pool[a.pointer], &self.pool[b.pointer]) {
                        proof {
                            assert(a.pointer != b.pointer);
                            assert(self.active_list()[i as int] == a && self.active_list()[j as int]
                                == b);
                            assert forall|x: int, y: int|
                                0 <= x < self.active_list().len() && 0 <= y
                                    < self.active_list().len() && x != y && (x < i as int || (x
                                    == i as int && y < j as int)) implies call_ensures(
                                on_compare,
                                (
                                    &self.slots()[(self.active_list()[x]).pointer as int],
                                    &self.slots()[(self.active_list()[y]).pointer as int],
                                ),
                                false,
                            ) by {
                                if x < i as int {
                                    assert(call_ensures(
                                        on_compare,
                                        (
                                            &self.slots()[self.in_use@[x].pointer as int],
                                            &self.slots()[self.in_use@[y].pointer as int],
                                        ),
                                        false,
                                    ));
                                } else {
                                    assert(call_ensures(
                                        on_compare,
                                        (
                                            &self.slots()[self.in_use@[i as int].pointer as int],
                                            &self.slots()[self.in_use@[y].pointer as int],
                                        ),
                                        false,
                                    ));
                                }
                            }
                        }
                        return Some((a, b));
                    }
                }
                j += 1;
            }
            i += 1;
        }
        None
    }

    /// Whether one scene state equals another in everything an operation
    /// could have touched: payloads, handle table, bookkeeping and buckets.
    pub open spec fn unchanged_from(self, other: Self) -> bool {
        &&& self.capacity() == other.capacity()
        &&& self.num_groups() == other.num_groups()
        &&& self.factory_list() == other.factory_list()
        &&& self.slots() == other.slots()
        &&& self.handles() == other.handles()
        &&& self.free_list() == other.free_list()
        &&& self.active_list() == other.active_list()
        &&& (forall|g: Group|
            g < other.num_groups() ==> (#[trigger] self.group_bucket(g)) == other.group_bucket(g))
    }

    /// Spawns a new entity: validates the group, takes the next free
    /// pointer, builds the payload through the group's factory, and registers
    /// the handle in the active list and the group's bucket.
    ///
    /// Errors, each if and only if its condition holds, checked in this
    /// order: `GroupNotFound` for a group beyond the registered range,
    /// `FactoryNotFound` when the factory registered at that position does
    /// not claim the group, `Overflow` when no slot is free. A failed spawn
    /// changes nothing.
    pub fn spawn(&mut self, name: &str, group: &Group) -> (r: Result<Spawn, SceneError>)
        requires
            old(self).wf(),
        ensures
            final(self).wf(),
            final(self).capacity() == old(self).capacity(),
            final(self).num_groups() == old(self).num_groups(),
            final(self).factory_list() == old(self).factory_list(),
            match r {
                Ok(s) => {
                    &&& *group < old(self).num_groups()
                    &&& old(self).factory_list()[*group as int].group_view() == *group
                    &&& old(self).free_list().len() > 0
                    &&& s.pointer == old(self).free_list().last()
                    &&& s.group == *group
                    &&& s.name@ == padded_name(name.spec_bytes())
                    &&& final(self).free_list() == old(self).free_list().drop_last()
                    &&& final(self).active_list() == old(self).active_list().push(s)
                    &&& final(self).handles() == old(self).handles().update(s.pointer as int, s)
                    &&& final(self).group_bucket(*group) == old(self).group_bucket(
                        *group,
                    ).push(s.pointer)
                    &&& (forall|g: Group|
                        g < old(self).num_groups() && g != *group ==> (
                        #[trigger] final(self).group_bucket(g)) == old(self).group_bucket(g))
                    &&& final(self).slots() == old(self).slots().update(
                        s.pointer as int,
                        final(self).slots()[s.pointer as int],
                    )
                    &&& final(self).slots()[s.pointer as int]@ == old(self).factory_list()[*group as int].build_view(s)
                },
                Err(e) => final(self).unchanged_from(*old(self)) && match e {
                    SceneError::GroupNotFound => *group >= old(self).num_groups(),
                    SceneError::FactoryNotFound => *group < old(self).num_groups() && old(
                        self,
                    ).factory_list()[*group as int].group_view() != *group,
                    SceneError::Overflow => *group < old(self).num_groups() && old(
                        self,
                    ).factory_list()[*group as int].group_view() == *group && old(
                        self,
                    ).free_list().len() == 0,
                    SceneError::OutOfBounds => false,
                },
            },
    {
        if *group >= self.groups.len() {
            return Err(SceneError::GroupNotFound);
        }
        if self.factories[*group].group() != *group {
            return Err(SceneError::FactoryNotFound);
        }
        match self.free.pop() {
            Some(pointer) => {
                let handle = Spawn { pointer, group: *group, name: Name::from_str(name) };
                self.spawns[pointer] = handle;
                self.in_use.push(handle);
                let bucket = &mut self.groups[*group];
                bucket.push(pointer);
                let built = self.factories[*group].build(&handle);
                self.pool[pointer] = built;
                proof {
                    lemma_spawn_preserves_wf(*old(self), *self, handle);
                    assert(self.slots() =~= old(self).slots().update(
                        pointer as int,
                        self.slots()[pointer as int],
                    ));
                }
                Ok(handle)
            },
            None => Err(SceneError::Overflow),
        }
    }

    /// Destroys the entity a handle refers to: removes its pointer from the
    /// active list and from its group's bucket (the group as recorded in the
    /// handle table, not as claimed by the caller), and returns the pointer
    /// to the free list. The payload is left in place. Destroying an
    /// inactive handle changes nothing.
    pub fn destroy(&mut self, spawn: &Spawn)
        requires
            old(self).wf(),
        ensures
            final(self).wf(),
            final(self).capacity() == old(self).capacity(),
            final(self).num_groups() == old(self).num_groups(),
            final(self).factory_list() == old(self).factory_list(),
            final(self).slots() == old(self).slots(),
            final(self).handles() == old(self).handles(),
            old(self).active(spawn.pointer) ==> {
                let stored = old(self).handles()[spawn.pointer as int];
                &&& final(self).free_list() == old(self).free_list().push(spawn.pointer)
                &&& (exists|i: int|
                    0 <= i < old(self).active_list().len() && old(self).active_list()[i].pointer
                        == spawn.pointer && final(self).active_list() == old(
                        self,
                    ).active_list().remove(i))
                &&& (exists|k: int|
                    0 <= k < old(self).group_bucket(stored.group).len() && old(self).group_bucket(
                        stored.group,
                    )[k] == spawn.pointer && final(self).group_bucket(stored.group) == old(
                        self,
                    ).group_bucket(stored.group).remove(k))
                &&& (forall|g: Group|
                    g < old(self).num_groups() && g != stored.group ==> (
                    #[trigger] final(self).group_bucket(g)) == old(self).group_bucket(g))
            },
            !old(self).active(spawn.pointer) ==> final(self).unchanged_from(*old(self)),
    {
        let mut i: usize = 0;
        while i < self.in_use.len()
            invariant
                self == old(self),
                old(self).wf(),
                i <= self.in_use@.len(),
                forall|j: int| 0 <= j < i ==> self.in_use@[j].pointer != spawn.pointer,
            decreases self.in_use@.len() - i,
        {
            if self.in_use[i].pointer == spawn.pointer {
                let stored: Spawn = self.in_use[i];
                proof {
                    assert(stored == self.spawns@[stored.pointer as int]);
                    assert(self.group_bucket(stored.group).contains(stored.pointer));
                }
                // find the pointer in its group's bucket; the invariant
                // guarantees it is there
                let mut k: usize = 0;
                let bucket_len: usize = self.groups[stored.group].len();
                let ghost bucket_view = self.groups@[stored.group as int]@;
                while self.groups[stored.group][k] != stored.pointer
                    invariant
                        self == old(self),
                        old(self).wf(),
                        stored.group < self.groups@.len(),
                        stored.pointer == spawn.pointer,
                        bucket_view == self.groups@[stored.group as int]@,
                        bucket_len == bucket_view.len(),
                        k < bucket_len,
                        forall|j: int| 0 <= j < k ==> bucket_view[j] != stored.pointer,
                        exists|j: int|
                            k <= j < bucket_view.len() && bucket_view[j] == stored.pointer,
                    decreases bucket_view.len() - k,
                {
                    k += 1;
                    proof {
                        let j = choose|j: int|
                            k - 1 <= j < bucket_view.len() && bucket_view[j] == stored.pointer;
                        assert(k <= j < bucket_view.len() && bucket_view[j] == stored.pointer);
                    }
                }
                let bucket = &mut self.groups[stored.group];
                bucket.remove(k);
                self.in_use.remove(i);
                self.free.push(spawn.pointer);
                proof {
                    lemma_destroy_preserves_wf(*old(self), *self, stored, i as int, k as int);
                    assert(stored == old(self).handles()[spawn.pointer as int]);
                    assert(old(self).active_list()[i as int].pointer == spawn.pointer
                        && self.active_list() == old(self).active_list().remove(i as int));
                    assert(old(self).group_bucket(stored.group)[k as int] == spawn.pointer
                        && self.group_bucket(stored.group) == old(self).group_bucket(
                        stored.group,
                    ).remove(k as int));
                    assert forall|g2: Group|
                        g2 < old(self).num_groups() && g2 != stored.group implies (
                    #[trigger] self.group_bucket(g2)) == old(self).group_bucket(g2) by {
                        assert(self.groups@[g2 as int] == old(self).groups@[g2 as int]);
                    }
                }
                return ;
            }
            i += 1;
        }
        proof {
            assert(!old(self).active(spawn.pointer));
        }
    }
}

impl<E: Entity + Components, F: Factory<E>> Scene<E, F> {
    /// Flushes a messenger: delivers every queued hook in queue order, each
    /// to its receiver's payload with exclusive access to that slot, then
    /// clears the queue. A hook whose receiver is no longer active is
    /// silently dropped. Bookkeeping is never touched.
    pub fn deliver(&mut self, events: &mut Messenger<<E as Components>::Events>)
        requires
            old(self).wf(),
        ensures
            final(self).wf(),
            final(self).capacity() == old(self).capacity(),
            final(self).num_groups() == old(self).num_groups(),
            final(self).factory_list() == old(self).factory_list(),
            final(self).free_list() == old(self).free_list(),
            final(self).active_list() == old(self).active_list(),
            final(self).handles() == old(self).handles(),
            final(self).buckets() == old(self).buckets(),
            final(self).payloads() == delivered_views::<E>(
                old(self).payloads(),
                old(self).active_list(),
                old(events).queue_view(),
            ),
            final(self).view_state() == (SceneView {
                payloads: delivered_views::<E>(
                    old(self).payloads(),
                    old(self).active_list(),
                    old(events).queue_view(),
                ),
                ..old(self).view_state()
            }),
            final(events).queue().len() == 0,
            final(events).queue_view().len() == 0,
    {
        while events.len() > 0
            invariant
                self.wf(),
                self.capacity() == old(self).capacity(),
                self.num_groups() == old(self).num_groups(),
                self.factory_list() == old(self).factory_list(),
                self.free_list() == old(self).free_list(),
                self.active_list() == old(self).active_list(),
                self.handles() == old(self).handles(),
                self.buckets() == old(self).buckets(),
                delivered_views::<E>(self.payloads(), self.active_list(), events.queue_view())
                    == delivered_views::<E>(
                    old(self).payloads(),
                    old(self).active_list(),
                    old(events).queue_view(),
                ),
            decreases events.queue().len(),
        {
            let ghost pre = *self;
            let ghost pre_queue = events.queue_view();
            match events.take_first() {
                Some(hook) => {
                    let ghost h = hook@;
                    if self.active_at(&hook.receiver) {
                        proof {
                            let w = choose|w: int|
                                0 <= w < self.in_use@.len() && self.in_use@[w].pointer
                                    == h.receiver;
                            assert(self.in_use@[w].pointer < self.pool@.len());
                        }
                        let payload = &mut self.pool[hook.receiver];
                        payload.event_handler(hook.event, hook.sender);
                        proof {
                            assert(self.payloads() =~= pre.payloads().update(
                                h.receiver as int,
                                E::handle_view(
                                    pre.payloads()[h.receiver as int],
                                    h.event,
                                    h.sender,
                                ),
                            ));
                            assert(pre_queue[0] == h);
                            assert(delivered_views::<E>(pre.payloads(), pre.active_list(), pre_queue)
                                == delivered_views::<E>(
                                self.payloads(),
                                self.active_list(),
                                events.queue_view(),
                            ));
                        }
                    } else {
                        proof {
                            assert(pre_queue[0] == h);
                            assert(!has_pointer(pre.active_list(), h.receiver));
                            assert(delivered_views::<E>(pre.payloads(), pre.active_list(), pre_queue)
                                == delivered_views::<E>(
                                self.payloads(),
                                self.active_list(),
                                events.queue_view(),
                            ));
                        }
                    }
                    proof {
                        assert(self.groups@ == pre.groups@);
                    }
                },
                None => {
                    proof {
                        assert(false);
                    }
                },
            }
        }
    }
}

/// Capacity invariant: in a well-formed scene the free and active lists
/// always partition the capacity.
pub proof fn lemma_scene_capacity_partition<E: Entity, F: Factory<E>>(scene: Scene<E, F>)
    requires
        scene.wf(),
    ensures
        scene.free_list().len() + scene.active_list().len() == scene.capacity(),
{
}

/// No double allocation: a well-formed scene never holds the same pointer
/// on the free list and in the active list at once.
pub proof fn lemma_scene_no_double_allocation<E: Entity, F: Factory<E>>(
    scene: Scene<E, F>,
    pointer: Pointer,
)
    requires
        scene.wf(),
    ensures
        !(scene.free_list().contains(pointer) && scene.active(pointer)),
{
    if scene.free_list().contains(pointer) && scene.active(pointer) {
        let i = choose|i: int|
            0 <= i < scene.free_list().len() && scene.free_list()[i] == pointer;
        let j = choose|j: int|
            0 <= j < scene.active_list().len() && scene.active_list()[j].pointer == pointer;
        assert(scene.free_list()[i] != scene.active_list()[j].pointer);
    }
}

/// Bounds: in a well-formed scene every active handle's pointer names a
/// real slot, and its stored handle is the handle itself.
pub proof fn lemma_active_in_bounds<E: Entity, F: Factory<E>>(scene: Scene<E, F>)
    requires
        scene.wf(),
    ensures
        forall|i: int|
            0 <= i < scene.active_list().len() ==> (#[trigger] scene.active_list()[i]).pointer
                < scene.capacity(),
        forall|i: int|
            0 <= i < scene.active_list().len() ==> (#[trigger] scene.active_list()[i])
                == scene.handles()[scene.active_list()[i].pointer as int],
{
}

/// Duplicate freedom: in a well-formed scene neither the free list nor the
/// active list names the same pointer twice.
pub proof fn lemma_scene_duplicate_free<E: Entity, F: Factory<E>>(scene: Scene<E, F>)
    requires
        scene.wf(),
    ensures
        forall|i: int, j: int|
            0 <= i < j < scene.free_list().len() ==> scene.free_list()[i] != scene.free_list()[j],
        forall|i: int, j: int|
            0 <= i < j < scene.active_list().len() ==> scene.active_list()[i].pointer
                != scene.active_list()[j].pointer,
{
}

/// Group scoping: in a well-formed scene every pointer in a group's bucket
/// belongs to an active entity whose stored handle carries that same group.
pub proof fn lemma_group_scoping<E: Entity, F: Factory<E>>(
    scene: Scene<E, F>,
    group: Group,
    k: int,
)
    requires
        scene.wf(),
        group < scene.num_groups(),
        0 <= k < scene.group_bucket(group).len(),
    ensures
        scene.active(scene.group_bucket(group)[k]),
        scene.handles()[scene.group_bucket(group)[k] as int].group == group,
{
}

/// Scene spawn keeps the bookkeeping invariant: the post-state of a
/// successful spawn, as constructed in `Scene::spawn`, is well formed.
proof fn lemma_spawn_preserves_wf<E: Entity, F: Factory<E>>(
    pre: Scene<E, F>,
    post: Scene<E, F>,
    s: Spawn,
)
    requires
        pre.wf(),
        pre.free@.len() > 0,
        s.pointer == pre.free@.last(),
        s.group < pre.groups@.len(),
        post.spawns@ == pre.spawns@.update(s.pointer as int, s),
        post.in_use@ == pre.in_use@.push(s),
        post.free@ == pre.free@.drop_last(),
        post.groups@ == pre.groups@.update(
            s.group as int,
            post.groups@[s.group as int],
        ),
        post.groups@[s.group as int]@ == pre.groups@[s.group as int]@.push(s.pointer),
        post.pool@.len() == pre.pool@.len(),
        post.factories@.len() == pre.factories@.len(),
    ensures
        post.wf(),
{
    let p = s.pointer;
    let g = s.group;
    // the pointer came off the free list, so it was in bounds and inactive
    assert(pre.free@[pre.free@.len() - 1] == p);
    assert(p < pre.pool@.len());
    assert(forall|j: int|
        0 <= j < pre.in_use@.len() ==> (#[trigger] pre.in_use@[j]).pointer != p) by {
        assert(forall|j: int|
            0 <= j < pre.in_use@.len() ==> pre.free@[pre.free@.len() - 1] != (
            #[trigger] pre.in_use@[j]).pointer);
    }
    // and it sat nowhere else on the free list either
    assert(forall|i: int|
        0 <= i < post.free@.len() ==> (#[trigger] post.free@[i]) == pre.free@[i]);
    assert(forall|i: int| 0 <= i < post.free@.len() ==> (#[trigger] post.free@[i]) != p) by {
        assert(forall|i: int|
            0 <= i < pre.free@.len() - 1 ==> (#[trigger] pre.free@[i]) != pre.free@[pre.free@.len()
                - 1]);
    }
    // it was in no bucket: bucket members are active
    assert(forall|g2: int, k: int|
        0 <= g2 < pre.groups@.len() && 0 <= k < pre.groups@[g2]@.len() ==> (
        #[trigger] pre.groups@[g2]@[k]) != p) by {
        assert forall|g2: int, k: int|
            0 <= g2 < pre.groups@.len() && 0 <= k < pre.groups@[g2]@.len() implies (
        #[trigger] pre.groups@[g2]@[k]) != p by {
            assert(has_pointer(pre.in_use@, pre.groups@[g2]@[k]));
            if pre.groups@[g2]@[k] == p {
                let j = choose|j: int|
                    0 <= j < pre.in_use@.len() && pre.in_use@[j].pointer == p;
                assert(false);
            }
        }
    }
    // handle table: only slot p changed, and it now holds s
    assert(forall|q: int|
        0 <= q < post.spawns@.len() && q != p ==> (#[trigger] post.spawns@[q]) == pre.spawns@[q]);
    assert(post.spawns@[p as int] == s);
    // active handles still match the table
    assert(forall|i: int|
        0 <= i < post.in_use@.len() ==> (#[trigger] post.in_use@[i]) == post.spawns@[post.in_use@[i].pointer as int]);
    // buckets: membership in the grown active list is preserved
    assert(forall|q: Pointer|
        has_pointer(pre.in_use@, q) ==> #[trigger] has_pointer(post.in_use@, q)) by {
        assert forall|q: Pointer|
            has_pointer(pre.in_use@, q) implies #[trigger] has_pointer(post.in_use@, q) by {
            let j = choose|j: int|
                0 <= j < pre.in_use@.len() && pre.in_use@[j].pointer == q;
            assert(post.in_use@[j].pointer == q);
        }
    }
    assert(has_pointer(post.in_use@, p)) by {
        assert(post.in_use@[post.in_use@.len() - 1].pointer == p);
    }
    // unchanged buckets keep their members; the grown bucket gains p at the end
    assert(forall|g2: int|
        0 <= g2 < post.groups@.len() && g2 != g ==> (#[trigger] post.groups@[g2]) == pre.groups@[g2]);
    assert(forall|k: int|
        0 <= k < pre.groups@[g as int]@.len() ==> (#[trigger] post.groups@[g as int]@[k])
            == pre.groups@[g as int]@[k]);
    assert(post.groups@[g as int]@[pre.groups@[g as int]@.len() as int] == p);
    // every active handle still finds its pointer in its group's bucket
    assert forall|i: int| 0 <= i < post.in_use@.len() implies post.group_bucket(
        (#[trigger] post.in_use@[i]).group,
    ).contains(post.in_use@[i].pointer) by {
        if i < pre.in_use@.len() {
            let q = pre.in_use@[i];
            assert(pre.group_bucket(q.group).contains(q.pointer));
            let k = choose|k: int|
                0 <= k < pre.group_bucket(q.group).len() && pre.group_bucket(q.group)[k]
                    == q.pointer;
            assert(post.group_bucket(q.group)[k] == q.pointer);
        } else {
            assert(post.group_bucket(g)[pre.groups@[g as int]@.len() as int] == p);
        }
    }
}

/// Scene destroy keeps the bookkeeping invariant: the post-state of a
/// successful destroy, as constructed in `Scene::destroy`, is well formed.
proof fn lemma_destroy_preserves_wf<E: Entity, F: Factory<E>>(
    pre: Scene<E, F>,
    post: Scene<E, F>,
    stored: Spawn,
    i: int,
    k: int,
)
    requires
        pre.wf(),
        0 <= i < pre.in_use@.len(),
        pre.in_use@[i] == stored,
        0 <= k < pre.groups@[stored.group as int]@.len(),
        pre.groups@[stored.group as int]@[k] == stored.pointer,
        post.spawns@ == pre.spawns@,
        post.pool@ == pre.pool@,
        post.factories@.len() == pre.factories@.len(),
        post.in_use@ == pre.in_use@.remove(i),
        post.free@ == pre.free@.push(stored.pointer),
        post.groups@ == pre.groups@.update(
            stored.group as int,
            post.groups@[stored.group as int],
        ),
        post.groups@[stored.group as int]@ == pre.groups@[stored.group as int]@.remove(k),
    ensures
        post.wf(),
{
    let p = stored.pointer;
    let g = stored.group;
    pre.in_use@.remove_ensures(i);
    pre.groups@[g as int]@.remove_ensures(k);
    assert(g < pre.groups@.len());
    assert(p < pre.pool@.len());
    // the destroyed pointer occurs nowhere in the shrunk active list
    assert forall|a: int|
        0 <= a < post.in_use@.len() implies (#[trigger] post.in_use@[a]).pointer != p by {
        if a < i {
            assert(post.in_use@[a] == pre.in_use@[a]);
            assert(pre.in_use@[a].pointer != pre.in_use@[i].pointer);
        } else {
            assert(post.in_use@[a] == pre.in_use@[a + 1]);
            assert(pre.in_use@[i].pointer != pre.in_use@[a + 1].pointer);
        }
    }
    // nor on the old free list
    assert forall|a: int|
        0 <= a < pre.free@.len() implies (#[trigger] pre.free@[a]) != p by {
        assert(pre.free@[a] != pre.in_use@[i].pointer);
    }
    // nor in the shrunk bucket, which dropped its only occurrence
    assert forall|a: int|
        0 <= a < post.groups@[g as int]@.len() implies (#[trigger] post.groups@[g as int]@[a])
        != p by {
        if a < k {
            assert(post.groups@[g as int]@[a] == pre.groups@[g as int]@[a]);
            assert(pre.groups@[g as int]@[a] != pre.groups@[g as int]@[k]);
        } else {
            assert(post.groups@[g as int]@[a] == pre.groups@[g as int]@[a + 1]);
            assert(pre.groups@[g as int]@[k] != pre.groups@[g as int]@[a + 1]);
        }
    }
    // nor in any other bucket, whose members keep their other groups
    assert(forall|g2: int|
        0 <= g2 < post.groups@.len() && g2 != g ==> (#[trigger] post.groups@[g2]) == pre.groups@[g2]);
    assert forall|g2: int, a: int|
        0 <= g2 < post.groups@.len() && 0 <= a < post.groups@[g2]@.len() && g2 != g implies (
    #[trigger] post.groups@[g2]@[a]) != p by {
        assert(pre.spawns@[pre.groups@[g2]@[a] as int].group == g2);
        assert(pre.spawns@[p as int].group == g);
    }
    // membership in the shrunk active list: everything but p carries over
    assert forall|q: Pointer|
        has_pointer(pre.in_use@, q) && q != p implies #[trigger] has_pointer(
        post.in_use@,
        q,
    ) by {
        let j = choose|j: int| 0 <= j < pre.in_use@.len() && pre.in_use@[j].pointer == q;
        if j < i {
            assert(post.in_use@[j].pointer == q);
        } else {
            assert(j != i);
            assert(post.in_use@[j - 1].pointer == q);
        }
    }
    // bucket members besides p stay active
    assert forall|g2: int, a: int|
        0 <= g2 < post.groups@.len() && 0 <= a < post.groups@[g2]@.len() implies has_pointer(
        post.in_use@,
        #[trigger] post.groups@[g2]@[a],
    ) by {
        let q = post.groups@[g2]@[a];
        if g2 != g {
            assert(has_pointer(pre.in_use@, q));
        } else {
            if a < k {
                assert(q == pre.groups@[g as int]@[a]);
            } else {
                assert(q == pre.groups@[g as int]@[a + 1]);
            }
            assert(has_pointer(pre.in_use@, q));
        }
        assert(q != p);
    }
    // every remaining active handle still finds its pointer in its bucket
    assert forall|a: int| 0 <= a < post.in_use@.len() implies post.group_bucket(
        (#[trigger] post.in_use@[a]).group,
    ).contains(post.in_use@[a].pointer) by {
        let q = post.in_use@[a];
        assert(has_pointer(post.in_use@, q.pointer)) by {
            assert(post.in_use@[a].pointer == q.pointer);
        }
        assert(pre.group_bucket(q.group).contains(q.pointer)) by {
            if a < i {
                assert(q == pre.in_use@[a]);
            } else {
                assert(q == pre.in_use@[a + 1]);
            }
        }
        let b = choose|b: int|
            0 <= b < pre.group_bucket(q.group).len() && pre.group_bucket(q.group)[b] == q.pointer;
        if q.group != g {
            assert(post.group_bucket(q.group)[b] == q.pointer);
        } else {
            assert(q.pointer != p);
            assert(b != k);
            if b < k {
                assert(post.group_bucket(q.group)[b] == q.pointer);
            } else {
                assert(post.group_bucket(q.group)[b - 1] == q.pointer);
            }
        }
    }
}

} // verus!
