//! A fixed-capacity entity pooling and per-tick dispatch engine: slot
//! allocation with group tagging, predicate-based queries over the active
//! entities, a deterministic system update loop, and a deferred cross-entity
//! event messenger.
//!
//! The update loop visits the registered systems in registration order. For
//! each system it takes a snapshot of the active handles, visits every
//! snapshot entry whose current payload satisfies the system's applicability
//! predicate, and only then flushes the events the system queued — so
//! systems never interleave entity-by-entity, and entities spawned or
//! destroyed mid-pass enter or leave only the next system's snapshot.

pub mod component;
pub mod entities;
pub mod events;
pub mod example;
pub mod pool;
pub mod scene;
pub mod spawns;
pub mod system;
pub mod types;

pub use crate::scene::{Scene, SceneError};
pub use crate::spawns::{Group, Name, Spawn};

pub use crate::types::{Component, Components, Entity, Factory, System};

use vstd::prelude::*;

use crate::events::{delivered_views, EventHook, Messenger};
use crate::scene::SceneView;
use crate::types::{Components as ComponentsTrait, Entity as EntityTrait, Factory as FactoryTrait,
    System as SystemTrait};

verus! {

/// One system's pass over a snapshot: each handle, in snapshot order, whose
/// payload at visiting time satisfies the system's predicate is visited by
/// the system's update, threading the system's state, the scene's
/// observable state and the event queue through the visits.
pub open spec fn system_pass<
    E: EntityTrait + ComponentsTrait,
    F: FactoryTrait<E>,
    S: SystemTrait<E, F>,
>(
    sys: S,
    scene: SceneView<<E as View>::V>,
    events: Seq<EventHook<<<E as ComponentsTrait>::Events as View>::V>>,
    snapshot: Seq<Spawn>,
) -> (S, SceneView<<E as View>::V>, Seq<EventHook<<<E as ComponentsTrait>::Events as View>::V>>)
    decreases snapshot.len(),
{
    if snapshot.len() == 0 {
        (sys, scene, events)
    } else {
        let handle = snapshot[0];
        let step = if sys.applies_view(scene.payloads[handle.pointer as int]) {
            sys.update_view(handle, scene, events)
        } else {
            (sys, scene, events)
        };
        system_pass::<E, F, S>(step.0, step.1, step.2, snapshot.drop_first())
    }
}

/// One system's whole step within a tick: a pass over the snapshot of the
/// active handles taken at its barrier, then delivery of the events the
/// pass queued.
pub open spec fn system_tick<
    E: EntityTrait + ComponentsTrait,
    F: FactoryTrait<E>,
    S: SystemTrait<E, F>,
>(sys: S, scene: SceneView<<E as View>::V>) -> (S, SceneView<<E as View>::V>) {
    let step = system_pass::<E, F, S>(sys, scene, Seq::empty(), scene.active);
    (
        step.0,
        SceneView {
            payloads: delivered_views::<E>(step.1.payloads, step.1.active, step.2),
            ..step.1
        },
    )
}

/// One whole tick from system position `k` on: every remaining system takes
/// its step, in registration order, each against the state the one before
/// it left behind.
pub open spec fn engine_tick<
    E: EntityTrait + ComponentsTrait,
    F: FactoryTrait<E>,
    S: SystemTrait<E, F>,
>(systems: Seq<S>, scene: SceneView<<E as View>::V>, k: int) -> (Seq<S>, SceneView<
    <E as View>::V,
>)
    decreases systems.len() - k,
{
    if k < 0 || k >= systems.len() {
        (systems, scene)
    } else {
        let step = system_tick::<E, F, S>(systems[k], scene);
        engine_tick::<E, F, S>(systems.update(k, step.0), step.1, k + 1)
    }
}

/// The assembled engine: a scene plus the systems that run over it once per
/// tick, in registration order.
pub struct Ecs<E: EntityTrait + ComponentsTrait, F: FactoryTrait<E>, S: SystemTrait<E, F>> {
    scene: Scene<E, F>,
    systems: Vec<S>,
}

impl<E: EntityTrait + ComponentsTrait, F: FactoryTrait<E>, S: SystemTrait<E, F>> Ecs<E, F, S> {
    /// The scene this engine drives.
    pub closed spec fn scene_state(self) -> Scene<E, F> {
        self.scene
    }

    /// The registered systems, in registration order.
    pub closed spec fn systems_list(self) -> Seq<S> {
        self.systems@
    }

    /// The engine is well formed when its scene is.
    pub open spec fn wf(self) -> bool {
        self.scene_state().wf()
    }

    /// Read access to the scene.
    pub fn scene(&self) -> (r: &Scene<E, F>)
        ensures
            *r == self.scene_state(),
    {
        &self.scene
    }

    /// Write access to the scene, for spawning and destroying between ticks.
    pub fn scene_mut(&mut self) -> (r: &mut Scene<E, F>)
        ensures
            *r == old(self).scene_state(),
            final(self).scene_state() == *final(r),
            final(self).systems_list() == old(self).systems_list(),
    {
        &mut self.scene
    }

    /// Runs one tick: for each system in registration order, snapshots the
    /// active handles, runs the system over every snapshot entry whose
    /// current payload satisfies its predicate, and then delivers the events
    /// the system queued, in queue order, before the next system runs.
    ///
    /// A tick preserves the scene's bookkeeping invariant, its capacity and
    /// its group count, whatever the systems do within their contracts.
    pub fn update(&mut self)
        requires
            old(self).wf(),
        ensures
            final(self).wf(),
            final(self).scene_state().capacity() == old(self).scene_state().capacity(),
            final(self).scene_state().num_groups() == old(self).scene_state().num_groups(),
            final(self).systems_list().len() == old(self).systems_list().len(),
            old(self).systems_list().len() == 0 ==> *final(self) == *old(self),
            ({
                let tick = engine_tick::<E, F, S>(
                    old(self).systems_list(),
                    old(self).scene_state().view_state(),
                    0,
                );
                final(self).systems_list() == tick.0 && final(self).scene_state().view_state()
                    == tick.1
            }),
    {
        let ghost cap = self.scene.capacity();
        let ghost ngroups = self.scene.num_groups();
        let ghost nsystems = self.systems@.len();
        let ghost orig_systems = self.systems@;
        let ghost orig_view = self.scene.view_state();
        let mut k: usize = 0;
        while k < self.systems.len()
            invariant
                self.scene.wf(),
                self.scene.capacity() == cap,
                self.scene.num_groups() == ngroups,
                self.systems@.len() == nsystems,
                k <= nsystems,
                k == 0 ==> *self == *old(self),
                engine_tick::<E, F, S>(orig_systems, orig_view, 0) == engine_tick::<E, F, S>(
                    self.systems@,
                    self.scene.view_state(),
                    k as int,
                ),
            decreases nsystems - k,
        {
            let ghost pass_systems = self.systems@;
            let ghost pass_sys = self.systems@[k as int];
            let ghost pass_view = self.scene.view_state();
            let mut sys = self.systems.remove(k);
            let mut events: Messenger<<E as ComponentsTrait>::Events> = Messenger::new();
            let snapshot = self.scene.list_spawned();
            proof {
                assert(snapshot@ == pass_view.active);
                assert(snapshot@.skip(0) =~= snapshot@);
            }
            let mut j: usize = 0;
            while j < snapshot.len()
                invariant
                    self.scene.wf(),
                    self.scene.capacity() == cap,
                    self.scene.num_groups() == ngroups,
                    self.systems@.len() + 1 == nsystems,
                    self.systems@ == pass_systems.remove(k as int),
                    k < nsystems,
                    j <= snapshot@.len(),
                    forall|t: int|
                        0 <= t < snapshot@.len() ==> (#[trigger] snapshot@[t]).pointer < cap,
                    system_pass::<E, F, S>(
                        sys,
                        self.scene.view_state(),
                        events.queue_view(),
                        snapshot@.skip(j as int),
                    ) == system_pass::<E, F, S>(
                        pass_sys,
                        pass_view,
                        Seq::empty(),
                        pass_view.active,
                    ),
                decreases snapshot@.len() - j,
            {
                let ghost step_sys = sys;
                let ghost step_view = self.scene.view_state();
                let ghost step_events = events.queue_view();
                proof {
                    assert(snapshot@.skip(j as int)[0] == snapshot@[j as int]);
                    assert(snapshot@.skip(j as int).drop_first() =~= snapshot@.skip(j as int + 1));
                }
                let handle = snapshot[j];
                proof {
                    assert(self.scene.payloads()[handle.pointer as int] == self.scene.slots()[handle.pointer as int]@);
                }
                let applicable = sys.requirements(self.scene.get_ref(&handle));
                if applicable {
                    sys.update(&handle, &mut self.scene, &mut events);
                }
                proof {
                    assert(system_pass::<E, F, S>(
                        sys,
                        self.scene.view_state(),
                        events.queue_view(),
                        snapshot@.skip(j as int + 1),
                    ) == system_pass::<E, F, S>(
                        step_sys,
                        step_view,
                        step_events,
                        snapshot@.skip(j as int),
                    ));
                }
                j += 1;
            }
            proof {
                assert(snapshot@.skip(j as int) =~= Seq::<Spawn>::empty());
            }
            let ghost pass_end_sys = sys;
            let ghost pass_end_view = self.scene.view_state();
            let ghost pass_end_events = events.queue_view();
            self.scene.deliver(&mut events);
            self.systems.insert(k, sys);
            proof {
                let pass = system_pass::<E, F, S>(
                    pass_sys,
                    pass_view,
                    Seq::empty(),
                    pass_view.active,
                );
                assert((pass_end_sys, pass_end_view, pass_end_events) == pass);
                let tick = system_tick::<E, F, S>(pass_sys, pass_view);
                assert(self.scene.view_state() =~= tick.1);
                let removed = pass_systems.remove(k as int);
                pass_systems.remove_ensures(k as int);
                removed.insert_ensures(k as int, pass_end_sys);
                assert forall|a: int| 0 <= a < nsystems implies self.systems@[a]
                    == pass_systems.update(k as int, pass_end_sys)[a] by {
                    if a < k as int {
                        assert(self.systems@[a] == removed[a]);
                    } else if a == k as int {
                        assert(self.systems@[a] == pass_end_sys);
                    } else {
                        assert(self.systems@[a] == removed[a - 1]);
                        assert(removed[a - 1] == pass_systems[a]);
                    }
                }
                assert(self.systems@ =~= pass_systems.update(k as int, pass_end_sys));
                assert(engine_tick::<E, F, S>(pass_systems, pass_view, k as int)
                    == engine_tick::<E, F, S>(self.systems@, self.scene.view_state(), k as int + 1));
            }
            k += 1;
        }
    }
}

/// Step-by-step construction of an engine: a capacity, then factories in
/// group order (registration order fixes the group ids), then systems in
/// the order they are to run.
pub struct EcsBuilder<F, S> {
    pool_size: usize,
    systems: Vec<S>,
    factories: Vec<F>,
}

impl<F, S> EcsBuilder<F, S> {
    /// The capacity the scene will be built with.
    pub closed spec fn size_spec(self) -> usize {
        self.pool_size
    }

    /// The factories registered so far, in group order.
    pub closed spec fn factories_list(self) -> Seq<F> {
        self.factories@
    }

    /// The systems registered so far, in run order.
    pub closed spec fn systems_list(self) -> Seq<S> {
        self.systems@
    }

    /// Starts a build with the given pool capacity.
    pub fn new(pool_size: usize) -> (r: Self)
        ensures
            r.size_spec() == pool_size,
            r.factories_list().len() == 0,
            r.systems_list().len() == 0,
    {
        EcsBuilder { pool_size, systems: Vec::new(), factories: Vec::new() }
    }

    /// Registers the factory for the next group id.
    pub fn add_factory(self, factory: F) -> (r: Self)
        ensures
            r.size_spec() == self.size_spec(),
            r.factories_list() == self.factories_list().push(factory),
            r.systems_list() == self.systems_list(),
    {
        let mut this = self;
        this.factories.push(factory);
        this
    }

    /// Registers the next system to run each tick.
    pub fn register_system(self, system: S) -> (r: Self)
        ensures
            r.size_spec() == self.size_spec(),
            r.factories_list() == self.factories_list(),
            r.systems_list() == self.systems_list().push(system),
    {
        let mut this = self;
        this.systems.push(system);
        this
    }

    /// Builds the engine: a fresh scene of the chosen capacity, all slots
    /// free, with one group per registered factory.
    pub fn build<E: EntityTrait + ComponentsTrait>(self) -> (r: Ecs<E, F, S>) where
        F: FactoryTrait<E>,
        S: SystemTrait<E, F>,

        ensures
            r.wf(),
            r.scene_state().capacity() == self.size_spec(),
            r.scene_state().num_groups() == self.factories_list().len(),
            r.scene_state().factory_list() == self.factories_list(),
            r.scene_state().active_list().len() == 0,
            r.scene_state().free_list().len() == self.size_spec(),
            forall|i: int|
                0 <= i < self.size_spec() ==> r.scene_state().free_list()[i] == self.size_spec()
                    - 1 - i,
            forall|i: int|
                0 <= i < self.size_spec() ==> (#[trigger] r.scene_state().slots()[i])@
                    == E::base_view(),
            r.systems_list() == self.systems_list(),
    {
        Ecs { scene: Scene::new(self.pool_size, self.factories), systems: self.systems }
    }
}

} // verus!
