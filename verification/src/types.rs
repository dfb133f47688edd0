//! The capability traits the engine is built around: payloads (`Entity`),
//! per-group constructors (`Factory`), per-tick behaviours (`System`),
//! payload parts (`Component`) and event handling (`Components`).

use vstd::prelude::*;

use crate::events::{EventHook, Messenger};
use crate::scene::{Scene, SceneView};
use crate::spawns::{Group, Spawn};

verus! {

/// A payload type the pool can hold.
///
/// Every slot starts out holding the base value, and `wipe` resets a slot to
/// it. `base_view` names that value at the level of the payload's view, so
/// the pool can promise exactly what a fresh or wiped slot holds.
pub trait Entity: View + Sized {
    /// The view of the default payload.
    spec fn base_view() -> <Self as View>::V;

    /// Builds the default payload.
    fn base() -> (r: Self)
        ensures
            r@ == Self::base_view(),
    ;

    /// Copies a payload without touching the original.
    fn duplicate(&self) -> (r: Self)
        ensures
            r@ == self@,
    ;
}

/// A per-group entity constructor.
///
/// Building a payload is a pure function of the handle being (re)activated:
/// `build_view` names the result, and `build` must return exactly it.
pub trait Factory<E: Entity>: Sized {
    /// The group this factory constructs for.
    spec fn group_view(&self) -> Group;

    /// The view of the payload built for a handle.
    spec fn build_view(&self, spawn: Spawn) -> <E as View>::V;

    /// The group this factory constructs for.
    fn group(&self) -> (g: Group)
        ensures
            g == self.group_view(),
    ;

    /// Constructs the payload for a freshly spawned handle.
    fn build(&self, spawn: &Spawn) -> (r: E)
        ensures
            r@ == self.build_view(*spawn),
    ;
}

/// A per-tick behaviour unit: an applicability predicate over a payload and
/// an update operation given a handle and scene access.
///
/// An update may rearrange the scene however it likes within its named
/// effect: `update_view` fixes, as a pure function of the visited handle
/// and the states before the call, the system's new state, the scene's new
/// observable state, and the event queue it leaves behind. It must also
/// keep the scene well formed and must not change its capacity or its
/// group count: that is what lets the dispatch loop keep running after it.
pub trait System<E: Entity + Components, F: Factory<E>>: Sized {
    /// Which payloads this system applies to.
    spec fn applies_view(&self, target: <E as View>::V) -> bool;

    /// What one update call does: the system's state, the scene's
    /// observable state and the event queue after the call, as a function
    /// of the handle visited and the states before it.
    spec fn update_view(
        &self,
        spawn: Spawn,
        scene: SceneView<<E as View>::V>,
        events: Seq<EventHook<<<E as Components>::Events as View>::V>>,
    ) -> (Self, SceneView<<E as View>::V>, Seq<
        EventHook<<<E as Components>::Events as View>::V>,
    >);

    /// Tests whether the system applies to one payload.
    fn requirements(&self, target: &E) -> (r: bool)
        ensures
            r == self.applies_view(target@),
    ;

    /// Updates one entity, with read/write access to the whole scene and a
    /// messenger for deferred cross-entity events.
    fn update(&mut self, spawn: &Spawn, scene: &mut Scene<E, F>, events: &mut Messenger<
        <E as Components>::Events,
    >)
        requires
            old(scene).wf(),
            spawn.pointer < old(scene).capacity(),
        ensures
            final(scene).wf(),
            final(scene).capacity() == old(scene).capacity(),
            final(scene).num_groups() == old(scene).num_groups(),
            (*final(self), final(scene).view_state(), final(events).queue_view()) == old(
                self,
            ).update_view(*spawn, old(scene).view_state(), old(events).queue_view()),
    ;
}

/// One payload part with an active flag.
///
/// `flag_view` reads the flag off a component's view, and `with_active` names
/// the view with only that flag changed, so that toggling a component is
/// exact about leaving the rest of it alone.
pub trait Component: View + Sized {
    /// The active flag, read from the view.
    spec fn flag_view(v: <Self as View>::V) -> bool;

    /// The same view with the active flag replaced.
    spec fn with_active(v: <Self as View>::V, activate: bool) -> <Self as View>::V;

    /// The view of a freshly constructed component.
    spec fn fresh_view() -> <Self as View>::V;

    /// Builds a fresh component.
    fn fresh() -> (r: Self)
        ensures
            r@ == Self::fresh_view(),
    ;

    /// Sets the active flag and changes nothing else.
    fn set_active(&mut self, activate: bool)
        ensures
            final(self)@ == Self::with_active(old(self)@, activate),
            Self::flag_view(final(self)@) == activate,
    ;

    /// Reads the active flag.
    fn is_active(&self) -> (r: &bool)
        ensures
            *r == Self::flag_view(self@),
    ;

    /// A fresh component with its flag set.
    fn active() -> (r: Self)
        ensures
            r@ == Self::with_active(Self::fresh_view(), true),
            Self::flag_view(r@),
    {
        let mut component = Self::fresh();
        component.set_active(true);
        component
    }

    /// A fresh component with its flag cleared.
    fn inactive() -> (r: Self)
        ensures
            r@ == Self::with_active(Self::fresh_view(), false),
            !Self::flag_view(r@),
    {
        let mut component = Self::fresh();
        component.set_active(false);
        component
    }
}

/// Payload-level event handling, consumed by the messenger flush: when a
/// queued event reaches its receiver, the receiver's payload handles it with
/// exclusive access to its own slot.
///
/// `handle_view` names the handler's effect on the payload view; handling an
/// event is a pure function of payload, event and sender.
pub trait Components: View + Sized {
    /// The event values this payload can receive.
    type Events: View;

    /// What handling one event does to the payload, as a function of the
    /// event's view.
    spec fn handle_view(
        pre: <Self as View>::V,
        event: <<Self as Components>::Events as View>::V,
        from: usize,
    ) -> <Self as View>::V;

    /// Handles one incoming event from the sender at `from`.
    fn event_handler(&mut self, event: Self::Events, from: usize)
        ensures
            final(self)@ == Self::handle_view(old(self)@, event@, from),
    ;
}

} // verus!
