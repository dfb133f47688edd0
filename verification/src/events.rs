//! Deferred cross-entity events: a queue of hooks, appended in FIFO order
//! during a system's pass and flushed between passes.
//!
//! Event values carry a view, and every delivery contract speaks of that
//! view: what a flush does to the payloads is a pure function of the hook
//! views in queue order.

use vstd::prelude::*;

use crate::scene::Pointer;
use crate::spawns::{has_pointer, Spawn};
use crate::types::Components;

verus! {

/// A predefined event set for the example payloads.
#[derive(Clone)]
pub enum ExampleEvents {
    Damage(u16),
    Heal(u16),
    Say(String),
}

impl View for ExampleEvents {
    type V = ExampleEvents;

    open spec fn view(&self) -> ExampleEvents {
        *self
    }
}

/// One queued event: who sent it, who receives it, and the event value.
#[derive(Clone)]
pub struct EventHook<Events> {
    pub sender: Pointer,
    pub receiver: Pointer,
    pub event: Events,
}

impl<Events: View> View for EventHook<Events> {
    type V = EventHook<<Events as View>::V>;

    open spec fn view(&self) -> EventHook<<Events as View>::V> {
        EventHook { sender: self.sender, receiver: self.receiver, event: self.event@ }
    }
}

/// An ordered queue of event hooks, cleared at each flush.
///
/// `tell` appends; hooks are delivered strictly in `tell` order.
pub struct Messenger<Events> {
    queue: Vec<EventHook<Events>>,
}

impl<Events: View> Messenger<Events> {
    /// The queued hooks, oldest first.
    pub closed spec fn queue(self) -> Seq<EventHook<Events>> {
        self.queue@
    }

    /// The queued hooks at the view level, oldest first.
    pub open spec fn queue_view(self) -> Seq<EventHook<<Events as View>::V>> {
        self.queue().map_values(|h: EventHook<Events>| h@)
    }

    /// Creates an empty queue.
    pub fn new() -> (r: Self)
        ensures
            r.queue() == Seq::<EventHook<Events>>::empty(),
            r.queue_view() == Seq::<EventHook<<Events as View>::V>>::empty(),
    {
        let m = Messenger { queue: Vec::new() };
        proof {
            assert(m.queue_view() =~= Seq::<EventHook<<Events as View>::V>>::empty());
        }
        m
    }

    /// Appends one hook at the back of the queue.
    pub fn tell(&mut self, sender: Pointer, receiver: Pointer, event: Events)
        ensures
            final(self).queue() == old(self).queue().push(
                EventHook { sender, receiver, event },
            ),
            final(self).queue_view() == old(self).queue_view().push(
                EventHook { sender, receiver, event: event@ },
            ),
    {
        let ghost ev = event@;
        self.queue.push(EventHook { sender, receiver, event });
        proof {
            assert(self.queue_view() =~= old(self).queue_view().push(
                EventHook { sender, receiver, event: ev },
            ));
        }
    }

    /// Drops every queued hook.
    pub fn clear(&mut self)
        ensures
            final(self).queue() == Seq::<EventHook<Events>>::empty(),
            final(self).queue_view() == Seq::<EventHook<<Events as View>::V>>::empty(),
    {
        self.queue.clear();
        proof {
            assert(self.queue_view() =~= Seq::<EventHook<<Events as View>::V>>::empty());
        }
    }

    /// The queued hooks, for inspection.
    pub fn list(&self) -> (r: &Vec<EventHook<Events>>)
        ensures
            r@ == self.queue(),
    {
        &self.queue
    }

    /// How many hooks are queued.
    pub fn len(&self) -> (r: usize)
        ensures
            r == self.queue().len(),
            r == self.queue_view().len(),
    {
        self.queue.len()
    }

    /// Removes and returns the oldest queued hook.
    pub fn take_first(&mut self) -> (r: Option<EventHook<Events>>)
        ensures
            old(self).queue().len() > 0 ==> r == Some(old(self).queue().first())
                && final(self).queue() == old(self).queue().drop_first() && final(self).queue_view() == old(self).queue_view().drop_first() && (match r {
                Some(h) => h@ == old(self).queue_view().first(),
                None => false,
            }),
            old(self).queue().len() == 0 ==> r is None && final(self).queue() == old(self).queue(),
    {
        if self.queue.len() > 0 {
            let hook = self.queue.remove(0);
            proof {
                assert(old(self).queue().remove(0) =~= old(self).queue().drop_first());
                assert(self.queue_view() =~= old(self).queue_view().drop_first());
            }
            Some(hook)
        } else {
            None
        }
    }
}

/// What flushing a hook queue does to the payloads: each hook is delivered
/// in queue order, replacing the receiver's payload with what its handler
/// makes of it. A hook whose receiver is not on the active list is silently
/// dropped.
pub open spec fn delivered_views<C: Components>(
    payloads: Seq<<C as View>::V>,
    alive: Seq<Spawn>,
    hooks: Seq<EventHook<<<C as Components>::Events as View>::V>>,
) -> Seq<<C as View>::V>
    decreases hooks.len(),
{
    if hooks.len() == 0 {
        payloads
    } else {
        let h = hooks[0];
        let next = if has_pointer(alive, h.receiver) && h.receiver < payloads.len() {
            payloads.update(
                h.receiver as int,
                C::handle_view(payloads[h.receiver as int], h.event, h.sender),
            )
        } else {
            payloads
        };
        delivered_views::<C>(next, alive, hooks.drop_first())
    }
}

/// Event ordering: two hooks queued by one sender for one receiver are
/// delivered in the order they were told, so the receiver sees the first
/// event before the second.
pub proof fn lemma_event_ordering<C: Components>(
    payloads: Seq<<C as View>::V>,
    alive: Seq<Spawn>,
    sender: Pointer,
    receiver: Pointer,
    e1: <<C as Components>::Events as View>::V,
    e2: <<C as Components>::Events as View>::V,
)
    requires
        has_pointer(alive, receiver),
        receiver < payloads.len(),
    ensures
        delivered_views::<C>(
            payloads,
            alive,
            seq![
                EventHook { sender, receiver, event: e1 },
                EventHook { sender, receiver, event: e2 },
            ],
        )[receiver as int] == C::handle_view(
            C::handle_view(payloads[receiver as int], e1, sender),
            e2,
            sender,
        ),
{
    let h1 = EventHook { sender, receiver, event: e1 };
    let h2 = EventHook { sender, receiver, event: e2 };
    let hooks = seq![h1, h2];
    let after1 = payloads.update(
        receiver as int,
        C::handle_view(payloads[receiver as int], e1, sender),
    );
    let after2 = after1.update(
        receiver as int,
        C::handle_view(after1[receiver as int], e2, sender),
    );
    assert(hooks[0] == h1);
    assert(hooks.drop_first() =~= seq![h2]);
    assert(seq![h2][0] == h2);
    assert(seq![h2].drop_first() =~= Seq::<
        EventHook<<<C as Components>::Events as View>::V>,
    >::empty());
    assert(delivered_views::<C>(after2, alive, Seq::empty()) == after2);
    assert(delivered_views::<C>(after1, alive, seq![h2]) == after2);
    assert(delivered_views::<C>(payloads, alive, hooks) == after2);
}

} // verus!
