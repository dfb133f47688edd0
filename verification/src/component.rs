//! A minimal example payload: one counter value, with an event handler that
//! takes damage and healing as saturating arithmetic on the counter.

use vstd::prelude::*;

use crate::events::ExampleEvents;
use crate::types::{Components, Entity};

verus! {

/// A payload of one value, for exercising the engine.
#[derive(Clone, Copy, Debug, PartialEq, Eq, Structural)]
pub struct ExampleComponents {
    pub value: u64,
}

impl View for ExampleComponents {
    type V = ExampleComponents;

    open spec fn view(&self) -> ExampleComponents {
        *self
    }
}

/// What handling one event does to the value: damage subtracts, healing
/// adds, both saturating; a spoken message changes nothing.
pub open spec fn example_handled(pre: ExampleComponents, event: ExampleEvents) -> ExampleComponents {
    match event {
        ExampleEvents::Damage(hp) => ExampleComponents {
            value: if pre.value >= hp { (pre.value - hp) as u64 } else { 0u64 },
        },
        ExampleEvents::Heal(hp) => ExampleComponents {
            value: if pre.value + hp <= u64::MAX { (pre.value + hp) as u64 } else { u64::MAX },
        },
        ExampleEvents::Say(_) => pre,
    }
}

impl Entity for ExampleComponents {
    open spec fn base_view() -> ExampleComponents {
        ExampleComponents { value: 0 }
    }

    fn base() -> (r: Self)
        ensures
            r@ == Self::base_view(),
    {
        ExampleComponents { value: 0 }
    }

    fn duplicate(&self) -> (r: Self)
        ensures
            r@ == self@,
    {
        ExampleComponents { value: self.value }
    }
}

impl Components for ExampleComponents {
    type Events = ExampleEvents;

    open spec fn handle_view(pre: ExampleComponents, event: ExampleEvents, from: usize) -> ExampleComponents {
        example_handled(pre, event)
    }

    fn event_handler(&mut self, event: ExampleEvents, from: usize)
        ensures
            final(self)@ == Self::handle_view(old(self)@, event@, from),
    {
        match event {
            ExampleEvents::Damage(hp) => {
                let hp64 = hp as u64;
                if self.value >= hp64 {
                    self.value = self.value - hp64;
                } else {
                    self.value = 0;
                }
            },
            ExampleEvents::Heal(hp) => {
                let hp64 = hp as u64;
                if self.value <= u64::MAX - hp64 {
                    self.value = self.value + hp64;
                } else {
                    self.value = u64::MAX;
                }
            },
            ExampleEvents::Say(_) => {},
        }
    }
}

} // verus!
