//! A minimal example system over the example payload: it bumps the counter
//! of every entity it visits and remembers that it ran.

use vstd::prelude::*;

use crate::component::ExampleComponents;
use crate::events::{EventHook, ExampleEvents, Messenger};
use crate::scene::{Scene, SceneView};
use crate::spawns::Spawn;
use crate::types::{Factory, System};

verus! {

/// One visit's effect on a payload: the value rises by one, capped at the
/// integer's range.
pub open spec fn counted(c: ExampleComponents) -> ExampleComponents {
    if c.value < u64::MAX {
        ExampleComponents { value: (c.value + 1) as u64 }
    } else {
        c
    }
}

/// A system that raises every visited entity's value by one and records
/// that it was called.
pub struct ExampleSystem {
    pub was_called: bool,
}

impl ExampleSystem {
    /// A fresh system that has not run yet.
    pub fn new() -> (r: Self)
        ensures
            !r.was_called,
    {
        ExampleSystem { was_called: false }
    }
}

impl<F: Factory<ExampleComponents>> System<ExampleComponents, F> for ExampleSystem {
    open spec fn applies_view(&self, target: ExampleComponents) -> bool {
        true
    }

    open spec fn update_view(
        &self,
        spawn: Spawn,
        scene: SceneView<ExampleComponents>,
        events: Seq<EventHook<ExampleEvents>>,
    ) -> (Self, SceneView<ExampleComponents>, Seq<EventHook<ExampleEvents>>) {
        (
            ExampleSystem { was_called: true },
            SceneView {
                payloads: scene.payloads.update(
                    spawn.pointer as int,
                    counted(scene.payloads[spawn.pointer as int]),
                ),
                ..scene
            },
            events,
        )
    }

    fn requirements(&self, target: &ExampleComponents) -> (r: bool) {
        true
    }

    fn update(&mut self, spawn: &Spawn, scene: &mut Scene<ExampleComponents, F>, events:
        &mut Messenger<ExampleEvents>)
    {
        let ghost pre = *scene;
        let payload = scene.get_mut(spawn);
        if payload.value < u64::MAX {
            payload.value = payload.value + 1;
        }
        self.was_called = true;
        proof {
            assert(scene.payloads() =~= pre.payloads().update(
                spawn.pointer as int,
                counted(pre.payloads()[spawn.pointer as int]),
            ));
            assert(scene.view_state() =~= (SceneView {
                payloads: pre.payloads().update(
                    spawn.pointer as int,
                    counted(pre.payloads()[spawn.pointer as int]),
                ),
                ..pre.view_state()
            }));
        }
    }
}

} // verus!
