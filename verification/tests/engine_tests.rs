//! Engine-level behaviour: the dispatch loop over real factories and
//! systems, snapshot isolation, and the builder flow.

use ecs::component::ExampleComponents;
use ecs::events::{EventHook, ExampleEvents, Messenger};
use vstd::prelude::Seq;
use ecs::example::components::GameObject;
use ecs::example::factories::{Soldier, Truck, Unit};
use ecs::example::systems::MoveSystem;
use ecs::scene::{Scene, SceneView};
use ecs::spawns::Spawn;
use ecs::system::ExampleSystem;
use ecs::types::{Factory, System};
use ecs::EcsBuilder;

#[test]
fn spawn_and_update() {
    let soldiers = Soldier::new();
    let trucks = Truck::new();

    let mut engine = EcsBuilder::new(1000)
        .add_factory(Unit::Soldier(soldiers))
        .add_factory(Unit::Truck(trucks))
        .register_system(MoveSystem)
        .build::<GameObject>();

    let soldier = engine.scene_mut().spawn("Private first", &0).unwrap();
    let truck = engine.scene_mut().spawn("Demo truck", &1).unwrap();

    assert_eq!(engine.scene().get_ref(&soldier).position.x, 0);
    assert_eq!(engine.scene().get_ref(&truck).position.x, 0);

    engine.update();

    assert_eq!(engine.scene().get_ref(&soldier).position.x, 1);
    assert_eq!(engine.scene().get_ref(&truck).position.x, 2);

    engine.update();

    assert_eq!(engine.scene().get_ref(&soldier).position.x, 2);
    assert_eq!(engine.scene().get_ref(&truck).position.x, 4);
}

#[test]
fn destroy() {
    let soldiers = Soldier::new();
    let trucks = Truck::new();

    let mut engine = EcsBuilder::new(1000)
        .add_factory(Unit::Soldier(soldiers))
        .add_factory(Unit::Truck(trucks))
        .register_system(MoveSystem)
        .build::<GameObject>();

    let soldier = engine.scene_mut().spawn("Private first", &0).unwrap();
    let truck = engine.scene_mut().spawn("Demo truck", &1).unwrap();

    assert_eq!(engine.scene().is_spawned(&soldier), true);
    assert_eq!(engine.scene().is_spawned(&truck), true);

    engine.update();

    assert_eq!(engine.scene().get_ref(&soldier).position.x, 1);
    assert_eq!(engine.scene().get_ref(&truck).position.x, 2);

    engine.scene_mut().destroy(&soldier);

    assert_eq!(engine.scene().is_spawned(&soldier), false);
    assert_eq!(engine.scene().is_spawned(&truck), true);

    engine.update();

    assert_eq!(engine.scene().get_ref(&soldier).position.x, 1);
    assert_eq!(engine.scene().get_ref(&truck).position.x, 4);
}

/// A factory handing out zero-valued payloads for group 0.
struct ValueFactory;

impl Factory<ExampleComponents> for ValueFactory {
    // the proof-level items are erased in the compiled library; these
    // bodies only satisfy the trait and are never called
    fn group_view(&self) -> usize {
        0
    }

    fn build_view(&self, _spawn: Spawn) -> ExampleComponents {
        ExampleComponents { value: 0 }
    }

    fn group(&self) -> usize {
        0
    }

    fn build(&self, _spawn: &Spawn) -> ExampleComponents {
        ExampleComponents { value: 0 }
    }
}

/// A two-phase test system: the destroyer bumps every visited payload by
/// one and removes its victim when it visits the first slot; the bumper
/// adds ten to every visited payload.
enum TestSystem {
    Destroyer(Spawn),
    Bumper,
}

impl System<ExampleComponents, ValueFactory> for TestSystem {
    // erased proof-level items; never called
    fn applies_view(&self, _target: ExampleComponents) -> bool {
        true
    }

    fn update_view(
        &self,
        _spawn: Spawn,
        _scene: SceneView<ExampleComponents>,
        _events: Seq<EventHook<ExampleEvents>>,
    ) -> (Self, SceneView<ExampleComponents>, Seq<EventHook<ExampleEvents>>) {
        panic!()
    }

    fn requirements(&self, _target: &ExampleComponents) -> bool {
        true
    }

    fn update(
        &mut self,
        spawn: &Spawn,
        scene: &mut Scene<ExampleComponents, ValueFactory>,
        _events: &mut Messenger<ExampleEvents>,
    ) {
        match self {
            TestSystem::Destroyer(victim) => {
                let victim = *victim;
                scene.get_mut(spawn).value += 1;
                if spawn.pointer == 0 {
                    scene.destroy(&victim);
                }
            },
            TestSystem::Bumper => {
                scene.get_mut(spawn).value += 10;
            },
        }
    }
}

#[test]
fn snapshot_isolation_across_systems() {
    // the victim handle is known ahead of time: capacity 3 hands out slot 0
    // then slot 1, so "b" will sit at pointer 1
    let mut probe: Scene<ExampleComponents, ValueFactory> = {
        let mut factories = Vec::new();
        factories.push(ValueFactory);
        Scene::new(3, factories)
    };
    probe.spawn("a", &0).unwrap();
    let victim = probe.spawn("b", &0).unwrap();

    let mut engine = EcsBuilder::new(3)
        .add_factory(ValueFactory)
        .register_system(TestSystem::Destroyer(victim))
        .register_system(TestSystem::Bumper)
        .build::<ExampleComponents>();
    let a = engine.scene_mut().spawn("a", &0).unwrap();
    let b = engine.scene_mut().spawn("b", &0).unwrap();
    assert_eq!(b.pointer, victim.pointer);

    engine.update();

    // the destroyer's pass was taken from a snapshot: it still visited the
    // entity it destroyed mid-pass, so that slot was bumped once
    assert_eq!(engine.scene().get_ref(&b).value, 1);
    assert!(!engine.scene().is_spawned(&b));
    // the bumper's fresh snapshot no longer held the destroyed entity
    assert_eq!(engine.scene().get_ref(&a).value, 11);
}

#[test]
fn example_system_counts_every_pass() {
    let mut engine = EcsBuilder::new(2)
        .add_factory(ValueFactory)
        .register_system(ExampleSystem::new())
        .build::<ExampleComponents>();
    let a = engine.scene_mut().spawn("a", &0).unwrap();
    assert_eq!(engine.scene().get_ref(&a).value, 0);
    engine.update();
    assert_eq!(engine.scene().get_ref(&a).value, 1);
    engine.update();
    engine.update();
    assert_eq!(engine.scene().get_ref(&a).value, 3);
}

#[test]
fn builder_scenario_on_capacity_two() {
    // capacity 2, one group: two spawns succeed, the third overflows;
    // after a destroy the freed slot is reused and rebuilt
    let mut engine = EcsBuilder::new(2)
        .add_factory(ValueFactory)
        .register_system(ExampleSystem::new())
        .build::<ExampleComponents>();
    let a = engine.scene_mut().spawn("a", &0).unwrap();
    assert_eq!(a.pointer, 0);
    let b = engine.scene_mut().spawn("b", &0).unwrap();
    assert_eq!(b.pointer, 1);
    assert!(engine.scene_mut().spawn("c", &0).is_err());
    engine.scene_mut().get_mut(&a).value = 50;
    engine.scene_mut().destroy(&a);
    let d = engine.scene_mut().spawn("d", &0).unwrap();
    assert_eq!(d.pointer, 0);
    assert_eq!(engine.scene().get_ref(&d).value, 0);
}
