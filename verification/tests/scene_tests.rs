//! Scene-level behaviour: the concrete spawn/destroy scenario, group
//! scoping, queries, comparisons, wiping and event delivery.

use ecs::component::ExampleComponents;
use ecs::events::{ExampleEvents, Messenger};
use ecs::scene::{Scene, SceneError};
use ecs::spawns::Spawn;
use ecs::types::Factory;

/// A factory handing out zero-valued payloads for one group.
struct ValueFactory {
    group: usize,
}

impl Factory<ExampleComponents> for ValueFactory {
    // the proof-level items are erased in the compiled library; these
    // bodies only satisfy the trait and are never called
    fn group_view(&self) -> usize {
        0
    }

    fn build_view(&self, _spawn: Spawn) -> ExampleComponents {
        ExampleComponents { value: 0 }
    }

    fn group(&self) -> usize {
        self.group
    }

    fn build(&self, _spawn: &Spawn) -> ExampleComponents {
        ExampleComponents { value: 0 }
    }
}

fn one_group_scene(capacity: usize) -> Scene<ExampleComponents, ValueFactory> {
    let mut factories = Vec::new();
    factories.push(ValueFactory { group: 0 });
    Scene::new(capacity, factories)
}

#[test]
fn concrete_spawn_scenario() {
    let mut scene = one_group_scene(2);
    let a = scene.spawn("a", &0).unwrap();
    assert_eq!(a.pointer, 0);
    let b = scene.spawn("b", &0).unwrap();
    assert_eq!(b.pointer, 1);
    match scene.spawn("c", &0) {
        Err(SceneError::Overflow) => {},
        other => panic!("expected an overflow, got {:?}", other.map(|s| s.pointer)),
    }
    // mark slot 0 so the rebuild is observable
    scene.get_mut(&a).value = 77;
    scene.destroy(&a);
    let d = scene.spawn("d", &0).unwrap();
    assert_eq!(d.pointer, 0);
    // the reused slot was rebuilt by the factory
    assert_eq!(scene.get_ref(&d).value, 0);
}

#[test]
fn spawn_rejects_unknown_groups() {
    let mut scene = one_group_scene(2);
    match scene.spawn("a", &5) {
        Err(SceneError::GroupNotFound) => {},
        _ => panic!("expected a group error"),
    }
}

#[test]
fn spawn_rejects_mismatched_factory() {
    // the factory at position 0 claims group 7: a configuration error,
    // surfaced at spawn time
    let mut factories = Vec::new();
    factories.push(ValueFactory { group: 7 });
    let mut scene: Scene<ExampleComponents, ValueFactory> = Scene::new(2, factories);
    match scene.spawn("a", &0) {
        Err(SceneError::FactoryNotFound) => {},
        _ => panic!("expected a factory error"),
    }
}

#[test]
fn registry_completeness_is_checkable_up_front() {
    let scene = one_group_scene(2);
    assert!(scene.registry_complete());
    let mut factories = Vec::new();
    factories.push(ValueFactory { group: 7 });
    let broken: Scene<ExampleComponents, ValueFactory> = Scene::new(2, factories);
    assert!(!broken.registry_complete());
}

#[test]
fn destroy_inactive_handle_is_a_no_op() {
    let mut scene = one_group_scene(2);
    let a = scene.spawn("a", &0).unwrap();
    scene.destroy(&a);
    assert!(!scene.is_spawned(&a));
    // destroying again must not push a duplicate free pointer
    scene.destroy(&a);
    let b = scene.spawn("b", &0).unwrap();
    let c = scene.spawn("c", &0).unwrap();
    assert_ne!(b.pointer, c.pointer);
    assert!(matches!(scene.spawn("d", &0), Err(SceneError::Overflow)));
}

#[test]
fn wipe_resets_payload_and_keeps_bookkeeping() {
    let mut scene = one_group_scene(2);
    let a = scene.spawn("a", &0).unwrap();
    scene.get_mut(&a).value = 42;
    scene.wipe(&a.pointer);
    assert_eq!(scene.get_ref(&a).value, 0);
    // wiping never touches the active list
    assert!(scene.is_spawned(&a));
    // wiping an inactive slot works the same way
    scene.destroy(&a);
    scene.get_mut(&a).value = 9;
    scene.wipe(&a.pointer);
    assert_eq!(scene.get_ref(&a).value, 0);
    assert!(!scene.is_spawned(&a));
}

#[test]
fn exists_and_groups() {
    let mut scene = one_group_scene(3);
    let a = scene.spawn("a", &0).unwrap();
    assert!(scene.is_spawned(&a));
    assert!(scene.exists_in_group(&a, 0));
    assert!(!scene.exists_in_group(&a, 1));
    scene.destroy(&a);
    assert!(!scene.is_spawned(&a));
    assert!(!scene.exists_in_group(&a, 0));
}

#[test]
fn find_spawn_by_name() {
    let mut scene = one_group_scene(3);
    scene.spawn("alpha", &0).unwrap();
    let b = scene.spawn("beta", &0).unwrap();
    let found = scene.find_spawn("beta").unwrap();
    assert_eq!(found.pointer, b.pointer);
    assert!(scene.find_spawn("gamma").is_none());
}

#[test]
fn find_spawn_names_are_truncated_to_sixteen_bytes() {
    let mut scene = one_group_scene(2);
    let long = scene.spawn("a-very-long-name-indeed", &0).unwrap();
    // the stored name keeps only the first 16 bytes, so a query sharing
    // that prefix matches
    let found = scene.find_spawn("a-very-long-name-shortened").unwrap();
    assert_eq!(found.pointer, long.pointer);
}

#[test]
fn find_spawn_in_group_scopes_to_one_bucket() {
    let mut factories = Vec::new();
    factories.push(ValueFactory { group: 0 });
    factories.push(ValueFactory { group: 1 });
    let mut scene: Scene<ExampleComponents, ValueFactory> = Scene::new(4, factories);
    scene.spawn("left", &0).unwrap();
    let right = scene.spawn("right", &1).unwrap();
    assert!(scene.find_spawn_in_group("right", 0).is_none());
    let found = scene.find_spawn_in_group("right", 1).unwrap();
    assert_eq!(found.pointer, right.pointer);
    assert_eq!(*found.group(), 1);
    // an out-of-range group reads as "not found"
    assert!(scene.find_spawn_in_group("right", 9).is_none());
}

#[test]
fn search_components_finds_first_matching_payload() {
    let mut scene = one_group_scene(3);
    let a = scene.spawn("a", &0).unwrap();
    let b = scene.spawn("b", &0).unwrap();
    scene.get_mut(&a).value = 1;
    scene.get_mut(&b).value = 2;
    let found = scene.search_components(|payload: &ExampleComponents| payload.value == 2);
    assert_eq!(found.unwrap().pointer, b.pointer);
    assert!(scene.search_components(|payload: &ExampleComponents| payload.value == 3).is_none());
}

#[test]
fn search_in_group_never_leaves_the_group() {
    let mut factories = Vec::new();
    factories.push(ValueFactory { group: 0 });
    factories.push(ValueFactory { group: 1 });
    let mut scene: Scene<ExampleComponents, ValueFactory> = Scene::new(4, factories);
    let a = scene.spawn("a", &0).unwrap();
    let b = scene.spawn("b", &1).unwrap();
    scene.get_mut(&a).value = 5;
    scene.get_mut(&b).value = 5;
    let found = scene
        .search_components_in_group(1, |payload: &ExampleComponents| payload.value == 5)
        .unwrap();
    assert_eq!(*found.group(), 1);
    assert_eq!(found.pointer, b.pointer);
    let pointer = scene
        .find_in_group(1, |payload: &ExampleComponents| payload.value == 5)
        .unwrap();
    assert_eq!(pointer, b.pointer);
    assert!(scene.find_in_group(9, |_: &ExampleComponents| true).is_none());
}

#[test]
fn compare_all_excludes_self_pairs() {
    let mut scene = one_group_scene(3);
    let a = scene.spawn("a", &0).unwrap();
    let b = scene.spawn("b", &0).unwrap();
    // the predicate accepts every pair, so only the self-pair exclusion
    // decides what comes back
    let (x, y) = scene
        .compare_all(|_: &ExampleComponents, _: &ExampleComponents| true)
        .unwrap();
    assert_ne!(x.pointer, y.pointer);
    assert_eq!(x.pointer, a.pointer);
    assert_eq!(y.pointer, b.pointer);
    // with one entity there is no pair at all
    scene.destroy(&b);
    assert!(scene.compare_all(|_: &ExampleComponents, _: &ExampleComponents| true).is_none());
}

#[test]
fn compare_against_a_fixed_reference() {
    let mut scene = one_group_scene(3);
    let a = scene.spawn("a", &0).unwrap();
    let b = scene.spawn("b", &0).unwrap();
    scene.get_mut(&a).value = 10;
    scene.get_mut(&b).value = 3;
    let weaker = scene
        .compare_against(a, |mine: &ExampleComponents, other: &ExampleComponents| {
            other.value < mine.value
        })
        .unwrap();
    assert_eq!(weaker.pointer, b.pointer);
}

#[test]
fn test_all_and_snapshots() {
    let mut scene = one_group_scene(3);
    let a = scene.spawn("a", &0).unwrap();
    let b = scene.spawn("b", &0).unwrap();
    assert!(scene.test_all(|payload: &ExampleComponents| payload.value == 0));
    scene.get_mut(&a).value = 1;
    assert!(!scene.test_all(|payload: &ExampleComponents| payload.value == 0));
    let snapshot = scene.list_spawned();
    assert_eq!(snapshot.len(), 2);
    assert_eq!(snapshot[0].pointer, a.pointer);
    assert_eq!(snapshot[1].pointer, b.pointer);
    // the snapshot is a copy: destroying afterwards does not shrink it
    scene.destroy(&a);
    assert_eq!(snapshot.len(), 2);
    assert_eq!(scene.list_spawned().len(), 1);
}

#[test]
fn sampling_active_payloads() {
    let mut scene = one_group_scene(3);
    let a = scene.spawn("a", &0).unwrap();
    scene.spawn("b", &0).unwrap();
    scene.get_mut(&a).value = 4;
    assert!(scene.sample(|payload: &ExampleComponents| payload.value == 4));
    assert!(!scene.sample(|payload: &ExampleComponents| payload.value == 9));
    assert!(scene.sample_false(|payload: &ExampleComponents| payload.value == 4));
    assert!(!scene.sample_false(|payload: &ExampleComponents| payload.value < 5));
}

#[test]
fn object_list_copies_active_payloads_in_order() {
    let mut scene = one_group_scene(3);
    let a = scene.spawn("a", &0).unwrap();
    let b = scene.spawn("b", &0).unwrap();
    scene.get_mut(&a).value = 1;
    scene.get_mut(&b).value = 2;
    let objects = scene.into_object_list();
    assert_eq!(objects.len(), 2);
    assert_eq!(objects[0].value, 1);
    assert_eq!(objects[1].value, 2);
    // the list is a copy: destroying afterwards does not change it
    scene.destroy(&a);
    assert_eq!(objects[0].value, 1);
    assert_eq!(scene.into_object_list().len(), 1);
}

#[test]
fn clone_spawn_is_bounds_checked() {
    let mut scene = one_group_scene(2);
    let a = scene.spawn("a", &0).unwrap();
    scene.get_mut(&a).value = 8;
    assert_eq!(scene.clone_spawn(&a.pointer).unwrap().value, 8);
    assert_eq!(scene.clone_spawn(&99).unwrap_err(), SceneError::OutOfBounds);
}

#[test]
fn deliver_events_in_tell_order() {
    let mut scene = one_group_scene(2);
    let r = scene.spawn("receiver", &0).unwrap();
    let mut events: Messenger<ExampleEvents> = Messenger::new();
    // damage first, then healing: saturation makes the order observable
    events.tell(r.pointer, r.pointer, ExampleEvents::Damage(5));
    events.tell(r.pointer, r.pointer, ExampleEvents::Heal(3));
    scene.deliver(&mut events);
    assert_eq!(scene.get_ref(&r).value, 3);
    assert_eq!(events.len(), 0);

    // the opposite order saturates at zero instead
    let mut scene2 = one_group_scene(2);
    let r2 = scene2.spawn("receiver", &0).unwrap();
    let mut events2: Messenger<ExampleEvents> = Messenger::new();
    events2.tell(r2.pointer, r2.pointer, ExampleEvents::Heal(3));
    events2.tell(r2.pointer, r2.pointer, ExampleEvents::Damage(5));
    scene2.deliver(&mut events2);
    assert_eq!(scene2.get_ref(&r2).value, 0);
}

#[test]
fn deliver_drops_hooks_for_destroyed_receivers() {
    let mut scene = one_group_scene(2);
    let r = scene.spawn("receiver", &0).unwrap();
    let mut events: Messenger<ExampleEvents> = Messenger::new();
    events.tell(r.pointer, r.pointer, ExampleEvents::Heal(3));
    scene.destroy(&r);
    scene.deliver(&mut events);
    // the hook was silently dropped: the stale payload is untouched
    assert_eq!(scene.get_ref(&r).value, 0);
    assert_eq!(events.len(), 0);
}

#[test]
fn messenger_queue_surface() {
    let mut events: Messenger<ExampleEvents> = Messenger::new();
    assert_eq!(events.len(), 0);
    events.tell(1, 2, ExampleEvents::Say(String::from("hi")));
    events.tell(2, 1, ExampleEvents::Damage(4));
    assert_eq!(events.len(), 2);
    assert_eq!(events.list()[0].sender, 1);
    assert_eq!(events.list()[0].receiver, 2);
    assert_eq!(events.list()[1].sender, 2);
    let first = events.take_first().unwrap();
    assert_eq!(first.receiver, 2);
    assert_eq!(events.len(), 1);
    events.clear();
    assert_eq!(events.len(), 0);
}
