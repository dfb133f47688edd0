//! The example systems: movement, attack resolution and damage draining,
//! one pass each per tick. Each system names its per-visit effect with a
//! spec function, so a whole tick over these systems is pinned down by the
//! engine's dispatch contract.

use vstd::prelude::*;

use crate::events::{EventHook, Messenger};
use crate::example::components::{
    attack_power, damaged, near_positions, opposing_factions, resolved_power, Attack, AttackView,
    DamageView, DefenseView, FocusView, GameObject, GameObjectView, Health,
};
use crate::scene::{Scene, SceneView};
use crate::spawns::{has_pointer, Spawn};
use crate::types::{Component, Factory, System};

verus! {

/// One movement step: the x coordinate advances by the speed, saturating at
/// the integer's range.
pub open spec fn advanced_x(x: i64, speed: u32) -> i64 {
    if x + speed <= i64::MAX {
        (x + speed) as i64
    } else {
        i64::MAX
    }
}

/// One movement visit's effect on a payload.
pub open spec fn moved(v: GameObjectView) -> GameObjectView {
    GameObjectView {
        position: crate::example::components::Position {
            x: advanced_x(v.position.x, v.movement.speed),
            ..v.position
        },
        ..v
    }
}

/// Moves every positioned, mobile entity by its speed along the x axis.
pub struct MoveSystem;

impl<F: Factory<GameObject>> System<GameObject, F> for MoveSystem {
    open spec fn applies_view(&self, target: GameObjectView) -> bool {
        target.position.active && target.movement.active
    }

    open spec fn update_view(
        &self,
        spawn: Spawn,
        scene: SceneView<GameObjectView>,
        events: Seq<EventHook<AttackView>>,
    ) -> (Self, SceneView<GameObjectView>, Seq<EventHook<AttackView>>) {
        (
            MoveSystem,
            SceneView {
                payloads: scene.payloads.update(
                    spawn.pointer as int,
                    moved(scene.payloads[spawn.pointer as int]),
                ),
                ..scene
            },
            events,
        )
    }

    fn requirements(&self, target: &GameObject) -> (r: bool) {
        target.has_position() && target.has_movement()
    }

    fn update(&mut self, spawn: &Spawn, scene: &mut Scene<GameObject, F>, events: &mut Messenger<
        Attack,
    >)
    {
        let ghost pre = *scene;
        let payload = scene.get_mut(spawn);
        let speed = *payload.movement.speed();
        let x = payload.position.x;
        if x <= i64::MAX - (speed as i64) {
            payload.position.x = x + speed as i64;
        } else {
            payload.position.x = i64::MAX;
        }
        proof {
            assert(scene.payloads() =~~= pre.payloads().update(
                spawn.pointer as int,
                moved(pre.payloads()[spawn.pointer as int]),
            ));
            assert(scene.view_state() =~~= (SceneView {
                payloads: pre.payloads().update(
                    spawn.pointer as int,
                    moved(pre.payloads()[spawn.pointer as int]),
                ),
                ..pre.view_state()
            }));
        }
    }
}

/// Whether `other` is a target for `me`: it takes damage, fights for an
/// opposing faction, and stands within the square window of radius ten.
pub open spec fn hostile_in_reach(me: GameObjectView, other: GameObjectView) -> bool {
    other.damage.active && opposing_factions(me.agenda.faction, other.agenda.faction)
        && near_positions(me.position, other.position, 10)
}

/// The first active entity, in spawn order, that is a target for `me`.
pub open spec fn first_hostile(
    payloads: Seq<GameObjectView>,
    active: Seq<Spawn>,
    me: GameObjectView,
) -> Option<Spawn> {
    if exists|i: int|
        0 <= i < active.len() && hostile_in_reach(
            me,
            payloads[(#[trigger] active[i]).pointer as int],
        ) && (forall|j: int|
            0 <= j < i ==> !hostile_in_reach(me, payloads[(#[trigger] active[j]).pointer as int])) {
        let i = choose|i: int|
            0 <= i < active.len() && hostile_in_reach(
                me,
                payloads[(#[trigger] active[i]).pointer as int],
            ) && (forall|j: int|
                0 <= j < i ==> !hostile_in_reach(
                    me,
                    payloads[(#[trigger] active[j]).pointer as int],
                ));
        Some(active[i])
    } else {
        None
    }
}

/// One attack visit's effect: with a focus whose slot holds a healthy
/// entity, the attacker's attack is queued for that entity; without a
/// focus, the first hostile entity in reach is enlisted as the new focus.
pub open spec fn attack_step(
    spawn: Spawn,
    scene: SceneView<GameObjectView>,
    events: Seq<EventHook<AttackView>>,
) -> (SceneView<GameObjectView>, Seq<EventHook<AttackView>>) {
    let me = scene.payloads[spawn.pointer as int];
    if me.focus.list.len() > 0 {
        let other = me.focus.list[0];
        if other.pointer < scene.payloads.len() && scene.payloads[other.pointer as int].health.active {
            (
                scene,
                events.push(
                    EventHook { sender: spawn.pointer, receiver: other.pointer, event: me.attack },
                ),
            )
        } else {
            (scene, events)
        }
    } else {
        match first_hostile(scene.payloads, scene.active, me) {
            Some(found) => if has_pointer(me.focus.list, found.pointer) {
                (scene, events)
            } else {
                (
                    SceneView {
                        payloads: scene.payloads.update(
                            spawn.pointer as int,
                            GameObjectView {
                                focus: FocusView { list: me.focus.list.push(found), ..me.focus },
                                ..me
                            },
                        ),
                        ..scene
                    },
                    events,
                )
            },
            None => (scene, events),
        }
    }
}

/// Lets every focused, armed entity act: with a focus, it sends its attack
/// to the focused entity through the messenger; without one, it looks for a
/// nearby opposing entity to focus on.
pub struct AttackSystem;

impl<F: Factory<GameObject>> System<GameObject, F> for AttackSystem {
    open spec fn applies_view(&self, target: GameObjectView) -> bool {
        target.position.active && target.focus.active && target.attack.active
            && target.agenda.active
    }

    open spec fn update_view(
        &self,
        spawn: Spawn,
        scene: SceneView<GameObjectView>,
        events: Seq<EventHook<AttackView>>,
    ) -> (Self, SceneView<GameObjectView>, Seq<EventHook<AttackView>>) {
        let (scene2, events2) = attack_step(spawn, scene, events);
        (AttackSystem, scene2, events2)
    }

    fn requirements(&self, target: &GameObject) -> (r: bool) {
        target.has_position() && target.has_focus() && target.has_attack() && target.has_agenda()
    }

    fn update(&mut self, spawn: &Spawn, scene: &mut Scene<GameObject, F>, events: &mut Messenger<
        Attack,
    >)
    {
        let ghost pre = *scene;
        let ghost pre_events = events.queue_view();
        let ghost me = pre.payloads()[spawn.pointer as int];
        let target = scene.get_ref(spawn);
        proof {
            assert(target@ == me);
        }
        match target.focus.prime() {
            Some(other) => {
                // attack the first focus: queue the hit for delivery after
                // this pass, so no second exclusive borrow is needed
                if other.pointer < scene.size() {
                    let opponent = scene.get_ref(&other);
                    if opponent.has_health() {
                        let attack = scene.get_ref(spawn).attack.duplicate();
                        proof {
                            assert(attack@ == me.attack);
                        }
                        events.tell(spawn.pointer, other.pointer, attack);
                        proof {
                            assert(events.queue_view() =~~= pre_events.push(
                                EventHook {
                                    sender: spawn.pointer,
                                    receiver: other.pointer,
                                    event: me.attack,
                                },
                            ));
                        }
                    }
                }
            },
            None => {
                // no focus yet: find a nearby opposing entity and take aim
                let faction = target.agenda.faction;
                let position = target.position;
                let is_target = |other: &GameObject| -> (r: bool)
                    ensures
                        r == (other@.damage.active && opposing_factions(
                            faction,
                            other@.agenda.faction,
                        ) && near_positions(position, other@.position, 10)),
                    {
                        other.has_damage() && faction.opposing(&other.agenda.faction)
                            && position.near(&other.position, 10)
                    };
                let found = scene.search_components(is_target);
                proof {
                    crate::scene::lemma_active_in_bounds(*scene);
                    assert(me.agenda.faction == faction && me.position == position);
                    match found {
                        Some(s) => {
                            let i = choose|i: int|
                                0 <= i < scene.active_list().len() && scene.active_list()[i] == s
                                    && call_ensures(
                                    is_target,
                                    (&scene.slots()[s.pointer as int],),
                                    true,
                                ) && (forall|j: int|
                                    0 <= j < i ==> call_ensures(
                                        is_target,
                                        (
                                            &scene.slots()[(#[trigger] scene.active_list()[j]).pointer as int],
                                        ),
                                        false,
                                    ));
                            assert(scene.payloads()[s.pointer as int] == scene.slots()[s.pointer as int]@);
                            assert(hostile_in_reach(me, scene.payloads()[s.pointer as int]));
                            assert forall|j: int| 0 <= j < i implies !hostile_in_reach(
                                me,
                                scene.payloads()[(#[trigger] scene.active_list()[j]).pointer as int],
                            ) by {
                                assert(call_ensures(
                                    is_target,
                                    (&scene.slots()[scene.active_list()[j].pointer as int],),
                                    false,
                                ));
                                assert(scene.payloads()[scene.active_list()[j].pointer as int]
                                    == scene.slots()[scene.active_list()[j].pointer as int]@);
                            }
                            assert(0 <= i < scene.active_list().len() && scene.active_list()[i]
                                == s && hostile_in_reach(me, scene.payloads()[s.pointer as int]) && (
                            forall|j: int|
                                0 <= j < i ==> !hostile_in_reach(
                                    me,
                                    scene.payloads()[(#[trigger] scene.active_list()[j]).pointer as int],
                                )));
                        },
                        None => {
                            assert forall|i: int|
                                0 <= i < scene.active_list().len() implies !hostile_in_reach(
                                me,
                                scene.payloads()[(#[trigger] scene.active_list()[i]).pointer as int],
                            ) by {
                                assert(call_ensures(
                                    is_target,
                                    (&scene.slots()[scene.active_list()[i].pointer as int],),
                                    false,
                                ));
                                assert(scene.payloads()[scene.active_list()[i].pointer as int]
                                    == scene.slots()[scene.active_list()[i].pointer as int]@);
                            }
                        },
                    }
                    lemma_search_is_first_hostile(*scene, me, found);
                }
                match found {
                    Some(found_spawn) => {
                        let payload = scene.get_mut(spawn);
                        payload.focus.add(&found_spawn);
                        proof {
                            if has_pointer(me.focus.list, found_spawn.pointer) {
                                assert(scene.payloads() =~~= pre.payloads());
                            } else {
                                assert(scene.payloads() =~~= pre.payloads().update(
                                    spawn.pointer as int,
                                    GameObjectView {
                                        focus: FocusView {
                                            list: me.focus.list.push(found_spawn),
                                            ..me.focus
                                        },
                                        ..me
                                    },
                                ));
                            }
                        }
                    },
                    None => {},
                }
            },
        }
        proof {
            let (scene2, events2) = attack_step(*spawn, pre.view_state(), pre_events);
            assert(scene.view_state() =~~= scene2);
            assert(events.queue_view() =~~= events2);
        }
    }
}

/// What `AttackSystem`'s target search returns is exactly the first hostile
/// entity in spawn order, as named by `first_hostile`.
proof fn lemma_search_is_first_hostile<F: Factory<GameObject>>(
    scene: Scene<GameObject, F>,
    me: GameObjectView,
    found: Option<Spawn>,
)
    requires
        scene.wf(),
        match found {
            Some(s) => scene.active(s.pointer) && exists|i: int|
                0 <= i < scene.active_list().len() && scene.active_list()[i] == s
                    && hostile_in_reach(me, scene.payloads()[s.pointer as int]) && (forall|j: int|
                    0 <= j < i ==> !hostile_in_reach(
                        me,
                        scene.payloads()[(#[trigger] scene.active_list()[j]).pointer as int],
                    )),
            None => forall|i: int|
                0 <= i < scene.active_list().len() ==> !hostile_in_reach(
                    me,
                    scene.payloads()[(#[trigger] scene.active_list()[i]).pointer as int],
                ),
        },
    ensures
        found == first_hostile(scene.payloads(), scene.active_list(), me),
{
    let payloads = scene.payloads();
    let active = scene.active_list();
    match found {
        Some(s) => {
            let i = choose|i: int|
                0 <= i < active.len() && active[i] == s && hostile_in_reach(
                    me,
                    payloads[s.pointer as int],
                ) && (forall|j: int|
                    0 <= j < i ==> !hostile_in_reach(
                        me,
                        payloads[(#[trigger] active[j]).pointer as int],
                    ));
            assert(hostile_in_reach(me, payloads[(active[i]).pointer as int]));
            let c = choose|c: int|
                0 <= c < active.len() && hostile_in_reach(
                    me,
                    payloads[(#[trigger] active[c]).pointer as int],
                ) && (forall|j: int|
                    0 <= j < c ==> !hostile_in_reach(
                        me,
                        payloads[(#[trigger] active[j]).pointer as int],
                    ));
            // the first matching index is unique, so the named first target
            // is exactly the found handle
            if c < i {
                assert(!hostile_in_reach(me, payloads[(active[c]).pointer as int]));
            } else if i < c {
                assert(!hostile_in_reach(me, payloads[(active[i]).pointer as int]));
            }
            assert(c == i);
        },
        None => {
            assert(first_hostile(payloads, active, me) is None);
        },
    }
}

/// The power one queued attack delivers through one defense.
pub open spec fn resolved_hit(defense: DefenseView, attack: AttackView) -> u32 {
    if defense.active {
        resolved_power(defense.blockers, attack.weapon.impact, attack.weapon.power)
    } else {
        attack_power(attack)
    }
}

/// Draining a damage queue: each queued attack, oldest first, is resolved
/// through the defense and taken out of the hit points.
pub open spec fn drained_health(health: Health, defense: DefenseView, queue: Seq<AttackView>) -> Health
    decreases queue.len(),
{
    if queue.len() == 0 {
        health
    } else {
        drained_health(damaged(health, resolved_hit(defense, queue[0])), defense, queue.drop_first())
    }
}

/// One damage visit's effect: the whole incoming queue is drained into the
/// hit points and left empty.
pub open spec fn drained(v: GameObjectView) -> GameObjectView {
    GameObjectView {
        health: drained_health(v.health, v.defense, v.damage.incoming),
        damage: DamageView { incoming: Seq::empty(), ..v.damage },
        ..v
    }
}

/// Drains every damaged entity's incoming attack queue, resolving each
/// attack through its defense (when one is active) and taking the rest out
/// of its hit points.
pub struct DamageSystem;

impl<F: Factory<GameObject>> System<GameObject, F> for DamageSystem {
    open spec fn applies_view(&self, target: GameObjectView) -> bool {
        target.health.active && target.damage.active
    }

    open spec fn update_view(
        &self,
        spawn: Spawn,
        scene: SceneView<GameObjectView>,
        events: Seq<EventHook<AttackView>>,
    ) -> (Self, SceneView<GameObjectView>, Seq<EventHook<AttackView>>) {
        (
            DamageSystem,
            SceneView {
                payloads: scene.payloads.update(
                    spawn.pointer as int,
                    drained(scene.payloads[spawn.pointer as int]),
                ),
                ..scene
            },
            events,
        )
    }

    fn requirements(&self, target: &GameObject) -> (r: bool) {
        target.has_health() && target.has_damage()
    }

    fn update(&mut self, spawn: &Spawn, scene: &mut Scene<GameObject, F>, events: &mut Messenger<
        Attack,
    >)
    {
        let ghost pre = *scene;
        let ghost orig = pre.payloads()[spawn.pointer as int];
        let pending = scene.get_ref(spawn).damage.pending();
        let mut i: usize = 0;
        proof {
            assert(scene.payloads()[spawn.pointer as int] == scene.slots()[spawn.pointer as int]@);
            assert(orig.damage.incoming.skip(0) =~= orig.damage.incoming);
            assert(scene.payloads() =~~= pre.payloads().update(
                spawn.pointer as int,
                scene.payloads()[spawn.pointer as int],
            ));
            assert(scene.payloads()[spawn.pointer as int] =~~= (GameObjectView {
                health: scene.payloads()[spawn.pointer as int].health,
                damage: DamageView { incoming: orig.damage.incoming.skip(0), ..orig.damage },
                ..orig
            }));
        }
        while i < pending
            invariant
                scene.wf(),
                scene.capacity() == pre.capacity(),
                scene.num_groups() == pre.num_groups(),
                scene.handles() == pre.handles(),
                scene.free_list() == pre.free_list(),
                scene.active_list() == pre.active_list(),
                scene.buckets() == pre.buckets(),
                scene.factory_list() == pre.factory_list(),
                spawn.pointer < pre.capacity(),
                i <= pending,
                orig == pre.payloads()[spawn.pointer as int],
                pending == orig.damage.incoming.len(),
                scene.payloads() == pre.payloads().update(
                    spawn.pointer as int,
                    scene.payloads()[spawn.pointer as int],
                ),
                scene.payloads()[spawn.pointer as int] == (GameObjectView {
                    health: scene.payloads()[spawn.pointer as int].health,
                    damage: DamageView {
                        incoming: orig.damage.incoming.skip(i as int),
                        ..orig.damage
                    },
                    ..orig
                }),
                drained_health(
                    scene.payloads()[spawn.pointer as int].health,
                    orig.defense,
                    orig.damage.incoming.skip(i as int),
                ) == drained_health(orig.health, orig.defense, orig.damage.incoming),
            decreases pending - i,
        {
            proof {
                assert(scene.payloads()[spawn.pointer as int] == scene.slots()[spawn.pointer as int]@);
                assert(orig.damage.incoming.skip(i as int)[0] == orig.damage.incoming[i as int]);
                assert(orig.damage.incoming.skip(i as int).drop_first()
                    =~= orig.damage.incoming.skip(i as int + 1));
            }
            let ghost step_start = *scene;
            let payload = scene.get_mut(spawn);
            match payload.damage.next_attack() {
                Some(attack) => {
                    let power = if *payload.defense.is_active() {
                        payload.defense.resolve_attack(&attack)
                    } else {
                        attack.power()
                    };
                    proof {
                        assert(power == resolved_hit(orig.defense, orig.damage.incoming[i as int]));
                    }
                    payload.health.damage(power);
                },
                None => {
                    proof {
                        assert(false);
                    }
                },
            }
            proof {
                assert(scene.payloads()[spawn.pointer as int] == scene.slots()[spawn.pointer as int]@);
                assert(scene.payloads() =~~= step_start.payloads().update(
                    spawn.pointer as int,
                    scene.payloads()[spawn.pointer as int],
                ));
                assert(scene.payloads() =~~= pre.payloads().update(
                    spawn.pointer as int,
                    scene.payloads()[spawn.pointer as int],
                ));
                assert(scene.payloads()[spawn.pointer as int] =~~= (GameObjectView {
                    health: scene.payloads()[spawn.pointer as int].health,
                    damage: DamageView {
                        incoming: orig.damage.incoming.skip(i as int + 1),
                        ..orig.damage
                    },
                    ..orig
                }));
            }
            i += 1;
        }
        proof {
            assert(orig.damage.incoming.skip(pending as int)
                =~= Seq::<AttackView>::empty());
            assert(scene.payloads()[spawn.pointer as int] =~~= drained(orig));
            assert(scene.payloads() =~~= pre.payloads().update(spawn.pointer as int, drained(orig)));
            assert(scene.view_state() =~~= (SceneView {
                payloads: pre.payloads().update(spawn.pointer as int, drained(orig)),
                ..pre.view_state()
            }));
        }
    }
}

} // verus!
