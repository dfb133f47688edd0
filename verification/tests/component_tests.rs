//! Component-level behaviour: health arithmetic, focus bookkeeping, weapon
//! data, defense resolution, factions, positions and the handle types.

use ecs::entities::Entity as EntityRecord;
use ecs::example::components::{
    Affliction, Attack, Damage, Defense, Faction, Focus, GameObject, Health, Impact,
    ImmunityFactor, ImpactProtection, Movement, Position, Weapon,
};
use ecs::spawns::{Name, Spawn};
use ecs::types::{Component, Components, Entity};

fn handle(pointer: usize) -> Spawn {
    Spawn { pointer, group: 0, name: Name::blank() }
}

#[test]
fn health_heals_up_to_the_maximum() {
    let mut health = Health::from_hp(10);
    health.damage(3);
    assert_eq!(health.current_hp, 7);
    health.heal(2);
    assert_eq!(health.current_hp, 9);
    health.heal(50);
    assert_eq!(health.current_hp, 10);
    health.damage(99);
    assert_eq!(health.current_hp, 0);
    assert_eq!(health.max_hp, 10);
}

#[test]
fn focus_enlists_each_pointer_once() {
    let mut focus = Focus::new();
    assert_eq!(focus.count(), 0);
    assert!(focus.prime().is_none());
    focus.add(&handle(4));
    focus.add(&handle(7));
    // a pointer already enlisted is not pushed again
    focus.add(&handle(4));
    assert_eq!(focus.count(), 2);
    assert_eq!(focus.prime().unwrap().pointer, 4);
    assert_eq!(focus.enlisted(&handle(7)), Some(1));
    assert_eq!(focus.enlisted(&handle(9)), None);
    focus.remove(&handle(4));
    assert_eq!(focus.count(), 1);
    assert_eq!(focus.prime().unwrap().pointer, 7);
    // removing an absent pointer changes nothing
    focus.remove(&handle(4));
    assert_eq!(focus.count(), 1);
}

#[test]
fn weapons_carry_their_stats() {
    let rifle = Weapon::rifle();
    assert_eq!(rifle.power, 4);
    assert_eq!(rifle.range, 60);
    assert!(matches!(rifle.impact, Impact::Piercing));
    assert!(rifle.effects.is_empty());

    let baton = Weapon::baton();
    assert_eq!(baton.power, 2);
    assert_eq!(baton.effects.len(), 1);
    assert!(matches!(baton.effects[0], Affliction::Dazzled));

    let mut fists = Weapon::fists();
    fists.add_effect(Affliction::Wounded);
    assert_eq!(fists.effects.len(), 1);

    assert_eq!(Weapon::handgun().power, 3);
    assert_eq!(Weapon::shotgun().power, 5);
    assert_eq!(Weapon::spear().power, 3);
    assert_eq!(Weapon::needle().power, 0);
    assert_eq!(Weapon::mortar().power, 5);
    assert_eq!(Weapon::canon().power, 8);
    assert_eq!(Weapon::missle().power, 10);
    assert_eq!(Weapon::mine().power, 5);
    assert_eq!(Weapon::rapier().power, 4);
    assert_eq!(Weapon::provoke().power, 0);
    assert_eq!(Weapon::smart_remarks().power, 0);
    assert_eq!(Weapon::intamidation().power, 0);
}

#[test]
fn attack_power_adds_skill() {
    let attack = Attack { active: true, weapon: Weapon::rifle(), skill: 1, range: 10 };
    assert_eq!(attack.power(), 5);
    let capped = Attack { active: true, weapon: Weapon::rifle(), skill: u32::MAX, range: 10 };
    assert_eq!(capped.power(), u32::MAX);
}

#[test]
fn defense_resolves_matching_blockers_in_order() {
    let mut blockers = Vec::new();
    blockers.push(ImpactProtection {
        against: Impact::Bashing,
        immunity_factor: ImmunityFactor::Half,
        reduction: 1,
    });
    let defense = Defense::from_blockers(blockers);
    let bash = Attack { active: true, weapon: Weapon::baton(), skill: 0, range: 0 };
    // baton power 2, halved to 1, reduced by 1
    assert_eq!(defense.resolve_attack(&bash), 0);
    let mut strong = Attack { active: true, weapon: Weapon::baton(), skill: 0, range: 0 };
    strong.weapon.power = 9;
    // 9 halved (truncating) to 4, reduced by 1
    assert_eq!(defense.resolve_attack(&strong), 3);
    // a non-matching impact passes through untouched
    let pierce = Attack { active: true, weapon: Weapon::rifle(), skill: 0, range: 0 };
    assert_eq!(defense.resolve_attack(&pierce), 4);
}

#[test]
fn immunity_factors() {
    assert_eq!(ImmunityFactor::Zero.apply(9), 9);
    assert_eq!(ImmunityFactor::Half.apply(9), 4);
    assert_eq!(ImmunityFactor::Full.apply(9), 0);
}

#[test]
fn damage_queue_is_first_in_first_out() {
    let mut damage = Damage::new();
    assert_eq!(damage.pending(), 0);
    assert!(damage.next_attack().is_none());
    let first = Attack { active: true, weapon: Weapon::fists(), skill: 0, range: 0 };
    let second = Attack { active: true, weapon: Weapon::rifle(), skill: 0, range: 0 };
    damage.take_damage(first);
    damage.take_damage(second);
    assert_eq!(damage.pending(), 2);
    assert_eq!(damage.next_attack().unwrap().weapon.power, 1);
    assert_eq!(damage.next_attack().unwrap().weapon.power, 4);
    assert!(damage.next_attack().is_none());
}

#[test]
fn factions_oppose_only_taken_sides() {
    assert!(Faction::Red.opposing(&Faction::Bleu));
    assert!(Faction::Bleu.opposing(&Faction::Red));
    assert!(!Faction::Red.opposing(&Faction::Red));
    assert!(!Faction::Neutral.opposing(&Faction::Red));
    assert!(!Faction::Red.opposing(&Faction::Neutral));
    assert!(!Faction::Neutral.opposing(&Faction::Neutral));
}

#[test]
fn positions_near_window() {
    let here = Position { active: true, x: 0, y: 0 };
    let close = Position { active: true, x: 3, y: -4 };
    let far = Position { active: true, x: 30, y: 0 };
    assert!(here.near(&close, 10));
    assert!(!here.near(&close, 2));
    assert!(!here.near(&far, 10));
}

#[test]
fn movement_carries_speed() {
    let movement = Movement::from_speed(7);
    assert!(movement.active);
    assert_eq!(*movement.speed(), 7);
}

#[test]
fn game_object_component_flags() {
    let base = GameObject::base();
    assert!(!base.has_position());
    assert!(!base.has_health());
    let mut object = GameObject::base();
    object.position.set_active(true);
    object.health = Health::from_hp(5);
    assert!(object.has_position());
    assert!(object.has_health());
    assert!(!object.has_carry());
    let copy = object.duplicate();
    assert!(copy.has_position());
    assert_eq!(copy.health.current_hp, 5);
}

#[test]
fn game_object_queues_incoming_attacks() {
    let mut object = GameObject::base();
    object.damage.set_active(true);
    let hit = Attack { active: true, weapon: Weapon::fists(), skill: 0, range: 0 };
    object.event_handler(hit, 3);
    assert_eq!(object.damage.pending(), 1);
    // with the queue inactive the attack is shrugged off
    let mut armored = GameObject::base();
    let hit2 = Attack { active: true, weapon: Weapon::fists(), skill: 0, range: 0 };
    armored.event_handler(hit2, 3);
    assert_eq!(armored.damage.pending(), 0);
}

#[test]
fn names_compare_by_padded_bytes() {
    let a = Name::from_str("alpha");
    let b = Name::from_str("alpha");
    let c = Name::from_str("beta");
    assert!(a.same(&b));
    assert!(!a.same(&c));
    assert_eq!(a.bytes()[0], b'a');
    assert_eq!(a.bytes()[5], 0);
    // truncation keeps the first 16 bytes only
    let long = Name::from_str("0123456789abcdefXYZ");
    let cut = Name::from_str("0123456789abcdef");
    assert!(long.same(&cut));
}

#[test]
fn spawn_handles_compare_by_pointer() {
    let mut a = handle(3);
    let b = Spawn { pointer: 3, group: 9, name: Name::from_str("other") };
    let c = handle(4);
    assert!(a == b);
    assert!(a != c);
    a.new_name("renamed");
    assert_eq!(*a.pointer(), 3);
    assert_eq!(*a.group(), 0);
    assert!(a.name().same(&Name::from_str("renamed")));
}

#[test]
fn entity_records_hold_name_and_pointer() {
    let mut record = EntityRecord::new(String::from("scout"), 5, 42u32);
    assert_eq!(record.name(), "scout");
    assert_eq!(record.pointer(), 5);
    assert_eq!(record.components, 42);
    record.change_name("ranger");
    assert_eq!(record.name(), "ranger");
}
