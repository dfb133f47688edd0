//! The example unit factories: soldiers and trucks, one group each.
//!
//! Registration order fixes group ids, and each factory claims its group:
//! soldiers are group 0, trucks group 1. `Unit` wraps the two so one engine
//! can register both behind a single factory type.

use vstd::prelude::*;

use crate::example::components::{
    Afflictions, Agenda, Attack, AttackView, Carry, CarryView, Damage, DamageView, Defense,
    DefenseView, Faction, Focus, FocusView, GameObject, GameObjectView, Health, Impact,
    ImmunityFactor, ImpactProtection, Movement, Position, Resist, Weapon, WeaponView,
};
use crate::spawns::{Group, Spawn};
use crate::types::{Component, Factory};

verus! {

/// The group ids the example units spawn under.
pub enum Unit {
    Soldier(Soldier),
    Truck(Truck),
}

/// The payload a soldier factory builds: a slow, armed, rifle-carrying
/// unit of ten hit points.
pub open spec fn soldier_payload() -> GameObjectView {
    GameObjectView {
        position: Position { active: true, x: 0, y: 0 },
        agenda: Agenda { active: true, faction: Faction::Neutral },
        movement: Movement { active: true, speed: 1, move_to: None },
        health: Health { active: true, current_hp: 10, max_hp: 10 },
        focus: FocusView { active: true, list: Seq::empty() },
        attack: AttackView {
            active: true,
            weapon: WeaponView {
                impact: Impact::Piercing,
                effects: Seq::empty(),
                power: 4,
                range: 60,
            },
            skill: 1,
            range: 10,
        },
        damage: DamageView { active: true, incoming: Seq::empty() },
        defense: DefenseView {
            active: true,
            blockers: seq![
                ImpactProtection {
                    against: Impact::Bashing,
                    immunity_factor: ImmunityFactor::Zero,
                    reduction: 1,
                },
            ],
        },
        resist: <Resist as Component>::fresh_view(),
        afflictions: <Afflictions as Component>::fresh_view(),
        carry: <Carry as Component>::fresh_view(),
    }
}

/// The payload a truck factory builds: a fast, unarmed carrier of thirty
/// hit points.
pub open spec fn truck_payload() -> GameObjectView {
    GameObjectView {
        position: Position { active: true, x: 0, y: 0 },
        agenda: Agenda { active: true, faction: Faction::Neutral },
        movement: Movement { active: true, speed: 2, move_to: None },
        health: Health { active: true, current_hp: 30, max_hp: 30 },
        focus: FocusView { active: true, list: Seq::empty() },
        attack: <Attack as Component>::fresh_view(),
        damage: DamageView { active: true, incoming: Seq::empty() },
        defense: DefenseView {
            active: true,
            blockers: seq![
                ImpactProtection {
                    against: Impact::Bashing,
                    immunity_factor: ImmunityFactor::Zero,
                    reduction: 1,
                },
            ],
        },
        resist: <Resist as Component>::fresh_view(),
        afflictions: <Afflictions as Component>::fresh_view(),
        carry: CarryView { active: true, spawns: Seq::empty() },
    }
}

/// Builds soldiers for group 0.
pub struct Soldier {
    group: Group,
}

impl Soldier {
    /// A soldier factory, claiming group 0.
    pub fn new() -> (r: Self)
        ensures
            r.group_view() == 0,
    {
        Soldier { group: 0 }
    }
}

impl Factory<GameObject> for Soldier {
    closed spec fn group_view(&self) -> Group {
        self.group
    }

    open spec fn build_view(&self, spawn: Spawn) -> GameObjectView {
        soldier_payload()
    }

    fn group(&self) -> (g: Group)
        ensures
            g == self.group_view(),
    {
        self.group
    }

    fn build(&self, spawn: &Spawn) -> (r: GameObject)
        ensures
            r@ == self.build_view(*spawn),
    {
        let mut blockers: Vec<ImpactProtection> = Vec::new();
        blockers.push(
            ImpactProtection {
                against: Impact::Bashing,
                immunity_factor: ImmunityFactor::Zero,
                reduction: 1,
            },
        );
        let object = GameObject {
            position: Position::active(),
            agenda: Agenda::active(),
            movement: Movement::from_speed(1),
            health: Health::from_hp(10),
            focus: Focus::new(),
            attack: Attack { active: true, weapon: Weapon::rifle(), skill: 1, range: 10 },
            damage: Damage::new(),
            defense: Defense::from_blockers(blockers),
            resist: Resist::inactive(),
            afflictions: Afflictions::inactive(),
            carry: Carry::inactive(),
        };
        proof {
            assert(object@ =~~= soldier_payload());
        }
        object
    }
}

/// Builds trucks for group 1.
pub struct Truck {
    group: Group,
}

impl Truck {
    /// A truck factory, claiming group 1.
    pub fn new() -> (r: Self)
        ensures
            r.group_view() == 1,
    {
        Truck { group: 1 }
    }
}

impl Factory<GameObject> for Truck {
    closed spec fn group_view(&self) -> Group {
        self.group
    }

    open spec fn build_view(&self, spawn: Spawn) -> GameObjectView {
        truck_payload()
    }

    fn group(&self) -> (g: Group)
        ensures
            g == self.group_view(),
    {
        self.group
    }

    fn build(&self, spawn: &Spawn) -> (r: GameObject)
        ensures
            r@ == self.build_view(*spawn),
    {
        let mut blockers: Vec<ImpactProtection> = Vec::new();
        blockers.push(
            ImpactProtection {
                against: Impact::Bashing,
                immunity_factor: ImmunityFactor::Zero,
                reduction: 1,
            },
        );
        let object = GameObject {
            position: Position::active(),
            agenda: Agenda::active(),
            movement: Movement::from_speed(2),
            health: Health::from_hp(30),
            focus: Focus::active(),
            attack: Attack::inactive(),
            damage: Damage::new(),
            defense: Defense::from_blockers(blockers),
            resist: Resist::inactive(),
            afflictions: Afflictions::inactive(),
            carry: Carry::active(),
        };
        proof {
            assert(object@ =~~= truck_payload());
        }
        object
    }
}

impl Factory<GameObject> for Unit {
    open spec fn group_view(&self) -> Group {
        match self {
            Unit::Soldier(f) => f.group_view(),
            Unit::Truck(f) => f.group_view(),
        }
    }

    open spec fn build_view(&self, spawn: Spawn) -> GameObjectView {
        match self {
            Unit::Soldier(f) => f.build_view(spawn),
            Unit::Truck(f) => f.build_view(spawn),
        }
    }

    fn group(&self) -> (g: Group)
        ensures
            g == self.group_view(),
    {
        match self {
            Unit::Soldier(f) => Factory::<GameObject>::group(f),
            Unit::Truck(f) => Factory::<GameObject>::group(f),
        }
    }

    fn build(&self, spawn: &Spawn) -> (r: GameObject)
        ensures
            r@ == self.build_view(*spawn),
    {
        match self {
            Unit::Soldier(f) => f.build(spawn),
            Unit::Truck(f) => f.build(spawn),
        }
    }
}

} // verus!
