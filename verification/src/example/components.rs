//! The example component set: positions, movement, health, focus, attacks,
//! damage queues, defenses and factions, all over plain integers.
//!
//! Each component carries an active flag; a payload owns one component of
//! each kind and a component counts only when its flag is set. Components
//! holding lists view them as sequences, so every operation's contract can
//! say exactly what it does to them.

use vstd::prelude::*;

use crate::spawns::{has_pointer, Spawn};
use crate::types::{Component, Components, Entity};

verus! {

// --- impact, afflictions and protection factors ---

/// The kind of impact a weapon deals.
#[derive(Clone, Copy, Debug, PartialEq, Eq, Structural)]
pub enum Impact {
    Bashing,
    Piercing,
    Cutting,
    Exploding,
    Mental,
}

impl Default for Impact {
    fn default() -> (r: Self)
        ensures
            r == Impact::Bashing,
    {
        Impact::Bashing
    }
}

/// A lasting effect an attack can leave behind.
#[derive(Clone, Copy, Debug, PartialEq, Eq, Structural)]
pub enum Affliction {
    Annoyed,
    Confused,
    Dazzled,
    Scared,
    Wounded,
    Burning,
    Freezing,
    Melting,
    Poisoned,
    Diseased,
}

impl Default for Affliction {
    fn default() -> (r: Self)
        ensures
            r == Affliction::Annoyed,
    {
        Affliction::Annoyed
    }
}

/// How much of an impact a protection soaks up: nothing, half, or all.
#[derive(Clone, Copy, Debug, PartialEq, Eq, Structural)]
pub enum ImmunityFactor {
    Zero,
    Half,
    Full,
}

impl Default for ImmunityFactor {
    fn default() -> (r: Self)
        ensures
            r == ImmunityFactor::Zero,
    {
        ImmunityFactor::Zero
    }
}

/// What remains of an attack's power after one immunity factor.
pub open spec fn factor_applied(factor: ImmunityFactor, power: u32) -> u32 {
    match factor {
        ImmunityFactor::Zero => power,
        ImmunityFactor::Half => (power / 2) as u32,
        ImmunityFactor::Full => 0u32,
    }
}

impl ImmunityFactor {
    /// Applies this factor to an attack's power.
    pub fn apply(&self, power: u32) -> (r: u32)
        ensures
            r == factor_applied(*self, power),
    {
        match self {
            ImmunityFactor::Zero => power,
            ImmunityFactor::Half => power / 2,
            ImmunityFactor::Full => 0,
        }
    }
}

/// Protection against one kind of impact: a factor and a flat reduction.
#[derive(Clone, Copy, Debug, PartialEq, Eq, Structural)]
pub struct ImpactProtection {
    pub against: Impact,
    pub immunity_factor: ImmunityFactor,
    pub reduction: u32,
}

/// Protection against one affliction: a factor and a flat reduction.
#[derive(Clone, Copy, Debug, PartialEq, Eq, Structural)]
pub struct AfflictionProtection {
    pub against: Affliction,
    pub immunity_factor: ImmunityFactor,
    pub reduction: u32,
}

// --- weapons and attacks ---

/// The view of a weapon: its effects as a sequence.
#[verifier::ext_equal]
pub struct WeaponView {
    pub impact: Impact,
    pub effects: Seq<Affliction>,
    pub power: u32,
    pub range: u32,
}

/// A weapon: an impact kind, the afflictions it can leave, its power and
/// its reach.
#[derive(Clone, Debug)]
pub struct Weapon {
    pub impact: Impact,
    pub effects: Vec<Affliction>,
    pub power: u32,
    pub range: u32,
}

impl View for Weapon {
    type V = WeaponView;

    open spec fn view(&self) -> WeaponView {
        WeaponView {
            impact: self.impact,
            effects: self.effects@,
            power: self.power,
            range: self.range,
        }
    }
}

impl Weapon {
    /// Adds one more affliction to the weapon's effects.
    pub fn add_effect(&mut self, affliction: Affliction)
        ensures
            final(self)@ == (WeaponView { effects: old(self)@.effects.push(affliction), ..old(self)@ }),
    {
        self.effects.push(affliction)
    }

    /// An identical weapon.
    pub fn duplicate(&self) -> (r: Weapon)
        ensures
            r@ == self@,
    {
        let mut effects: Vec<Affliction> = Vec::new();
        let mut i: usize = 0;
        while i < self.effects.len()
            invariant
                i <= self.effects@.len(),
                effects@ == self.effects@.subrange(0, i as int),
            decreases self.effects@.len() - i,
        {
            effects.push(self.effects[i]);
            i += 1;
        }
        proof {
            assert(effects@ =~= self.effects@);
        }
        Weapon { impact: self.impact, effects, power: self.power, range: self.range }
    }

    pub fn provoke() -> (r: Self)
        ensures
            r@ == (WeaponView {
                impact: Impact::Mental,
                effects: seq![Affliction::Annoyed],
                power: 0,
                range: 10,
            }),
    {
        let mut effects: Vec<Affliction> = Vec::new();
        effects.push(Affliction::Annoyed);
        proof {
            assert(effects@ =~= seq![Affliction::Annoyed]);
        }
        Weapon { impact: Impact::Mental, effects, power: 0, range: 10 }
    }

    pub fn smart_remarks() -> (r: Self)
        ensures
            r@ == (WeaponView {
                impact: Impact::Mental,
                effects: seq![Affliction::Confused],
                power: 0,
                range: 10,
            }),
    {
        let mut effects: Vec<Affliction> = Vec::new();
        effects.push(Affliction::Confused);
        proof {
            assert(effects@ =~= seq![Affliction::Confused]);
        }
        Weapon { impact: Impact::Mental, effects, power: 0, range: 10 }
    }

    pub fn intamidation() -> (r: Self)
        ensures
            r@ == (WeaponView {
                impact: Impact::Mental,
                effects: seq![Affliction::Scared],
                power: 0,
                range: 10,
            }),
    {
        let mut effects: Vec<Affliction> = Vec::new();
        effects.push(Affliction::Scared);
        proof {
            assert(effects@ =~= seq![Affliction::Scared]);
        }
        Weapon { impact: Impact::Mental, effects, power: 0, range: 10 }
    }

    pub fn handgun() -> (r: Self)
        ensures
            r@ == (WeaponView {
                impact: Impact::Piercing,
                effects: Seq::empty(),
                power: 3,
                range: 40,
            }),
    {
        Weapon { impact: Impact::Piercing, effects: Vec::new(), power: 3, range: 40 }
    }

    pub fn shotgun() -> (r: Self)
        ensures
            r@ == (WeaponView {
                impact: Impact::Piercing,
                effects: Seq::empty(),
                power: 5,
                range: 20,
            }),
    {
        Weapon { impact: Impact::Piercing, effects: Vec::new(), power: 5, range: 20 }
    }

    pub fn rifle() -> (r: Self)
        ensures
            r@ == (WeaponView {
                impact: Impact::Piercing,
                effects: Seq::empty(),
                power: 4,
                range: 60,
            }),
    {
        Weapon { impact: Impact::Piercing, effects: Vec::new(), power: 4, range: 60 }
    }

    pub fn fists() -> (r: Self)
        ensures
            r@ == (WeaponView {
                impact: Impact::Bashing,
                effects: Seq::empty(),
                power: 1,
                range: 0,
            }),
    {
        Weapon { impact: Impact::Bashing, effects: Vec::new(), power: 1, range: 0 }
    }

    pub fn baton() -> (r: Self)
        ensures
            r@ == (WeaponView {
                impact: Impact::Bashing,
                effects: seq![Affliction::Dazzled],
                power: 2,
                range: 0,
            }),
    {
        let mut effects: Vec<Affliction> = Vec::new();
        effects.push(Affliction::Dazzled);
        proof {
            assert(effects@ =~= seq![Affliction::Dazzled]);
        }
        Weapon { impact: Impact::Bashing, effects, power: 2, range: 0 }
    }

    pub fn rapier() -> (r: Self)
        ensures
            r@ == (WeaponView {
                impact: Impact::Cutting,
                effects: seq![Affliction::Wounded],
                power: 4,
                range: 5,
            }),
    {
        let mut effects: Vec<Affliction> = Vec::new();
        effects.push(Affliction::Wounded);
        proof {
            assert(effects@ =~= seq![Affliction::Wounded]);
        }
        Weapon { impact: Impact::Cutting, effects, power: 4, range: 5 }
    }

    pub fn spear() -> (r: Self)
        ensures
            r@ == (WeaponView {
                impact: Impact::Piercing,
                effects: Seq::empty(),
                power: 3,
                range: 10,
            }),
    {
        Weapon { impact: Impact::Piercing, effects: Vec::new(), power: 3, range: 10 }
    }

    pub fn needle() -> (r: Self)
        ensures
            r@ == (WeaponView {
                impact: Impact::Piercing,
                effects: seq![Affliction::Poisoned],
                power: 0,
                range: 0,
            }),
    {
        let mut effects: Vec<Affliction> = Vec::new();
        effects.push(Affliction::Poisoned);
        proof {
            assert(effects@ =~= seq![Affliction::Poisoned]);
        }
        Weapon { impact: Impact::Piercing, effects, power: 0, range: 0 }
    }

    pub fn mortar() -> (r: Self)
        ensures
            r@ == (WeaponView {
                impact: Impact::Piercing,
                effects: seq![Affliction::Burning],
                power: 5,
                range: 40,
            }),
    {
        let mut effects: Vec<Affliction> = Vec::new();
        effects.push(Affliction::Burning);
        proof {
            assert(effects@ =~= seq![Affliction::Burning]);
        }
        Weapon { impact: Impact::Piercing, effects, power: 5, range: 40 }
    }

    pub fn canon() -> (r: Self)
        ensures
            r@ == (WeaponView {
                impact: Impact::Piercing,
                effects: seq![Affliction::Burning],
                power: 8,
                range: 60,
            }),
    {
        let mut effects: Vec<Affliction> = Vec::new();
        effects.push(Affliction::Burning);
        proof {
            assert(effects@ =~= seq![Affliction::Burning]);
        }
        Weapon { impact: Impact::Piercing, effects, power: 8, range: 60 }
    }

    pub fn missle() -> (r: Self)
        ensures
            r@ == (WeaponView {
                impact: Impact::Piercing,
                effects: seq![Affliction::Burning],
                power: 10,
                range: 100,
            }),
    {
        let mut effects: Vec<Affliction> = Vec::new();
        effects.push(Affliction::Burning);
        proof {
            assert(effects@ =~= seq![Affliction::Burning]);
        }
        Weapon { impact: Impact::Piercing, effects, power: 10, range: 100 }
    }

    pub fn mine() -> (r: Self)
        ensures
            r@ == (WeaponView {
                impact: Impact::Piercing,
                effects: seq![Affliction::Burning],
                power: 5,
                range: 0,
            }),
    {
        let mut effects: Vec<Affliction> = Vec::new();
        effects.push(Affliction::Burning);
        proof {
            assert(effects@ =~= seq![Affliction::Burning]);
        }
        Weapon { impact: Impact::Piercing, effects, power: 5, range: 0 }
    }
}

impl Default for Weapon {
    fn default() -> (r: Self)
        ensures
            r@ == (WeaponView {
                impact: Impact::Bashing,
                effects: Seq::empty(),
                power: 0,
                range: 0,
            }),
    {
        Weapon { impact: Impact::Bashing, effects: Vec::new(), power: 0, range: 0 }
    }
}

/// The view of an attack.
#[verifier::ext_equal]
pub struct AttackView {
    pub active: bool,
    pub weapon: WeaponView,
    pub skill: u32,
    pub range: u32,
}

/// An attack: a weapon wielded with some skill at some range.
#[derive(Clone, Debug)]
pub struct Attack {
    pub active: bool,
    pub weapon: Weapon,
    pub skill: u32,
    pub range: u32,
}

impl View for Attack {
    type V = AttackView;

    open spec fn view(&self) -> AttackView {
        AttackView {
            active: self.active,
            weapon: self.weapon@,
            skill: self.skill,
            range: self.range,
        }
    }
}

/// The power an attack delivers: weapon power plus skill, capped at the
/// integer's range.
pub open spec fn attack_power(v: AttackView) -> u32 {
    if v.weapon.power + v.skill <= u32::MAX {
        (v.weapon.power + v.skill) as u32
    } else {
        u32::MAX
    }
}

impl Attack {
    /// The power this attack delivers before any defense.
    pub fn power(&self) -> (r: u32)
        ensures
            r == attack_power(self@),
    {
        if self.weapon.power <= u32::MAX - self.skill {
            self.weapon.power + self.skill
        } else {
            u32::MAX
        }
    }

    /// An identical attack.
    pub fn duplicate(&self) -> (r: Attack)
        ensures
            r@ == self@,
    {
        Attack {
            active: self.active,
            weapon: self.weapon.duplicate(),
            skill: self.skill,
            range: self.range,
        }
    }
}

impl Default for Attack {
    fn default() -> (r: Self)
        ensures
            r@ == (AttackView {
                active: false,
                weapon: WeaponView {
                    impact: Impact::Bashing,
                    effects: Seq::empty(),
                    power: 0,
                    range: 0,
                },
                skill: 0,
                range: 0,
            }),
    {
        Attack { active: false, weapon: Weapon::default(), skill: 0, range: 0 }
    }
}

impl Component for Attack {
    open spec fn flag_view(v: AttackView) -> bool {
        v.active
    }

    open spec fn with_active(v: AttackView, activate: bool) -> AttackView {
        AttackView { active: activate, ..v }
    }

    open spec fn fresh_view() -> AttackView {
        AttackView {
            active: false,
            weapon: WeaponView {
                impact: Impact::Bashing,
                effects: Seq::empty(),
                power: 0,
                range: 0,
            },
            skill: 0,
            range: 0,
        }
    }

    fn fresh() -> (r: Self)
        ensures
            r@ == Self::fresh_view(),
    {
        Attack::default()
    }

    fn set_active(&mut self, activate: bool)
        ensures
            final(self)@ == Self::with_active(old(self)@, activate),
            Self::flag_view(final(self)@) == activate,
    {
        self.active = activate;
    }

    fn is_active(&self) -> (r: &bool)
        ensures
            *r == Self::flag_view(self@),
    {
        &self.active
    }
}

// --- movement and position ---

/// A position on the playing field.
#[derive(Clone, Copy, Debug, PartialEq, Eq, Structural)]
pub struct Position {
    pub active: bool,
    pub x: i64,
    pub y: i64,
}

impl View for Position {
    type V = Position;

    open spec fn view(&self) -> Position {
        *self
    }
}

/// Whether two positions are within a square window of the given radius of
/// one another, on both axes at once.
pub open spec fn near_positions(a: Position, b: Position, range: u32) -> bool {
    &&& -(range as int) <= a.x - b.x <= range as int
    &&& -(range as int) <= a.y - b.y <= range as int
}

impl Position {
    /// Whether another position lies within the square window of the given
    /// radius around this one.
    pub fn near(&self, other: &Position, range: u32) -> (r: bool)
        ensures
            r == near_positions(*self, *other, range),
    {
        let dx: i128 = (self.x as i128) - (other.x as i128);
        let dy: i128 = (self.y as i128) - (other.y as i128);
        let range_wide: i128 = range as i128;
        -range_wide <= dx && dx <= range_wide && -range_wide <= dy && dy <= range_wide
    }
}

impl Default for Position {
    fn default() -> (r: Self)
        ensures
            r == (Position { active: false, x: 0, y: 0 }),
    {
        Position { active: false, x: 0, y: 0 }
    }
}

impl Component for Position {
    open spec fn flag_view(v: Position) -> bool {
        v.active
    }

    open spec fn with_active(v: Position, activate: bool) -> Position {
        Position { active: activate, ..v }
    }

    open spec fn fresh_view() -> Position {
        Position { active: false, x: 0, y: 0 }
    }

    fn fresh() -> (r: Self)
        ensures
            r@ == Self::fresh_view(),
    {
        Position::default()
    }

    fn set_active(&mut self, activate: bool)
        ensures
            final(self)@ == Self::with_active(old(self)@, activate),
            Self::flag_view(final(self)@) == activate,
    {
        self.active = activate;
    }

    fn is_active(&self) -> (r: &bool)
        ensures
            *r == Self::flag_view(self@),
    {
        &self.active
    }
}

/// Movement: a speed and an optional destination.
#[derive(Clone, Copy, Debug, PartialEq, Eq, Structural)]
pub struct Movement {
    pub active: bool,
    pub speed: u32,
    pub move_to: Option<Position>,
}

impl View for Movement {
    type V = Movement;

    open spec fn view(&self) -> Movement {
        *self
    }
}

impl Movement {
    /// An active movement component with the given speed.
    pub fn from_speed(speed: u32) -> (r: Self)
        ensures
            r == (Movement { active: true, speed, move_to: None }),
    {
        Movement { active: true, speed, move_to: None }
    }

    /// The current speed.
    pub fn speed(&self) -> (r: &u32)
        ensures
            *r == self.speed,
    {
        &self.speed
    }
}

impl Default for Movement {
    fn default() -> (r: Self)
        ensures
            r == (Movement { active: false, speed: 0, move_to: None }),
    {
        Movement { active: false, speed: 0, move_to: None }
    }
}

impl Component for Movement {
    open spec fn flag_view(v: Movement) -> bool {
        v.active
    }

    open spec fn with_active(v: Movement, activate: bool) -> Movement {
        Movement { active: activate, ..v }
    }

    open spec fn fresh_view() -> Movement {
        Movement { active: false, speed: 0, move_to: None }
    }

    fn fresh() -> (r: Self)
        ensures
            r@ == Self::fresh_view(),
    {
        Movement::default()
    }

    fn set_active(&mut self, activate: bool)
        ensures
            final(self)@ == Self::with_active(old(self)@, activate),
            Self::flag_view(final(self)@) == activate,
    {
        self.active = activate;
    }

    fn is_active(&self) -> (r: &bool)
        ensures
            *r == Self::flag_view(self@),
    {
        &self.active
    }
}

// --- health ---

/// Hit points: a current and a maximum value.
#[derive(Clone, Copy, Debug, PartialEq, Eq, Structural)]
pub struct Health {
    pub active: bool,
    pub current_hp: u32,
    pub max_hp: u32,
}

impl View for Health {
    type V = Health;

    open spec fn view(&self) -> Health {
        *self
    }
}

/// Healing: hit points rise by the given amount but never beyond the
/// maximum.
pub open spec fn healed(h: Health, hp: u32) -> Health {
    Health {
        current_hp: if h.current_hp + hp <= h.max_hp {
            (h.current_hp + hp) as u32
        } else {
            h.max_hp
        },
        ..h
    }
}

/// Damage: hit points fall by the given amount but never below zero.
pub open spec fn damaged(h: Health, hp: u32) -> Health {
    Health {
        current_hp: if h.current_hp >= hp {
            (h.current_hp - hp) as u32
        } else {
            0u32
        },
        ..h
    }
}

impl Health {
    /// An active health component with full hit points.
    pub fn from_hp(hp: u32) -> (r: Self)
        ensures
            r == (Health { active: true, current_hp: hp, max_hp: hp }),
    {
        Health { active: true, current_hp: hp, max_hp: hp }
    }

    /// An active health component with full hit points.
    pub fn new(hp: u32) -> (r: Self)
        ensures
            r == (Health { active: true, current_hp: hp, max_hp: hp }),
    {
        Health::from_hp(hp)
    }

    /// Restores hit points, up to the maximum.
    pub fn heal(&mut self, hp: u32)
        ensures
            *final(self) == healed(*old(self), hp),
    {
        if hp <= u32::MAX - self.current_hp && self.current_hp + hp <= self.max_hp {
            self.current_hp = self.current_hp + hp;
        } else {
            self.current_hp = self.max_hp;
        }
    }

    /// Takes hit points away, down to zero.
    pub fn damage(&mut self, hp: u32)
        ensures
            *final(self) == damaged(*old(self), hp),
    {
        if self.current_hp >= hp {
            self.current_hp = self.current_hp - hp;
        } else {
            self.current_hp = 0;
        }
    }
}

impl Default for Health {
    fn default() -> (r: Self)
        ensures
            r == (Health { active: false, current_hp: 0, max_hp: 0 }),
    {
        Health { active: false, current_hp: 0, max_hp: 0 }
    }
}

impl Component for Health {
    open spec fn flag_view(v: Health) -> bool {
        v.active
    }

    open spec fn with_active(v: Health, activate: bool) -> Health {
        Health { active: activate, ..v }
    }

    open spec fn fresh_view() -> Health {
        Health { active: false, current_hp: 0, max_hp: 0 }
    }

    fn fresh() -> (r: Self)
        ensures
            r@ == Self::fresh_view(),
    {
        Health::default()
    }

    fn set_active(&mut self, activate: bool)
        ensures
            final(self)@ == Self::with_active(old(self)@, activate),
            Self::flag_view(final(self)@) == activate,
    {
        self.active = activate;
    }

    fn is_active(&self) -> (r: &bool)
        ensures
            *r == Self::flag_view(self@),
    {
        &self.active
    }
}

// --- focus ---

/// The view of a focus list.
#[verifier::ext_equal]
pub struct FocusView {
    pub active: bool,
    pub list: Seq<Spawn>,
}

/// The entities this one is focused on, first in line first.
#[derive(Clone, Debug)]
pub struct Focus {
    active: bool,
    focus: Vec<Spawn>,
}

impl View for Focus {
    type V = FocusView;

    closed spec fn view(&self) -> FocusView {
        FocusView { active: self.active, list: self.focus@ }
    }
}

impl Focus {
    /// An active, empty focus list.
    pub fn new() -> (r: Self)
        ensures
            r@ == (FocusView { active: true, list: Seq::empty() }),
    {
        Focus { active: true, focus: Vec::new() }
    }

    /// Enlists a handle at the back, unless one with the same pointer is
    /// already listed.
    pub fn add(&mut self, spawn: &Spawn)
        ensures
            has_pointer(old(self)@.list, spawn.pointer) ==> *final(self) == *old(self),
            !has_pointer(old(self)@.list, spawn.pointer) ==> final(self)@ == (FocusView {
                list: old(self)@.list.push(*spawn),
                ..old(self)@
            }),
    {
        if self.enlisted(spawn).is_none() {
            self.focus.push(*spawn);
        }
    }

    /// The first handle in line, if any.
    pub fn prime(&self) -> (r: Option<Spawn>)
        ensures
            self@.list.len() > 0 ==> r == Some(self@.list[0]),
            self@.list.len() == 0 ==> r is None,
    {
        if self.focus.len() > 0 {
            Some(self.focus[0])
        } else {
            None
        }
    }

    /// Drops the first listed handle with the given pointer, if any.
    pub fn remove(&mut self, spawn: &Spawn)
        ensures
            !has_pointer(old(self)@.list, spawn.pointer) ==> *final(self) == *old(self),
            has_pointer(old(self)@.list, spawn.pointer) ==> exists|i: int|
                0 <= i < old(self)@.list.len() && old(self)@.list[i].pointer == spawn.pointer
                    && (forall|j: int|
                    0 <= j < i ==> (#[trigger] old(self)@.list[j]).pointer != spawn.pointer)
                    && final(self)@ == (FocusView {
                    list: old(self)@.list.remove(i),
                    ..old(self)@
                }),
    {
        match self.enlisted(spawn) {
            Some(index) => {
                self.focus.remove(index);
            },
            None => {},
        }
    }

    /// The place of the first listed handle with the given pointer.
    pub fn enlisted(&self, spawn: &Spawn) -> (r: Option<usize>)
        ensures
            match r {
                Some(i) => i < self@.list.len() && self@.list[i as int].pointer == spawn.pointer
                    && (forall|j: int|
                    0 <= j < i ==> (#[trigger] self@.list[j]).pointer != spawn.pointer),
                None => !has_pointer(self@.list, spawn.pointer),
            },
    {
        let mut i: usize = 0;
        while i < self.focus.len()
            invariant
                i <= self.focus@.len(),
                forall|j: int| 0 <= j < i ==> (#[trigger] self.focus@[j]).pointer != spawn.pointer,
            decreases self.focus@.len() - i,
        {
            if self.focus[i].pointer == spawn.pointer {
                return Some(i);
            }
            i += 1;
        }
        None
    }

    /// How many handles are listed.
    pub fn count(&self) -> (r: usize)
        ensures
            r == self@.list.len(),
    {
        self.focus.len()
    }

    /// An identical focus list.
    pub fn duplicate(&self) -> (r: Focus)
        ensures
            r@ == self@,
    {
        let mut list: Vec<Spawn> = Vec::new();
        let mut i: usize = 0;
        while i < self.focus.len()
            invariant
                i <= self.focus@.len(),
                list@ == self.focus@.subrange(0, i as int),
            decreases self.focus@.len() - i,
        {
            list.push(self.focus[i]);
            i += 1;
        }
        proof {
            assert(list@ =~= self.focus@);
            assert((FocusView { active: self.active, list: list@ }) =~= self@);
        }
        Focus { active: self.active, focus: list }
    }
}

impl Default for Focus {
    fn default() -> (r: Self)
        ensures
            r@ == (FocusView { active: false, list: Seq::empty() }),
    {
        Focus { active: false, focus: Vec::new() }
    }
}

impl Component for Focus {
    open spec fn flag_view(v: FocusView) -> bool {
        v.active
    }

    open spec fn with_active(v: FocusView, activate: bool) -> FocusView {
        FocusView { active: activate, ..v }
    }

    open spec fn fresh_view() -> FocusView {
        FocusView { active: false, list: Seq::empty() }
    }

    fn fresh() -> (r: Self)
        ensures
            r@ == Self::fresh_view(),
    {
        Focus::default()
    }

    fn set_active(&mut self, activate: bool)
        ensures
            final(self)@ == Self::with_active(old(self)@, activate),
            Self::flag_view(final(self)@) == activate,
    {
        self.active = activate;
        proof {
            assert(self@ =~= Self::with_active(old(self)@, activate));
        }
    }

    fn is_active(&self) -> (r: &bool)
        ensures
            *r == Self::flag_view(self@),
    {
        &self.active
    }
}

// --- incoming damage ---

/// The view of a damage queue.
#[verifier::ext_equal]
pub struct DamageView {
    pub active: bool,
    pub incoming: Seq<AttackView>,
}

/// The attacks that have landed on this entity and await resolution, in
/// arrival order.
#[derive(Clone, Debug)]
pub struct Damage {
    active: bool,
    incoming: Vec<Attack>,
}

impl View for Damage {
    type V = DamageView;

    closed spec fn view(&self) -> DamageView {
        DamageView { active: self.active, incoming: self.incoming@.map_values(|a: Attack| a@) }
    }
}

impl Damage {
    /// An active, empty damage queue.
    pub fn new() -> (r: Self)
        ensures
            r@ == (DamageView { active: true, incoming: Seq::empty() }),
    {
        let damage = Damage { active: true, incoming: Vec::new() };
        proof {
            assert(damage@ =~= DamageView { active: true, incoming: Seq::empty() });
        }
        damage
    }

    /// Queues one more incoming attack.
    pub fn take_damage(&mut self, attack: Attack)
        ensures
            final(self)@ == (DamageView {
                incoming: old(self)@.incoming.push(attack@),
                ..old(self)@
            }),
    {
        self.incoming.push(attack);
        proof {
            assert(self@.incoming =~= old(self)@.incoming.push(attack@));
            assert(self@ =~= DamageView { incoming: old(self)@.incoming.push(attack@), ..old(self)@ });
        }
    }

    /// Takes the oldest queued attack, if any.
    pub fn next_attack(&mut self) -> (r: Option<Attack>)
        ensures
            old(self)@.incoming.len() == 0 ==> r is None && *final(self) == *old(self),
            old(self)@.incoming.len() > 0 ==> match r {
                Some(attack) => attack@ == old(self)@.incoming.first() && final(self)@
                    == (DamageView { incoming: old(self)@.incoming.drop_first(), ..old(self)@ }),
                None => false,
            },
    {
        if self.incoming.len() > 0 {
            let attack = self.incoming.remove(0);
            proof {
                assert(self@.incoming =~= old(self)@.incoming.drop_first());
                assert(self@ =~= DamageView {
                    incoming: old(self)@.incoming.drop_first(),
                    ..old(self)@
                });
            }
            Some(attack)
        } else {
            None
        }
    }

    /// Reads one queued attack by position.
    pub fn peek(&self, i: usize) -> (r: Attack)
        requires
            i < self@.incoming.len(),
        ensures
            r@ == self@.incoming[i as int],
    {
        self.incoming[i].duplicate()
    }

    /// How many attacks await resolution.
    pub fn pending(&self) -> (r: usize)
        ensures
            r == self@.incoming.len(),
    {
        self.incoming.len()
    }
}

impl Default for Damage {
    fn default() -> (r: Self)
        ensures
            r@ == (DamageView { active: false, incoming: Seq::empty() }),
    {
        let damage = Damage { active: false, incoming: Vec::new() };
        proof {
            assert(damage@ =~= DamageView { active: false, incoming: Seq::empty() });
        }
        damage
    }
}

impl Component for Damage {
    open spec fn flag_view(v: DamageView) -> bool {
        v.active
    }

    open spec fn with_active(v: DamageView, activate: bool) -> DamageView {
        DamageView { active: activate, ..v }
    }

    open spec fn fresh_view() -> DamageView {
        DamageView { active: false, incoming: Seq::empty() }
    }

    fn fresh() -> (r: Self)
        ensures
            r@ == Self::fresh_view(),
    {
        Damage::default()
    }

    fn set_active(&mut self, activate: bool)
        ensures
            final(self)@ == Self::with_active(old(self)@, activate),
            Self::flag_view(final(self)@) == activate,
    {
        self.active = activate;
        proof {
            assert(self@ =~= Self::with_active(old(self)@, activate));
        }
    }

    fn is_active(&self) -> (r: &bool)
        ensures
            *r == Self::flag_view(self@),
    {
        &self.active
    }
}

// --- defense ---

/// The view of a defense.
#[verifier::ext_equal]
pub struct DefenseView {
    pub active: bool,
    pub blockers: Seq<ImpactProtection>,
}

/// What an attack's power shrinks to after running one blocker list, first
/// blocker first: each blocker matching the impact applies its immunity
/// factor and then its flat reduction, never below zero.
pub open spec fn resolved_power(blockers: Seq<ImpactProtection>, impact: Impact, power: u32) -> u32
    decreases blockers.len(),
{
    if blockers.len() == 0 {
        power
    } else {
        let b = blockers[0];
        let next = if b.against == impact {
            let soaked = factor_applied(b.immunity_factor, power);
            if soaked >= b.reduction {
                (soaked - b.reduction) as u32
            } else {
                0u32
            }
        } else {
            power
        };
        resolved_power(blockers.drop_first(), impact, next)
    }
}

/// Protections against incoming impacts.
#[derive(Clone, Debug)]
pub struct Defense {
    active: bool,
    blockers: Vec<ImpactProtection>,
}

impl View for Defense {
    type V = DefenseView;

    closed spec fn view(&self) -> DefenseView {
        DefenseView { active: self.active, blockers: self.blockers@ }
    }
}

impl Defense {
    /// An active defense with the given blockers.
    pub fn from_blockers(blockers: Vec<ImpactProtection>) -> (r: Self)
        ensures
            r@ == (DefenseView { active: true, blockers: blockers@ }),
    {
        Defense { active: true, blockers }
    }

    /// Resolves an attack against these blockers, returning the power that
    /// gets through.
    pub fn resolve_attack(&self, attack: &Attack) -> (r: u32)
        ensures
            r == resolved_power(self@.blockers, attack@.weapon.impact, attack@.weapon.power),
    {
        let mut power: u32 = attack.weapon.power;
        let mut i: usize = 0;
        proof {
            assert(self.blockers@.subrange(0, self.blockers@.len() as int) =~= self.blockers@);
        }
        while i < self.blockers.len()
            invariant
                i <= self.blockers@.len(),
                resolved_power(
                    self.blockers@.subrange(i as int, self.blockers@.len() as int),
                    attack@.weapon.impact,
                    power,
                ) == resolved_power(self.blockers@, attack@.weapon.impact, attack@.weapon.power),
            decreases self.blockers@.len() - i,
        {
            let ghost rest = self.blockers@.subrange(i as int, self.blockers@.len() as int);
            let blocker = self.blockers[i];
            if blocker.against == attack.weapon.impact {
                let soaked = blocker.immunity_factor.apply(power);
                if soaked >= blocker.reduction {
                    power = soaked - blocker.reduction;
                } else {
                    power = 0;
                }
            }
            i += 1;
            proof {
                assert(rest[0] == blocker);
                assert(rest.drop_first() =~= self.blockers@.subrange(
                    i as int,
                    self.blockers@.len() as int,
                ));
            }
        }
        proof {
            assert(self.blockers@.subrange(
                self.blockers@.len() as int,
                self.blockers@.len() as int,
            ) =~= Seq::<ImpactProtection>::empty());
        }
        power
    }

    /// An identical defense.
    pub fn duplicate(&self) -> (r: Defense)
        ensures
            r@ == self@,
    {
        let mut blockers: Vec<ImpactProtection> = Vec::new();
        let mut i: usize = 0;
        while i < self.blockers.len()
            invariant
                i <= self.blockers@.len(),
                blockers@ == self.blockers@.subrange(0, i as int),
            decreases self.blockers@.len() - i,
        {
            blockers.push(self.blockers[i]);
            i += 1;
        }
        proof {
            assert(blockers@ =~= self.blockers@);
            assert((DefenseView { active: self.active, blockers: blockers@ }) =~= self@);
        }
        Defense { active: self.active, blockers }
    }
}

impl Default for Defense {
    fn default() -> (r: Self)
        ensures
            r@ == (DefenseView { active: false, blockers: Seq::empty() }),
    {
        let defense = Defense { active: false, blockers: Vec::new() };
        proof {
            assert(defense@ =~= DefenseView { active: false, blockers: Seq::empty() });
        }
        defense
    }
}

impl Component for Defense {
    open spec fn flag_view(v: DefenseView) -> bool {
        v.active
    }

    open spec fn with_active(v: DefenseView, activate: bool) -> DefenseView {
        DefenseView { active: activate, ..v }
    }

    open spec fn fresh_view() -> DefenseView {
        DefenseView { active: false, blockers: Seq::empty() }
    }

    fn fresh() -> (r: Self)
        ensures
            r@ == Self::fresh_view(),
    {
        Defense::default()
    }

    fn set_active(&mut self, activate: bool)
        ensures
            final(self)@ == Self::with_active(old(self)@, activate),
            Self::flag_view(final(self)@) == activate,
    {
        self.active = activate;
        proof {
            assert(self@ =~= Self::with_active(old(self)@, activate));
        }
    }

    fn is_active(&self) -> (r: &bool)
        ensures
            *r == Self::flag_view(self@),
    {
        &self.active
    }
}

// --- resistances, afflictions and carrying ---

/// The view of a resistance list.
#[verifier::ext_equal]
pub struct ResistView {
    pub active: bool,
    pub resistances: Seq<AfflictionProtection>,
}

/// Protections against afflictions.
#[derive(Clone, Debug)]
pub struct Resist {
    active: bool,
    resistances: Vec<AfflictionProtection>,
}

impl View for Resist {
    type V = ResistView;

    closed spec fn view(&self) -> ResistView {
        ResistView { active: self.active, resistances: self.resistances@ }
    }
}

impl Resist {
    /// An active resistance list.
    pub fn new(resistances: Vec<AfflictionProtection>) -> (r: Self)
        ensures
            r@ == (ResistView { active: true, resistances: resistances@ }),
    {
        Resist { active: true, resistances }
    }
}

impl Resist {
    /// An identical resistance list.
    pub fn duplicate(&self) -> (r: Resist)
        ensures
            r@ == self@,
    {
        let mut resistances: Vec<AfflictionProtection> = Vec::new();
        let mut i: usize = 0;
        while i < self.resistances.len()
            invariant
                i <= self.resistances@.len(),
                resistances@ == self.resistances@.subrange(0, i as int),
            decreases self.resistances@.len() - i,
        {
            resistances.push(self.resistances[i]);
            i += 1;
        }
        proof {
            assert(resistances@ =~= self.resistances@);
            assert((ResistView { active: self.active, resistances: resistances@ }) =~= self@);
        }
        Resist { active: self.active, resistances }
    }
}

impl Default for Resist {
    fn default() -> (r: Self)
        ensures
            r@ == (ResistView { active: false, resistances: Seq::empty() }),
    {
        let resist = Resist { active: false, resistances: Vec::new() };
        proof {
            assert(resist@ =~= ResistView { active: false, resistances: Seq::empty() });
        }
        resist
    }
}

impl Component for Resist {
    open spec fn flag_view(v: ResistView) -> bool {
        v.active
    }

    open spec fn with_active(v: ResistView, activate: bool) -> ResistView {
        ResistView { active: activate, ..v }
    }

    open spec fn fresh_view() -> ResistView {
        ResistView { active: false, resistances: Seq::empty() }
    }

    fn fresh() -> (r: Self)
        ensures
            r@ == Self::fresh_view(),
    {
        Resist::default()
    }

    fn set_active(&mut self, activate: bool)
        ensures
            final(self)@ == Self::with_active(old(self)@, activate),
            Self::flag_view(final(self)@) == activate,
    {
        self.active = activate;
        proof {
            assert(self@ =~= Self::with_active(old(self)@, activate));
        }
    }

    fn is_active(&self) -> (r: &bool)
        ensures
            *r == Self::flag_view(self@),
    {
        &self.active
    }
}

/// The view of an affliction list.
#[verifier::ext_equal]
pub struct AfflictionsView {
    pub active: bool,
    pub list: Seq<Affliction>,
}

/// The afflictions currently burdening this entity.
#[derive(Clone, Debug)]
pub struct Afflictions {
    active: bool,
    list: Vec<Affliction>,
}

impl View for Afflictions {
    type V = AfflictionsView;

    closed spec fn view(&self) -> AfflictionsView {
        AfflictionsView { active: self.active, list: self.list@ }
    }
}

impl Afflictions {
    /// An identical affliction list.
    pub fn duplicate(&self) -> (r: Afflictions)
        ensures
            r@ == self@,
    {
        let mut list: Vec<Affliction> = Vec::new();
        let mut i: usize = 0;
        while i < self.list.len()
            invariant
                i <= self.list@.len(),
                list@ == self.list@.subrange(0, i as int),
            decreases self.list@.len() - i,
        {
            list.push(self.list[i]);
            i += 1;
        }
        proof {
            assert(list@ =~= self.list@);
            assert((AfflictionsView { active: self.active, list: list@ }) =~= self@);
        }
        Afflictions { active: self.active, list }
    }
}

impl Default for Afflictions {
    fn default() -> (r: Self)
        ensures
            r@ == (AfflictionsView { active: false, list: Seq::empty() }),
    {
        let afflictions = Afflictions { active: false, list: Vec::new() };
        proof {
            assert(afflictions@ =~= AfflictionsView { active: false, list: Seq::empty() });
        }
        afflictions
    }
}

impl Component for Afflictions {
    open spec fn flag_view(v: AfflictionsView) -> bool {
        v.active
    }

    open spec fn with_active(v: AfflictionsView, activate: bool) -> AfflictionsView {
        AfflictionsView { active: activate, ..v }
    }

    open spec fn fresh_view() -> AfflictionsView {
        AfflictionsView { active: false, list: Seq::empty() }
    }

    fn fresh() -> (r: Self)
        ensures
            r@ == Self::fresh_view(),
    {
        Afflictions::default()
    }

    fn set_active(&mut self, activate: bool)
        ensures
            final(self)@ == Self::with_active(old(self)@, activate),
            Self::flag_view(final(self)@) == activate,
    {
        self.active = activate;
        proof {
            assert(self@ =~= Self::with_active(old(self)@, activate));
        }
    }

    fn is_active(&self) -> (r: &bool)
        ensures
            *r == Self::flag_view(self@),
    {
        &self.active
    }
}

/// The view of a carried-entities list.
#[verifier::ext_equal]
pub struct CarryView {
    pub active: bool,
    pub spawns: Seq<Spawn>,
}

/// The entities this one is carrying.
#[derive(Clone, Debug)]
pub struct Carry {
    active: bool,
    spawns: Vec<Spawn>,
}

impl View for Carry {
    type V = CarryView;

    closed spec fn view(&self) -> CarryView {
        CarryView { active: self.active, spawns: self.spawns@ }
    }
}

impl Carry {
    /// An identical carried list.
    pub fn duplicate(&self) -> (r: Carry)
        ensures
            r@ == self@,
    {
        let mut spawns: Vec<Spawn> = Vec::new();
        let mut i: usize = 0;
        while i < self.spawns.len()
            invariant
                i <= self.spawns@.len(),
                spawns@ == self.spawns@.subrange(0, i as int),
            decreases self.spawns@.len() - i,
        {
            spawns.push(self.spawns[i]);
            i += 1;
        }
        proof {
            assert(spawns@ =~= self.spawns@);
            assert((CarryView { active: self.active, spawns: spawns@ }) =~= self@);
        }
        Carry { active: self.active, spawns }
    }
}

impl Default for Carry {
    fn default() -> (r: Self)
        ensures
            r@ == (CarryView { active: false, spawns: Seq::empty() }),
    {
        let carry = Carry { active: false, spawns: Vec::new() };
        proof {
            assert(carry@ =~= CarryView { active: false, spawns: Seq::empty() });
        }
        carry
    }
}

impl Component for Carry {
    open spec fn flag_view(v: CarryView) -> bool {
        v.active
    }

    open spec fn with_active(v: CarryView, activate: bool) -> CarryView {
        CarryView { active: activate, ..v }
    }

    open spec fn fresh_view() -> CarryView {
        CarryView { active: false, spawns: Seq::empty() }
    }

    fn fresh() -> (r: Self)
        ensures
            r@ == Self::fresh_view(),
    {
        Carry::default()
    }

    fn set_active(&mut self, activate: bool)
        ensures
            final(self)@ == Self::with_active(old(self)@, activate),
            Self::flag_view(final(self)@) == activate,
    {
        self.active = activate;
        proof {
            assert(self@ =~= Self::with_active(old(self)@, activate));
        }
    }

    fn is_active(&self) -> (r: &bool)
        ensures
            *r == Self::flag_view(self@),
    {
        &self.active
    }
}

// --- factions and agendas ---

/// Which side an entity fights for.
#[derive(Clone, Copy, Debug, PartialEq, Eq, Structural)]
pub enum Faction {
    Neutral,
    Red,
    Bleu,
}

/// Whether two factions oppose one another: both are taken, and they
/// differ.
pub open spec fn opposing_factions(a: Faction, b: Faction) -> bool {
    a != Faction::Neutral && b != Faction::Neutral && a != b
}

impl Faction {
    /// Whether this faction opposes the other.
    pub fn opposing(&self, other: &Faction) -> (r: bool)
        ensures
            r == opposing_factions(*self, *other),
    {
        !matches!(self, Faction::Neutral) && !matches!(other, Faction::Neutral) && !(
        matches!(self, Faction::Red) && matches!(other, Faction::Red)) && !(
        matches!(self, Faction::Bleu) && matches!(other, Faction::Bleu))
    }
}

impl Default for Faction {
    fn default() -> (r: Self)
        ensures
            r == Faction::Neutral,
    {
        Faction::Neutral
    }
}

/// The entity's agenda: for now, the faction it fights for.
#[derive(Clone, Copy, Debug, PartialEq, Eq, Structural)]
pub struct Agenda {
    pub active: bool,
    pub faction: Faction,
}

impl View for Agenda {
    type V = Agenda;

    open spec fn view(&self) -> Agenda {
        *self
    }
}

impl Default for Agenda {
    fn default() -> (r: Self)
        ensures
            r == (Agenda { active: false, faction: Faction::Neutral }),
    {
        Agenda { active: false, faction: Faction::Neutral }
    }
}

impl Component for Agenda {
    open spec fn flag_view(v: Agenda) -> bool {
        v.active
    }

    open spec fn with_active(v: Agenda, activate: bool) -> Agenda {
        Agenda { active: activate, ..v }
    }

    open spec fn fresh_view() -> Agenda {
        Agenda { active: false, faction: Faction::Neutral }
    }

    fn fresh() -> (r: Self)
        ensures
            r@ == Self::fresh_view(),
    {
        Agenda::default()
    }

    fn set_active(&mut self, activate: bool)
        ensures
            final(self)@ == Self::with_active(old(self)@, activate),
            Self::flag_view(final(self)@) == activate,
    {
        self.active = activate;
    }

    fn is_active(&self) -> (r: &bool)
        ensures
            *r == Self::flag_view(self@),
    {
        &self.active
    }
}

// --- the assembled payload ---

/// The view of a whole game object.
#[verifier::ext_equal]
pub struct GameObjectView {
    pub position: Position,
    pub agenda: Agenda,
    pub movement: Movement,
    pub health: Health,
    pub focus: FocusView,
    pub attack: AttackView,
    pub damage: DamageView,
    pub defense: DefenseView,
    pub resist: ResistView,
    pub afflictions: AfflictionsView,
    pub carry: CarryView,
}

/// A full example payload: one component of each kind.
#[derive(Clone, Debug)]
pub struct GameObject {
    pub position: Position,
    pub agenda: Agenda,
    pub movement: Movement,
    pub health: Health,
    pub focus: Focus,
    pub attack: Attack,
    pub damage: Damage,
    pub defense: Defense,
    pub resist: Resist,
    pub afflictions: Afflictions,
    pub carry: Carry,
}

impl View for GameObject {
    type V = GameObjectView;

    open spec fn view(&self) -> GameObjectView {
        GameObjectView {
            position: self.position@,
            agenda: self.agenda@,
            movement: self.movement@,
            health: self.health@,
            focus: self.focus@,
            attack: self.attack@,
            damage: self.damage@,
            defense: self.defense@,
            resist: self.resist@,
            afflictions: self.afflictions@,
            carry: self.carry@,
        }
    }
}

impl GameObject {
    pub fn has_position(&self) -> (r: bool)
        ensures
            r == self@.position.active,
    {
        *Component::is_active(&self.position)
    }

    pub fn has_agenda(&self) -> (r: bool)
        ensures
            r == self@.agenda.active,
    {
        *Component::is_active(&self.agenda)
    }

    pub fn has_movement(&self) -> (r: bool)
        ensures
            r == self@.movement.active,
    {
        *Component::is_active(&self.movement)
    }

    pub fn has_health(&self) -> (r: bool)
        ensures
            r == self@.health.active,
    {
        *Component::is_active(&self.health)
    }

    pub fn has_focus(&self) -> (r: bool)
        ensures
            r == self@.focus.active,
    {
        *Component::is_active(&self.focus)
    }

    pub fn has_attack(&self) -> (r: bool)
        ensures
            r == self@.attack.active,
    {
        *Component::is_active(&self.attack)
    }

    pub fn has_damage(&self) -> (r: bool)
        ensures
            r == self@.damage.active,
    {
        *Component::is_active(&self.damage)
    }

    pub fn has_defense(&self) -> (r: bool)
        ensures
            r == self@.defense.active,
    {
        *Component::is_active(&self.defense)
    }

    pub fn has_resist(&self) -> (r: bool)
        ensures
            r == self@.resist.active,
    {
        *Component::is_active(&self.resist)
    }

    pub fn has_afflictions(&self) -> (r: bool)
        ensures
            r == self@.afflictions.active,
    {
        *Component::is_active(&self.afflictions)
    }

    pub fn has_carry(&self) -> (r: bool)
        ensures
            r == self@.carry.active,
    {
        *Component::is_active(&self.carry)
    }
}

/// The view of a game object whose components are all fresh and inactive.
pub open spec fn base_game_object() -> GameObjectView {
    GameObjectView {
        position: <Position as Component>::fresh_view(),
        agenda: <Agenda as Component>::fresh_view(),
        movement: <Movement as Component>::fresh_view(),
        health: <Health as Component>::fresh_view(),
        focus: <Focus as Component>::fresh_view(),
        attack: <Attack as Component>::fresh_view(),
        damage: <Damage as Component>::fresh_view(),
        defense: <Defense as Component>::fresh_view(),
        resist: <Resist as Component>::fresh_view(),
        afflictions: <Afflictions as Component>::fresh_view(),
        carry: <Carry as Component>::fresh_view(),
    }
}

impl Entity for GameObject {
    open spec fn base_view() -> GameObjectView {
        base_game_object()
    }

    fn base() -> (r: Self)
        ensures
            r@ == Self::base_view(),
    {
        let object = GameObject {
            position: Position::default(),
            agenda: Agenda::default(),
            movement: Movement::default(),
            health: Health::default(),
            focus: Focus::default(),
            attack: Attack::default(),
            damage: Damage::default(),
            defense: Defense::default(),
            resist: Resist::default(),
            afflictions: Afflictions::default(),
            carry: Carry::default(),
        };
        proof {
            assert(object@ =~= Self::base_view());
        }
        object
    }

    fn duplicate(&self) -> (r: Self)
        ensures
            r@ == self@,
    {
        let object = GameObject {
            position: self.position,
            agenda: self.agenda,
            movement: self.movement,
            health: self.health,
            focus: self.focus.duplicate(),
            attack: self.attack.duplicate(),
            damage: self.damage_copy(),
            defense: self.defense.duplicate(),
            resist: self.resist.duplicate(),
            afflictions: self.afflictions.duplicate(),
            carry: self.carry.duplicate(),
        };
        proof {
            assert(object@ =~= self@);
        }
        object
    }
}

impl GameObject {
    /// A copy of the damage queue.
    fn damage_copy(&self) -> (r: Damage)
        ensures
            r@ == self.damage@,
    {
        let mut queue = Damage::new();
        if !*self.damage.is_active() {
            queue.set_active(false);
        }
        let ghost before = queue@;
        proof {
            assert(before =~= (DamageView { incoming: Seq::empty(), ..self.damage@ }));
        }
        let n = self.damage.pending();
        let mut i: usize = 0;
        while i < n
            invariant
                n == self.damage@.incoming.len(),
                i <= n,
                queue@.active == self.damage@.active,
                queue@.incoming == self.damage@.incoming.subrange(0, i as int),
            decreases n - i,
        {
            let attack = self.damage.peek(i);
            queue.take_damage(attack);
            proof {
                assert(queue@.incoming =~= self.damage@.incoming.subrange(0, i + 1));
            }
            i += 1;
        }
        proof {
            assert(queue@.incoming =~= self.damage@.incoming);
            assert(queue@ =~= self.damage@);
        }
        queue
    }
}

/// What an incoming attack does to a payload: if the damage queue is
/// active, the attack joins the back of the queue; otherwise it is shrugged
/// off.
pub open spec fn attack_received(pre: GameObjectView, attack: AttackView) -> GameObjectView {
    if pre.damage.active {
        GameObjectView {
            damage: DamageView { incoming: pre.damage.incoming.push(attack), ..pre.damage },
            ..pre
        }
    } else {
        pre
    }
}

impl Components for GameObject {
    type Events = Attack;

    open spec fn handle_view(pre: GameObjectView, event: AttackView, from: usize) -> GameObjectView {
        attack_received(pre, event)
    }

    fn event_handler(&mut self, event: Attack, from: usize)
        ensures
            final(self)@ == Self::handle_view(old(self)@, event@, from),
    {
        let ghost ev = event@;
        if *self.damage.is_active() {
            self.damage.take_damage(event);
            proof {
                assert(self@ =~= attack_received(old(self)@, ev));
            }
        }
    }
}

} // verus!
