//! Weapons and the damage they deal.

use vstd::prelude::*;

verus! {

#[derive(Clone, Copy, Debug, PartialEq, Eq, Structural)]
pub enum WeaponKind {
    Sword,
    Axe,
    Bow,
    CrossBow,
    Spear,
}

/// Damage that lasts for a number of turns.
#[derive(Debug, Clone, Copy, PartialEq, Eq, Structural)]
pub struct DamageOverTime {
    pub value: i32,
    pub duration: i32,
}

#[derive(Debug, Clone, Copy, PartialEq, Eq, Structural)]
pub enum DamageKind {
    Physical,
    Fire,
    Ice,
    Poison,
}

#[derive(Debug, Clone, Copy, PartialEq, Eq, Structural)]
pub struct AttackKind {}

#[derive(Debug, Clone)]
pub struct Weapon {
    pub name: String,
    pub description: String,
    pub kind: WeaponKind,
    pub weight: i32,
}

} // verus!
