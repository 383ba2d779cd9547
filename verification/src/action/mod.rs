//! Actions that entities take, and what activating them leads to.

use vstd::prelude::*;
use crate::map::GameMap;
use crate::tile::{Tile, Walkable};
use crate::vector::IntVector2;

pub mod queue;

pub use queue::{EntityActionQueue, EntityActivatorFunctionResult, EntityQueue};

verus! {

#[derive(Debug, Clone, Copy, PartialEq, Eq, Structural)]
pub struct AttackActionParams {
    pub target: i32,
}

#[derive(Debug, Clone, Copy, PartialEq, Eq, Structural)]
pub struct MoveActionParams {
    pub dx: IntVector2,
    pub start: IntVector2,
    pub entity: u64,
}

#[derive(Debug, Clone, Copy, PartialEq, Eq, Structural)]
pub struct TakeDamageActionParams {
    pub target: u64,
    pub damage: i32,
}

/// Damage that an entity takes for walking into a tile that cannot be walked on.
pub const BLOCKED_MOVE_DAMAGE: i32 = 10;

#[derive(Debug, Clone, Copy, PartialEq, Eq, Structural)]
pub enum EntityAction {
    Move(MoveActionParams),
    Attack(AttackActionParams),
    TakeDamage(TakeDamageActionParams),
    Wait,
    Nothing,
}

impl Default for EntityAction {
    fn default() -> (a: Self)
        ensures
            a == EntityAction::Nothing,
    {
        EntityAction::Nothing
    }
}

/// The cell that a move leads to, as mathematical integers.
pub open spec fn destination(params: MoveActionParams) -> (int, int) {
    (params.start.x + params.dx.x, params.start.y + params.dx.y)
}

/// What activating an action on a map leads to: a move onto a tile that
/// cannot be walked on hurts the mover instead; every other action takes place.
pub open spec fn activation<T: Tile>(
    action: EntityAction,
    m: Map<IntVector2, T::V>,
) -> EntityActivatorFunctionResult {
    match action {
        EntityAction::Move(params) => {
            let to = IntVector2 { x: destination(params).0 as i32, y: destination(params).1 as i32 };
            if m.contains_key(to) && !T::view_is_walkable(m[to]) {
                EntityActivatorFunctionResult::Alternate(
                    EntityAction::TakeDamage(
                        TakeDamageActionParams { target: params.entity, damage: BLOCKED_MOVE_DAMAGE },
                    ),
                )
            } else {
                EntityActivatorFunctionResult::Proceed
            }
        },
        _ => EntityActivatorFunctionResult::Proceed,
    }
}

impl EntityAction {
    /// The move's destination is a cell of the lattice.
    pub open spec fn fits(&self) -> bool {
        match *self {
            EntityAction::Move(params) => {
                &&& i32::MIN <= destination(params).0 <= i32::MAX
                &&& i32::MIN <= destination(params).1 <= i32::MAX
            },
            _ => true,
        }
    }

    pub fn activate<T: Tile>(&self, game_map: &GameMap<T>) -> (r: EntityActivatorFunctionResult)
        requires
            self.fits(),
        ensures
            r == activation::<T>(*self, game_map@),
    {
        match self {
            EntityAction::Move(params) => {
                let desired_position = IntVector2::new(
                    params.start.x + params.dx.x,
                    params.start.y + params.dx.y,
                );
                match game_map.tile_at(desired_position) {
                    Some(tile) => {
                        if !tile.is_walkable() {
                            EntityActivatorFunctionResult::Alternate(
                                EntityAction::TakeDamage(
                                    TakeDamageActionParams {
                                        target: params.entity,
                                        damage: BLOCKED_MOVE_DAMAGE,
                                    },
                                ),
                            )
                        } else {
                            EntityActivatorFunctionResult::Proceed
                        }
                    },
                    None => EntityActivatorFunctionResult::Proceed,
                }
            },
            EntityAction::TakeDamage(_) => EntityActivatorFunctionResult::Proceed,
            EntityAction::Attack(_) => EntityActivatorFunctionResult::Proceed,
            EntityAction::Wait => EntityActivatorFunctionResult::Proceed,
            EntityAction::Nothing => EntityActivatorFunctionResult::Proceed,
        }
    }
}

} // verus!
