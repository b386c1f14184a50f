//! The closed action model: one discrete turn-action per actor per pass,
//! with an integer energy cost that is a pure function of the variant.

use crate::velocity::Velocity;
use vstd::prelude::*;

verus! {

/// One discrete turn-action. Once assigned, an action is consumed (applied
/// or absorbed) before the next think-act pass begins; only `WaitForInput`
/// persists across ticks.
#[derive(Debug, Clone, PartialEq, Eq, Structural)]
pub enum Action {
    /// Wait `ticks` scheduler ticks: costs `ticks`, no world effect.
    Skip { ticks: u8 },
    /// The player has not decided yet: zero cost, and the scheduler does
    /// not treat the holder as eligible to consume a turn.
    WaitForInput,
    /// Step along `velocity`, or attack whatever alive actor occupies the
    /// destination; the flags gate which factions may be attacked.
    MoveOrMelee { velocity: Velocity, attack_player: bool, attack_monsters: bool },
    /// Take the item on the current tile into the inventory.
    PickUp,
    /// Put the inventory entry at `inventory_index` back on the ground.
    Drop { inventory_index: usize },
    /// Apply the effect of the inventory entry at `inventory_index`.
    UseFromInventory { inventory_index: usize },
}

/// The energy cost of an action, as the cost table of the model gives it.
pub open spec fn cost_of(a: Action) -> int {
    match a {
        Action::Skip { ticks } => ticks as int,
        Action::WaitForInput => 0,
        Action::MoveOrMelee { velocity, .. } => velocity.magnitude as int,
        Action::PickUp => 1,
        Action::Drop { .. } => 1,
        Action::UseFromInventory { .. } => 1,
    }
}

impl Action {
    /// The energy this action costs to consume.
    pub fn energy_cost(&self) -> (r: u8)
        ensures
            r as int == cost_of(*self),
    {
        match self {
            Action::Skip { ticks } => *ticks,
            Action::WaitForInput => 0,
            Action::MoveOrMelee { velocity, .. } => velocity.magnitude,
            Action::PickUp => 1,
            Action::Drop { .. } => 1,
            Action::UseFromInventory { .. } => 1,
        }
    }

    /// The cost-free placeholder assigned to freshly spawned non-player
    /// actors before their first decision.
    pub fn noop() -> (r: Action)
        ensures
            r == (Action::Skip { ticks: 0 }),
    {
        Action::Skip { ticks: 0 }
    }
}

} // verus!
