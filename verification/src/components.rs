//! The remaining per-actor attributes of the actor store: vitality,
//! faction tag, power, inventory, items, names and visuals.

use vstd::prelude::*;
use vstd::string::StringExecFns;

verus! {

/// A stand-alone alive flag, for callers that track the flag apart from
/// the full vitality block.
#[derive(Debug, Clone, Copy, PartialEq, Eq, Structural)]
pub struct Alive(pub bool);

/// Marks an actor as occupying its tile: no other collider may share it.
#[derive(Debug, Clone, Copy, PartialEq, Eq, Structural)]
pub struct Collider(pub bool);

impl Collider {
    pub fn new() -> (r: Collider)
        ensures
            r == Collider(true),
    {
        Collider(true)
    }
}

/// A combined combat block: vitality and attack power in one attribute,
/// for callers that do not split them.
#[derive(Debug, Clone, Copy, PartialEq, Eq, Structural)]
pub struct Fighter {
    pub max_hp: i32,
    pub hp: i32,
    pub defense: i32,
    pub power: i32,
}

/// Vitality: the alive flag flips exactly once, and hit points may go
/// negative before the flip is observed by a death transition.
#[derive(Debug, Clone, Copy, PartialEq, Eq, Structural)]
pub struct Living {
    pub alive: bool,
    pub max_hp: i32,
    pub hp: i32,
    pub defense: i32,
}

/// Attack power used by the melee damage formula.
#[derive(Debug, Clone, Copy, PartialEq, Eq, Structural)]
pub struct Power(pub i32);

/// Marks the one player-controlled actor.
#[derive(Debug, Clone, Copy, PartialEq, Eq, Structural)]
pub struct Player;

impl Player {
    pub fn new() -> (r: Player)
        ensures
            r == Player,
    {
        Player
    }
}

/// A display name.
#[derive(Debug, PartialEq, Eq)]
pub struct Name(pub String);

impl Clone for Name {
    fn clone(&self) -> (r: Name)
        ensures
            r.0@ == self.0@,
    {
        Name(self.0.clone())
    }
}

impl Name {
    pub fn new(s: &str) -> (r: Name)
        ensures
            r.0@ == s@,
    {
        Name(String::from_str(s))
    }
}

/// The kind of a usable item.
#[derive(Debug, Clone, Copy, PartialEq, Eq, Structural)]
pub enum Item {
    Heal,
    Lightning,
    Confuse,
    Fireball,
}

/// An ordered list of item-actor handles carried by an actor;
/// capacity 26.
#[derive(Debug, Clone, PartialEq, Eq)]
pub struct Inventory(pub Vec<usize>);

/// The largest number of items an inventory holds.
pub const INVENTORY_CAPACITY: usize = 26;

impl Inventory {
    pub fn new() -> (r: Inventory)
        ensures
            r.0@ == Seq::<usize>::empty(),
    {
        Inventory(Vec::new())
    }

    /// The persistence-side shape of an inventory: handles widened to the
    /// stable 64-bit markers the save format keys actors by.
    pub fn convert_into(&self) -> (r: InventoryData)
        ensures
            r.0@.len() == self.0@.len(),
            forall|k: int| 0 <= k < self.0@.len() ==> r.0@[k] == self.0@[k] as u64,
    {
        let mut data: Vec<u64> = Vec::new();
        let mut k: usize = 0;
        while k < self.0.len()
            invariant
                k <= self.0@.len(),
                data@.len() == k,
                forall|j: int| 0 <= j < k ==> data@[j] == self.0@[j] as u64,
            decreases self.0@.len() - k,
        {
            data.push(self.0[k] as u64);
            k = k + 1;
        }
        InventoryData(data)
    }

    /// Rebuild an inventory from its persisted shape; markers must fit the
    /// handle width of this machine.
    pub fn convert_from(data: &InventoryData) -> (r: Inventory)
        requires
            forall|k: int| 0 <= k < data.0@.len() ==> data.0@[k] <= usize::MAX,
        ensures
            r.0@.len() == data.0@.len(),
            forall|k: int| 0 <= k < data.0@.len() ==> r.0@[k] == data.0@[k] as usize,
    {
        let mut handles: Vec<usize> = Vec::new();
        let mut k: usize = 0;
        while k < data.0.len()
            invariant
                forall|j: int| 0 <= j < data.0@.len() ==> data.0@[j] <= usize::MAX,
                k <= data.0@.len(),
                handles@.len() == k,
                forall|j: int| 0 <= j < k ==> handles@[j] == data.0@[j] as usize,
            decreases data.0@.len() - k,
        {
            handles.push(data.0[k] as usize);
            k = k + 1;
        }
        Inventory(handles)
    }
}

/// The save-file shape of an inventory: a list of stable actor markers.
#[derive(Debug, Clone, PartialEq, Eq)]
pub struct InventoryData(pub Vec<u64>);

/// The palette the engine's messages and visuals draw from; the
/// presentation layer maps these to real colors.
#[derive(Debug, Clone, Copy, PartialEq, Eq, Structural)]
pub enum Color {
    White,
    Red,
    Orange,
    Yellow,
    Green,
    Cyan,
    Violet,
    DarkRed,
    DesaturatedGreen,
    DarkerGreen,
    LightYellow,
    LightBlue,
    LightGreen,
    LightViolet,
}

/// How an actor is drawn: a glyph, a color, and whether fog of war hides
/// it.
#[derive(Debug, Clone, Copy, PartialEq, Eq, Structural)]
pub struct Visual {
    pub glyph: char,
    pub color: Color,
    pub always_visible: bool,
}

/// The per-actor behavior state machine: basic pursuit, confusion that
/// owns the behavior it will revert to, or player pass-through.
#[derive(Debug, PartialEq, Eq)]
pub enum Ai {
    Basic,
    Confused { previous_ai: Box<Ai>, num_turns: i32 },
    Player,
}

impl Clone for Ai {
    fn clone(&self) -> (r: Ai)
        ensures
            r == *self,
        decreases *self,
    {
        match self {
            Ai::Basic => Ai::Basic,
            Ai::Confused { previous_ai, num_turns } => Ai::Confused {
                previous_ai: Box::new((**previous_ai).clone()),
                num_turns: *num_turns,
            },
            Ai::Player => Ai::Player,
        }
    }
}

/// A behavior that is not player pass-through at any depth: what monsters
/// carry, and what confusion on a monster restores.
pub open spec fn is_monster_ai(ai: Ai) -> bool
    decreases ai,
{
    match ai {
        Ai::Basic => true,
        Ai::Confused { previous_ai, .. } => is_monster_ai(*previous_ai),
        Ai::Player => false,
    }
}

/// A behavior that bottoms out in player pass-through: what the player
/// carries, even while confused.
pub open spec fn is_player_ai(ai: Ai) -> bool
    decreases ai,
{
    match ai {
        Ai::Basic => false,
        Ai::Confused { previous_ai, .. } => is_player_ai(*previous_ai),
        Ai::Player => true,
    }
}

} // verus!
