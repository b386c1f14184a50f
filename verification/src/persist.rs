//! The persistence boundary: snapshot the whole actor store (plus the
//! global map and message log) into a plain save shape keyed by stable
//! markers, and restore it. Restoring a snapshot gives back the same
//! attribute tables, ignoring only the transient velocity and action.

use crate::action::Action;
use crate::components::{
    Ai, Collider, Inventory, InventoryData, Item, Living, Name, Player, Power, Visual,
};
use crate::energy::Energy;
use crate::map::GameMap;
use crate::position::{Position, PreviousPosition};
use crate::resources::{InputAction, Messages, Msg, State};
use crate::velocity::{Heading, Velocity};
use crate::world::{Actor, GameWorld};
use vstd::prelude::*;

verus! {

/// One persisted actor row: every attribute table except the transient
/// velocity and pending action, with inventories widened to stable
/// markers.
#[derive(Debug, Clone, PartialEq, Eq)]
pub struct SavedActor {
    pub position: Option<Position>,
    pub prev_position: Option<PreviousPosition>,
    pub living: Option<Living>,
    pub power: Option<Power>,
    pub energy: Option<Energy>,
    pub ai: Option<Ai>,
    pub player: Option<Player>,
    pub collider: Option<Collider>,
    pub inventory: Option<InventoryData>,
    pub item: Option<Item>,
    pub name: Option<Name>,
    pub visual: Option<Visual>,
}

/// A whole save: the actor table plus the global resources that ride
/// along (the terrain and the message log).
#[derive(Debug, Clone, PartialEq, Eq)]
pub struct SaveData {
    pub actors: Vec<SavedActor>,
    pub map: GameMap,
    pub messages: Messages,
}

/// How a live row corresponds to its persisted shape.
pub open spec fn saved_matches(a: Actor, s: SavedActor) -> bool {
    &&& s.position == a.position
    &&& s.prev_position == a.prev_position
    &&& s.living == a.living
    &&& s.power == a.power
    &&& s.energy == a.energy
    &&& s.ai == a.ai
    &&& s.player == a.player
    &&& s.collider == a.collider
    &&& s.item == a.item
    &&& s.visual == a.visual
    &&& (s.name is Some <==> a.name is Some)
    &&& (a.name is Some ==> s.name.unwrap().0@ == a.name.unwrap().0@)
    &&& (s.inventory is Some <==> a.inventory is Some)
    &&& (a.inventory is Some ==> ({
        let inv = a.inventory.unwrap().0@;
        let md = s.inventory.unwrap().0@;
        md.len() == inv.len() && forall|k: int| 0 <= k < inv.len() ==> md[k] == inv[k] as u64
    }))
}

/// How a persisted shape corresponds to the row it reconstitutes: the
/// transient velocity and action come back as their neutral values on
/// creatures, absent otherwise.
pub open spec fn restored_matches(s: SavedActor, b: Actor) -> bool {
    &&& b.position == s.position
    &&& b.prev_position == s.prev_position
    &&& b.living == s.living
    &&& b.power == s.power
    &&& b.energy == s.energy
    &&& b.ai == s.ai
    &&& b.player == s.player
    &&& b.collider == s.collider
    &&& b.item == s.item
    &&& b.visual == s.visual
    &&& (b.name is Some <==> s.name is Some)
    &&& (s.name is Some ==> b.name.unwrap().0@ == s.name.unwrap().0@)
    &&& (b.inventory is Some <==> s.inventory is Some)
    &&& (s.inventory is Some ==> ({
        let md = s.inventory.unwrap().0@;
        let inv = b.inventory.unwrap().0@;
        inv.len() == md.len() && forall|k: int| 0 <= k < md.len() ==> inv[k] == md[k] as usize
    }))
    &&& b.velocity == (if s.energy is Some {
        Some(Velocity { heading: Heading::North, magnitude: 0 })
    } else {
        Option::<Velocity>::None
    })
    &&& b.action == (if s.energy is Some {
        Some(Action::Skip { ticks: 0 })
    } else {
        Option::<Action>::None
    })
}

/// Two rows with the same persistent attribute tables; only the
/// transient velocity and action may differ, and names agree as text.
pub open spec fn persistent_eq(a: Actor, b: Actor) -> bool {
    &&& b.position == a.position
    &&& b.prev_position == a.prev_position
    &&& b.living == a.living
    &&& b.power == a.power
    &&& b.energy == a.energy
    &&& b.ai == a.ai
    &&& b.player == a.player
    &&& b.collider == a.collider
    &&& b.item == a.item
    &&& b.visual == a.visual
    &&& (b.name is Some <==> a.name is Some)
    &&& (a.name is Some ==> b.name.unwrap().0@ == a.name.unwrap().0@)
    &&& (b.inventory is Some <==> a.inventory is Some)
    &&& (a.inventory is Some ==> b.inventory.unwrap().0@ == a.inventory.unwrap().0@)
}

/// Round trip for one row: saving and restoring reproduces every
/// persistent attribute exactly, inventories included — handles survive
/// the widening to markers and back.
pub proof fn lemma_actor_round_trip(a: Actor, s: SavedActor, b: Actor)
    requires
        saved_matches(a, s),
        restored_matches(s, b),
    ensures
        persistent_eq(a, b),
{
    if a.inventory is Some {
        let inv = a.inventory.unwrap().0@;
        let out = b.inventory.unwrap().0@;
        assert forall|k: int| 0 <= k < inv.len() implies out[k] == inv[k] by {
            assert(out[k] == ((inv[k] as u64) as usize));
        }
        assert(out =~= inv);
    }
}

/// Round trip for the whole store: the restored attribute tables equal
/// the saved ones row by row.
pub proof fn lemma_store_round_trip(a: Seq<Actor>, s: Seq<SavedActor>, b: Seq<Actor>)
    requires
        a.len() == s.len() == b.len(),
        forall|i: int| 0 <= i < a.len() ==> saved_matches(#[trigger] a[i], s[i]),
        forall|i: int| 0 <= i < a.len() ==> restored_matches(#[trigger] s[i], b[i]),
    ensures
        forall|i: int| 0 <= i < a.len() ==> persistent_eq(#[trigger] a[i], b[i]),
{
    assert forall|i: int| 0 <= i < a.len() implies persistent_eq(#[trigger] a[i], b[i]) by {
        lemma_actor_round_trip(a[i], s[i], b[i]);
    }
}

/// Copy one narrative event, text and all.
fn clone_msg(m: &Msg) -> (r: Msg)
    ensures
        crate::resources::msg_view(r) == crate::resources::msg_view(*m),
{
    match m {
        Msg::Welcome => Msg::Welcome,
        Msg::Attack { attacker, target, damage } => Msg::Attack {
            attacker: attacker.clone(),
            target: target.clone(),
            damage: *damage,
        },
        Msg::NoEffect { attacker, target } => Msg::NoEffect {
            attacker: attacker.clone(),
            target: target.clone(),
        },
        Msg::MonsterDead { name } => Msg::MonsterDead { name: name.clone() },
        Msg::PlayerDead => Msg::PlayerDead,
        Msg::NoLongerConfused { name } => Msg::NoLongerConfused { name: name.clone() },
        Msg::PickedUp { name } => Msg::PickedUp { name: name.clone() },
        Msg::InventoryFull { name } => Msg::InventoryFull { name: name.clone() },
        Msg::Dropped { name } => Msg::Dropped { name: name.clone() },
        Msg::AlreadyFullHealth => Msg::AlreadyFullHealth,
        Msg::WoundsFeelBetter => Msg::WoundsFeelBetter,
        Msg::LightningStrikes { name, damage } => Msg::LightningStrikes {
            name: name.clone(),
            damage: *damage,
        },
        Msg::NoEnemyInRange => Msg::NoEnemyInRange,
        Msg::LooksVacant { name } => Msg::LooksVacant { name: name.clone() },
        Msg::ChooseConfuseTarget => Msg::ChooseConfuseTarget,
        Msg::ChooseFireballTarget => Msg::ChooseFireballTarget,
        Msg::FireballExplodes { radius } => Msg::FireballExplodes { radius: *radius },
        Msg::Burned { name, damage } => Msg::Burned { name: name.clone(), damage: *damage },
        Msg::CannotBeUsed { name } => Msg::CannotBeUsed { name: name.clone() },
        Msg::Cancelled => Msg::Cancelled,
    }
}

/// Copy the message log: capacity and every entry's text and color.
fn copy_messages(m: &Messages) -> (r: Messages)
    ensures
        r.limit == m.limit,
        r.inner@.len() == m.inner@.len(),
        crate::resources::log_view(r.inner@) == crate::resources::log_view(m.inner@),
{
    let mut inner: Vec<(Msg, crate::components::Color)> = Vec::new();
    let mut k: usize = 0;
    while k < m.inner.len()
        invariant
            k <= m.inner@.len(),
            inner@.len() == k,
            forall|j: int|
                0 <= j < k ==> crate::resources::msg_view(#[trigger] inner@[j].0)
                    == crate::resources::msg_view(m.inner@[j].0) && inner@[j].1
                    == m.inner@[j].1,
        decreases m.inner@.len() - k,
    {
        let entry = &m.inner[k];
        inner.push((clone_msg(&entry.0), entry.1));
        k = k + 1;
    }
    proof {
        assert(crate::resources::log_view(inner@) =~= crate::resources::log_view(m.inner@));
    }
    Messages { limit: m.limit, inner }
}

/// Copy the terrain exactly.
fn clone_map(m: &GameMap) -> (r: GameMap)
    ensures
        r.spawn_point == m.spawn_point,
        r.tiles@.len() == m.tiles@.len(),
        forall|i: int| 0 <= i < m.tiles@.len() ==> (#[trigger] r.tiles@[i])@ == m.tiles@[i]@,
{
    let mut tiles: Vec<Vec<crate::map::Tile>> = Vec::new();
    let mut x: usize = 0;
    while x < m.tiles.len()
        invariant
            x <= m.tiles@.len(),
            tiles@.len() == x,
            forall|i: int| 0 <= i < x ==> (#[trigger] tiles@[i])@ == m.tiles@[i]@,
        decreases m.tiles@.len() - x,
    {
        let col = &m.tiles[x];
        let mut out: Vec<crate::map::Tile> = Vec::new();
        let mut y: usize = 0;
        while y < col.len()
            invariant
                y <= col@.len(),
                out@.len() == y,
                forall|j: int| 0 <= j < y ==> out@[j] == col@[j],
            decreases col@.len() - y,
        {
            out.push(col[y]);
            y = y + 1;
        }
        proof {
            assert(out@ =~= col@);
        }
        tiles.push(out);
        x = x + 1;
    }
    GameMap { tiles, spawn_point: m.spawn_point }
}

/// Serialize the whole actor store, with the map and message log riding
/// along, keyed by the rows' stable handles.
pub fn snapshot(w: &GameWorld) -> (data: SaveData)
    ensures
        data.actors@.len() == w.actors@.len(),
        forall|i: int|
            0 <= i < w.actors@.len() ==> saved_matches(
                #[trigger] w.actors@[i],
                data.actors@[i],
            ),
        data.map.spawn_point == w.map.spawn_point,
        data.map.tiles@.len() == w.map.tiles@.len(),
        forall|i: int|
            0 <= i < w.map.tiles@.len() ==> (#[trigger] data.map.tiles@[i])@
                == w.map.tiles@[i]@,
        data.messages.limit == w.messages.limit,
        data.messages.inner@.len() == w.messages.inner@.len(),
        crate::resources::log_view(data.messages.inner@) == crate::resources::log_view(
            w.messages.inner@,
        ),
{
    let mut rows: Vec<SavedActor> = Vec::new();
    let mut i: usize = 0;
    while i < w.actors.len()
        invariant
            i <= w.actors@.len(),
            rows@.len() == i,
            forall|j: int|
                0 <= j < i ==> saved_matches(#[trigger] w.actors@[j], rows@[j]),
        decreases w.actors@.len() - i,
    {
        let a = &w.actors[i];
        let row = SavedActor {
            position: a.position,
            prev_position: a.prev_position,
            living: a.living,
            power: a.power,
            energy: a.energy,
            ai: match &a.ai {
                Some(x) => Some(x.clone()),
                None => None,
            },
            player: a.player,
            collider: a.collider,
            inventory: match &a.inventory {
                Some(inv) => Some(inv.convert_into()),
                None => None,
            },
            item: a.item,
            name: match &a.name {
                Some(n) => Some(n.clone()),
                None => None,
            },
            visual: a.visual,
        };
        rows.push(row);
        i = i + 1;
    }
    SaveData { actors: rows, map: clone_map(&w.map), messages: copy_messages(&w.messages) }
}

/// Reconstitute the actor store from a save: handles stay stable, so
/// cross-references such as inventory entries still resolve; the world
/// comes back in the just-loaded state that forces one visibility
/// recompute before play resumes.
pub fn restore(data: &SaveData) -> (w: GameWorld)
    requires
        forall|i: int, k: int|
            #![trigger data.actors@[i].inventory.unwrap().0@[k]]
            0 <= i < data.actors@.len() && data.actors@[i].inventory is Some && 0 <= k
                < data.actors@[i].inventory.unwrap().0@.len()
                ==> data.actors@[i].inventory.unwrap().0@[k] <= usize::MAX,
    ensures
        w.actors@.len() == data.actors@.len(),
        forall|i: int|
            0 <= i < data.actors@.len() ==> restored_matches(
                #[trigger] data.actors@[i],
                w.actors@[i],
            ),
        w.map.spawn_point == data.map.spawn_point,
        w.map.tiles@.len() == data.map.tiles@.len(),
        forall|i: int|
            0 <= i < data.map.tiles@.len() ==> (#[trigger] w.map.tiles@[i])@
                == data.map.tiles@[i]@,
        w.messages.limit == data.messages.limit,
        w.messages.inner@.len() == data.messages.inner@.len(),
        crate::resources::log_view(w.messages.inner@) == crate::resources::log_view(
            data.messages.inner@,
        ),
        w.state == State::Loaded,
        w.input == InputAction::Noop,
        w.menu is None,
        w.targeting is None,
{
    let mut rows: Vec<Actor> = Vec::new();
    let mut i: usize = 0;
    while i < data.actors.len()
        invariant
            i <= data.actors@.len(),
            rows@.len() == i,
            forall|i2: int, k: int|
                #![trigger data.actors@[i2].inventory.unwrap().0@[k]]
                0 <= i2 < data.actors@.len() && data.actors@[i2].inventory is Some && 0 <= k
                    < data.actors@[i2].inventory.unwrap().0@.len()
                    ==> data.actors@[i2].inventory.unwrap().0@[k] <= usize::MAX,
            forall|j: int|
                0 <= j < i ==> restored_matches(#[trigger] data.actors@[j], rows@[j]),
        decreases data.actors@.len() - i,
    {
        let s = &data.actors[i];
        let creature = s.energy.is_some();
        let row = Actor {
            position: s.position,
            prev_position: s.prev_position,
            velocity: if creature {
                Some(Velocity::new())
            } else {
                None
            },
            living: s.living,
            power: s.power,
            energy: s.energy,
            ai: match &s.ai {
                Some(x) => Some(x.clone()),
                None => None,
            },
            player: s.player,
            collider: s.collider,
            inventory: match &s.inventory {
                Some(md) => Some(Inventory::convert_from(md)),
                None => None,
            },
            item: s.item,
            name: match &s.name {
                Some(n) => Some(n.clone()),
                None => None,
            },
            visual: s.visual,
            action: if creature {
                Some(Action::noop())
            } else {
                None
            },
        };
        rows.push(row);
        i = i + 1;
    }
    GameWorld {
        actors: rows,
        map: clone_map(&data.map),
        messages: copy_messages(&data.messages),
        state: State::Loaded,
        input: InputAction::Noop,
        menu: None,
        targeting: None,
    }
}

} // verus!
