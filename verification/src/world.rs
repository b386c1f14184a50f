//! The actor store: a table of actors, each a sparse set of optional
//! attributes keyed by a stable handle (the row index). Rows are never
//! shifted; deleting an actor empties its row, so handles stay stable for
//! cross-references such as inventory entries.

use crate::action::Action;
use crate::components::{
    is_monster_ai, is_player_ai, Ai, Collider, Inventory, Item, Living, Name, Player, Power,
    Visual,
};
use crate::energy::Energy;
use crate::map::GameMap;
use crate::position::{Position, PreviousPosition};
use crate::resources::{InputAction, Menu, Messages, Msg, State, Targeting};
use crate::velocity::Velocity;
use crate::components::Color;
use vstd::prelude::*;

verus! {

/// One row of the store: an identity plus whatever attributes are
/// attached to it.
#[derive(Debug, Clone, PartialEq, Eq)]
pub struct Actor {
    pub position: Option<Position>,
    pub prev_position: Option<PreviousPosition>,
    pub velocity: Option<Velocity>,
    pub living: Option<Living>,
    pub power: Option<Power>,
    pub energy: Option<Energy>,
    pub ai: Option<Ai>,
    pub player: Option<Player>,
    pub collider: Option<Collider>,
    pub inventory: Option<Inventory>,
    pub item: Option<Item>,
    pub name: Option<Name>,
    pub visual: Option<Visual>,
    pub action: Option<Action>,
}

impl Actor {
    /// A fully empty row: what deletion leaves behind.
    pub fn empty() -> (r: Actor)
        ensures
            r == Actor::empty_spec(),
    {
        Actor {
            position: None,
            prev_position: None,
            velocity: None,
            living: None,
            power: None,
            energy: None,
            ai: None,
            player: None,
            collider: None,
            inventory: None,
            item: None,
            name: None,
            visual: None,
            action: None,
        }
    }

    pub open spec fn empty_spec() -> Actor {
        Actor {
            position: None,
            prev_position: None,
            velocity: None,
            living: None,
            power: None,
            energy: None,
            ai: None,
            player: None,
            collider: None,
            inventory: None,
            item: None,
            name: None,
            visual: None,
            action: None,
        }
    }
}

/// An actor that carries an energy accumulator is a creature: it has the
/// full attribute set the scheduler and the resolution stages join on,
/// and a non-player creature is an alive monster with a monster behavior.
pub open spec fn creature_wf(a: Actor) -> bool {
    a.energy is Some ==> {
        &&& a.action is Some
        &&& a.position is Some
        &&& a.name is Some
        &&& a.power is Some
        &&& a.collider is Some
        &&& a.living is Some
        &&& (a.player is None ==> a.ai is Some && a.living.unwrap().alive)
    }
}

/// The player always has an accumulator, an inventory, and a behavior.
pub open spec fn player_wf(a: Actor) -> bool {
    a.player is Some ==> a.energy is Some && a.inventory is Some && a.ai is Some
}

/// Items are inert scenery until used: they never block, never act,
/// never decide, and never carry.
pub open spec fn item_wf(a: Actor) -> bool {
    a.item is Some ==> a.collider is None && a.energy is None && a.ai is None && a.inventory
        is None && a.action is None && a.living is None
}

/// A behavior attached to a non-player actor never bottoms out in player
/// pass-through.
pub open spec fn monster_ai_wf(a: Actor) -> bool {
    a.player is None && a.ai is Some ==> is_monster_ai(a.ai.unwrap())
}

/// The player's behavior always bottoms out in player pass-through, even
/// while confused.
pub open spec fn player_ai_wf(a: Actor) -> bool {
    a.player is Some && a.ai is Some ==> is_player_ai(a.ai.unwrap())
}

/// Every inventory entry is a valid handle of an inert row: carried items
/// never block a tile and never act, even after they are consumed and
/// their row is emptied.
pub open spec fn inv_wf(s: Seq<Actor>) -> bool {
    forall|i: int, k: int|
        0 <= i < s.len() && s[i].inventory is Some && 0 <= k < s[i].inventory.unwrap().0@.len()
            ==> s[i].inventory.unwrap().0@[k] < s.len() && s[s[i].inventory.unwrap().0@[k] as int].collider is None && s[s[i].inventory.unwrap().0@[k] as int].energy is None
}

/// There is at most one player-controlled actor.
pub open spec fn players_unique(s: Seq<Actor>) -> bool {
    forall|i: int, j: int|
        0 <= i < s.len() && 0 <= j < s.len() && s[i].player is Some && s[j].player is Some ==> i
            == j
}

/// No two colliding actors share a tile.
pub open spec fn positions_distinct(s: Seq<Actor>) -> bool {
    forall|i: int, j: int|
        0 <= i < s.len() && 0 <= j < s.len() && i != j && s[i].collider is Some
            && s[i].position is Some && s[j].collider is Some && s[j].position is Some
            ==> s[i].position.unwrap() != s[j].position.unwrap()
}

/// Positions the engine works with stay far inside the i32 range, so
/// coordinate differences never overflow the movement arithmetic.
pub open spec fn position_bounded(p: Position) -> bool {
    &&& -0x2000_0000 <= p.x <= 0x2000_0000
    &&& -0x2000_0000 <= p.y <= 0x2000_0000
}

/// Two rows that agree on everything except the decision fields (the
/// behavior state and the pending action): the frame of the behavior
/// engine.
pub open spec fn same_but_brain(a: Actor, b: Actor) -> bool {
    &&& b.position == a.position
    &&& b.prev_position == a.prev_position
    &&& b.velocity == a.velocity
    &&& b.living == a.living
    &&& b.power == a.power
    &&& b.energy == a.energy
    &&& b.player == a.player
    &&& b.collider == a.collider
    &&& b.inventory == a.inventory
    &&& b.item == a.item
    &&& b.name == a.name
    &&& b.visual == a.visual
}

/// The energy balance an actor carries, or zero without an accumulator.
pub open spec fn energy_val(a: Actor) -> int {
    if a.energy is Some {
        a.energy.unwrap().0 as int
    } else {
        0
    }
}

/// Two rows that agree on everything the combined move-or-melee stage
/// cannot touch; position, velocity, energy and hit points may change,
/// and hit points only downward.
pub open spec fn same_but_combat(a: Actor, b: Actor) -> bool {
    &&& b.prev_position == a.prev_position
    &&& b.power == a.power
    &&& b.player == a.player
    &&& b.collider == a.collider
    &&& b.inventory == a.inventory
    &&& b.item == a.item
    &&& b.name == a.name
    &&& b.visual == a.visual
    &&& b.ai == a.ai
    &&& b.action == a.action
    &&& (b.position is Some <==> a.position is Some)
    &&& (b.energy is Some <==> a.energy is Some)
    &&& (b.living is Some <==> a.living is Some)
    &&& (a.living is Some ==> {
        &&& b.living.unwrap().alive == a.living.unwrap().alive
        &&& b.living.unwrap().max_hp == a.living.unwrap().max_hp
        &&& b.living.unwrap().defense == a.living.unwrap().defense
        &&& b.living.unwrap().hp <= a.living.unwrap().hp
    })
}

/// Some collider stands on `p`.
pub open spec fn occupied_by_collider(s: Seq<Actor>, p: Position) -> bool {
    exists|i: int|
        0 <= i < s.len() && s[i].collider is Some && s[i].position == Some(p)
}

/// The store's well-formedness: what spawning establishes and every
/// resolution stage preserves.
pub open spec fn actors_wf(s: Seq<Actor>) -> bool {
    &&& forall|i: int| 0 <= i < s.len() ==> creature_wf(#[trigger] s[i])
    &&& forall|i: int| 0 <= i < s.len() ==> player_wf(#[trigger] s[i])
    &&& forall|i: int| 0 <= i < s.len() ==> item_wf(#[trigger] s[i])
    &&& forall|i: int| 0 <= i < s.len() ==> monster_ai_wf(#[trigger] s[i])
    &&& forall|i: int| 0 <= i < s.len() ==> player_ai_wf(#[trigger] s[i])
    &&& forall|i: int|
        0 <= i < s.len() && (#[trigger] s[i]).position is Some ==> position_bounded(
            s[i].position.unwrap(),
        )
    &&& inv_wf(s)
    &&& players_unique(s)
    &&& positions_distinct(s)
}

/// The visibility oracle's snapshot for one tick: a read-only grid of
/// which tiles the player currently sees.
pub struct Fov {
    pub visible: Vec<Vec<bool>>,
}

/// What the oracle reports for a coordinate; anything beyond its grid is
/// unseen.
pub open spec fn spec_in_fov(f: &Fov, x: int, y: int) -> bool {
    &&& 0 <= x < f.visible@.len()
    &&& 0 <= y < f.visible@[x]@.len()
    &&& f.visible@[x]@[y]
}

impl Fov {
    pub fn is_in_fov(&self, x: i32, y: i32) -> (r: bool)
        ensures
            r == spec_in_fov(self, x as int, y as int),
    {
        if x < 0 || y < 0 {
            return false;
        }
        let xi = x as usize;
        let yi = y as usize;
        if xi >= self.visible.len() {
            return false;
        }
        let column = &self.visible[xi];
        if yi >= column.len() {
            return false;
        }
        column[yi]
    }
}

/// The world the stages communicate through: the actor store plus the
/// global resources (terrain, message log, game state, pending input,
/// open menu, and any suspended targeting).
pub struct GameWorld {
    pub actors: Vec<Actor>,
    pub map: GameMap,
    pub messages: Messages,
    pub state: State,
    pub input: InputAction,
    pub menu: Option<Menu>,
    pub targeting: Option<Targeting>,
}

/// A terrain grid and spawn point whose coordinates stay far inside the
/// i32 range.
pub open spec fn map_ok(m: &GameMap) -> bool {
    &&& crate::map::grid_view(m.tiles).len() <= 0x2000_0000
    &&& forall|i: int|
        0 <= i < crate::map::grid_view(m.tiles).len()
            ==> (#[trigger] crate::map::grid_view(m.tiles)[i]).len() <= 0x2000_0000
    &&& position_bounded(m.spawn_point)
}

/// Well-formedness of the whole world.
pub open spec fn world_wf(w: &GameWorld) -> bool {
    &&& actors_wf(w.actors@)
    &&& map_ok(&w.map)
    &&& w.messages.limit > 0
}

/// Whether a live player-controlled actor exists.
pub open spec fn spec_player_alive(s: Seq<Actor>) -> bool {
    exists|i: int|
        0 <= i < s.len() && s[i].player is Some && s[i].living is Some
            && s[i].living.unwrap().alive
}

/// Find the player's row index.
pub fn find_player(actors: &Vec<Actor>) -> (r: Option<usize>)
    ensures
        match r {
            Some(i) => i < actors@.len() && actors@[i as int].player is Some,
            None => forall|j: int| 0 <= j < actors@.len() ==> actors@[j].player is None,
        },
{
    let mut i: usize = 0;
    while i < actors.len()
        invariant
            i <= actors@.len(),
            forall|j: int| 0 <= j < i ==> actors@[j].player is None,
        decreases actors@.len() - i,
    {
        if actors[i].player.is_some() {
            return Some(i);
        }
        i = i + 1;
    }
    None
}

/// Whether the player is alive; false when there is no player at all.
pub fn player_is_alive(actors: &Vec<Actor>) -> (r: bool)
    requires
        players_unique(actors@),
    ensures
        r == spec_player_alive(actors@),
{
    match find_player(actors) {
        Some(i) => match &actors[i].living {
            Some(l) => l.alive,
            None => false,
        },
        None => false,
    }
}

/// The player's current position, if the player exists and has one.
pub fn find_player_position(actors: &Vec<Actor>) -> (r: Option<Position>)
    requires
        players_unique(actors@),
    ensures
        match r {
            Some(p) => exists|i: int|
                0 <= i < actors@.len() && #[trigger] actors@[i].player is Some
                    && actors@[i].position == Some(p),
            None => forall|i: int|
                0 <= i < actors@.len() && #[trigger] actors@[i].player is Some
                    ==> actors@[i].position is None,
        },
{
    match find_player(actors) {
        Some(i) => match &actors[i].position {
            Some(p) => Some(*p),
            None => None,
        },
        None => None,
    }
}

/// Inventory references stay valid across a mutation that keeps every
/// inventory and never revives a collider or an accumulator on an inert
/// row.
pub proof fn lemma_inv_wf_preserved(s1: Seq<Actor>, s2: Seq<Actor>)
    requires
        inv_wf(s1),
        s2.len() == s1.len(),
        forall|i: int| 0 <= i < s1.len() ==> (#[trigger] s2[i]).inventory == s1[i].inventory,
        forall|i: int|
            0 <= i < s1.len() && (#[trigger] s1[i]).collider is None && s1[i].energy is None
                ==> s2[i].collider is None && s2[i].energy is None,
    ensures
        inv_wf(s2),
{
    assert forall|i: int, k: int|
        0 <= i < s2.len() && s2[i].inventory is Some && 0 <= k
            < s2[i].inventory.unwrap().0@.len() implies s2[i].inventory.unwrap().0@[k]
        < s2.len() && s2[s2[i].inventory.unwrap().0@[k] as int].collider is None
        && s2[s2[i].inventory.unwrap().0@[k] as int].energy is None by {
        assert(s2[i].inventory == s1[i].inventory);
        let h = s1[i].inventory.unwrap().0@[k] as int;
        assert(s1[h].collider is None && s1[h].energy is None);
    }
}

/// Inventory references survive deleting one row outright: the emptied
/// row is inert, and every other row is untouched.
pub proof fn lemma_inv_wf_after_delete(s1: Seq<Actor>, s2: Seq<Actor>, d: int)
    requires
        inv_wf(s1),
        s2.len() == s1.len(),
        0 <= d < s1.len(),
        s2[d] == Actor::empty_spec(),
        forall|i: int| 0 <= i < s1.len() && i != d ==> #[trigger] s2[i] == s1[i],
    ensures
        inv_wf(s2),
{
    assert forall|i: int, k: int|
        0 <= i < s2.len() && s2[i].inventory is Some && 0 <= k
            < s2[i].inventory.unwrap().0@.len() implies s2[i].inventory.unwrap().0@[k]
        < s2.len() && s2[s2[i].inventory.unwrap().0@[k] as int].collider is None
        && s2[s2[i].inventory.unwrap().0@[k] as int].energy is None by {
        assert(i != d);
        assert(s2[i] == s1[i]);
        let h = s1[i].inventory.unwrap().0@[k] as int;
        assert(s1[h].collider is None && s1[h].energy is None);
        if h != d {
            assert(s2[h] == s1[h]);
        }
    }
}

/// Inventory references survive taking one entry out of one inventory.
pub proof fn lemma_inv_wf_after_remove(s1: Seq<Actor>, s2: Seq<Actor>, who: int, at: int)
    requires
        inv_wf(s1),
        s2.len() == s1.len(),
        0 <= who < s1.len(),
        s1[who].inventory is Some,
        0 <= at < s1[who].inventory.unwrap().0@.len(),
        s2[who].inventory is Some,
        s2[who].inventory.unwrap().0@ == s1[who].inventory.unwrap().0@.remove(at),
        s2[who].collider == s1[who].collider,
        s2[who].energy == s1[who].energy,
        forall|i: int| 0 <= i < s1.len() && i != who ==> #[trigger] s2[i] == s1[i],
    ensures
        inv_wf(s2),
{
    assert forall|i: int, k: int|
        0 <= i < s2.len() && s2[i].inventory is Some && 0 <= k
            < s2[i].inventory.unwrap().0@.len() implies s2[i].inventory.unwrap().0@[k]
        < s2.len() && s2[s2[i].inventory.unwrap().0@[k] as int].collider is None
        && s2[s2[i].inventory.unwrap().0@[k] as int].energy is None by {
        let h: int = if i == who {
            if k < at {
                s1[who].inventory.unwrap().0@[k] as int
            } else {
                s1[who].inventory.unwrap().0@[k + 1] as int
            }
        } else {
            s1[i].inventory.unwrap().0@[k] as int
        };
        assert(s2[i].inventory.unwrap().0@[k] as int == h);
        assert(s1[h].collider is None && s1[h].energy is None);
        if h != who {
            assert(s2[h] == s1[h]);
        }
    }
}

/// Adding a well-formed non-player row whose collider (if any) stands on
/// a free tile keeps the store well-formed.
pub proof fn lemma_push_preserves_wf(s: Seq<Actor>, a: Actor)
    requires
        actors_wf(s),
        creature_wf(a),
        player_wf(a),
        item_wf(a),
        monster_ai_wf(a),
        a.player is None,
        a.inventory is None,
        a.collider is Some ==> a.position is Some && !occupied_by_collider(
            s,
            a.position.unwrap(),
        ),
        a.position is Some ==> position_bounded(a.position.unwrap()),
    ensures
        actors_wf(s.push(a)),
{
    let t = s.push(a);
    assert forall|i: int| 0 <= i < t.len() implies creature_wf(#[trigger] t[i])
        && player_wf(t[i]) && item_wf(t[i]) && monster_ai_wf(t[i]) by {
        if i < s.len() {
            assert(t[i] == s[i]);
        } else {
            assert(t[i] == a);
        }
    }
    assert(inv_wf(t)) by {
        assert forall|i: int, k: int|
            0 <= i < t.len() && t[i].inventory is Some && 0 <= k
                < t[i].inventory.unwrap().0@.len() implies t[i].inventory.unwrap().0@[k]
            < t.len() && t[t[i].inventory.unwrap().0@[k] as int].collider is None
            && t[t[i].inventory.unwrap().0@[k] as int].energy is None by {
            assert(i < s.len() && t[i] == s[i]);
            assert(s[i].inventory.unwrap().0@[k] < s.len());
            assert(t[s[i].inventory.unwrap().0@[k] as int] == s[s[i].inventory.unwrap().0@[
                k] as int]);
        }
    }
    assert(positions_distinct(t)) by {
        assert forall|i: int, j: int|
            0 <= i < t.len() && 0 <= j < t.len() && i != j && t[i].collider is Some
                && t[i].position is Some && t[j].collider is Some && t[j].position is Some
            implies t[i].position.unwrap() != t[j].position.unwrap() by {
            if i < s.len() && j < s.len() {
            } else if i < s.len() && j == s.len() {
                if t[i].position.unwrap() == a.position.unwrap() {
                    assert(occupied_by_collider(s, a.position.unwrap()));
                }
            } else if i == s.len() && j < s.len() {
                if t[j].position.unwrap() == a.position.unwrap() {
                    assert(occupied_by_collider(s, a.position.unwrap()));
                }
            }
        }
    }
}

/// Keyed blocked-ness over a map together with some join context that
/// supplies the colliding actors.
pub trait CalculateBlockedMapExt<T> {
    /// What `is_blocked` decides, as a predicate.
    spec fn blocked_spec(&self, pos: Position, context: T) -> bool;

    /// Whether terrain or a colliding actor blocks `pos`.
    fn is_blocked(&self, pos: &Position, context: T) -> (r: bool)
        ensures
            r == self.blocked_spec(*pos, context),
    ;
}

impl<'a> CalculateBlockedMapExt<&'a Vec<Actor>> for GameMap {
    open spec fn blocked_spec(&self, pos: Position, actors: &'a Vec<Actor>) -> bool {
        crate::map::tile_blocked(crate::map::grid_view(self.tiles), pos)
            || occupied_by_collider(actors@, pos)
    }

    fn is_blocked(&self, pos: &Position, actors: &'a Vec<Actor>) -> (r: bool)
        ensures
            r == self.blocked_spec(*pos, actors),
    {
        if self.tile_is_blocked(pos) {
            return true;
        }
        let mut i: usize = 0;
        while i < actors.len()
            invariant
                i <= actors@.len(),
                forall|j: int|
                    0 <= j < i ==> !(actors@[j].collider is Some && actors@[j].position == Some(
                        *pos,
                    )),
            decreases actors@.len() - i,
        {
            if actors[i].collider.is_some() {
                if let Some(p) = &actors[i].position {
                    if p.x == pos.x && p.y == pos.y {
                        return true;
                    }
                }
            }
            i = i + 1;
        }
        false
    }
}

/// Blocked-ness asked of the whole world.
pub trait CalculateBlockedWorldExt {
    /// What `is_blocked` decides, as a predicate.
    spec fn blocked_spec(&self, pos: Position) -> bool;

    /// Whether terrain or a colliding actor blocks `pos`.
    fn is_blocked(&self, pos: &Position) -> (r: bool)
        ensures
            r == self.blocked_spec(*pos),
    ;
}

impl CalculateBlockedWorldExt for GameWorld {
    open spec fn blocked_spec(&self, pos: Position) -> bool {
        crate::map::tile_blocked(crate::map::grid_view(self.map.tiles), pos)
            || occupied_by_collider(self.actors@, pos)
    }

    fn is_blocked(&self, pos: &Position) -> (r: bool)
        ensures
            r == self.blocked_spec(*pos),
    {
        CalculateBlockedMapExt::is_blocked(&self.map, pos, &self.actors)
    }
}

impl GameWorld {
    /// An empty world at the main menu.
    pub fn new() -> (r: GameWorld)
        ensures
            world_wf(&r),
            r.actors@.len() == 0,
            r.state == State::MainMenu,
            r.input == InputAction::Noop,
            r.menu is None,
            r.targeting is None,
    {
        GameWorld {
            actors: Vec::new(),
            map: GameMap::empty(),
            messages: Messages::default(),
            state: State::MainMenu,
            input: InputAction::Noop,
            menu: None,
            targeting: None,
        }
    }
}

/// Post the opening narration.
pub fn welcome_message(w: &mut GameWorld)
    requires
        world_wf(old(w)),
    ensures
        world_wf(final(w)),
        final(w).actors == old(w).actors,
        final(w).state == old(w).state,
        final(w).map == old(w).map,
        final(w).input == old(w).input,
        final(w).menu == old(w).menu,
        final(w).targeting == old(w).targeting,
        final(w).messages.inner@.last() == (Msg::Welcome, Color::Red),
        crate::resources::log_view(final(w).messages.inner@) == crate::resources::push_view(
            crate::resources::log_view(old(w).messages.inner@),
            old(w).messages.limit as int,
            (crate::resources::MsgV::Welcome, Color::Red),
        ),
        final(w).messages.limit == old(w).messages.limit,
{
    w.messages.push(Msg::Welcome, Color::Red);
}

/// Tear the level down: clear the log and delete every actor.
pub fn end_game(w: &mut GameWorld)
    ensures
        actors_wf(final(w).actors@),
        final(w).messages.limit > 0,
        map_ok(&old(w).map) ==> world_wf(final(w)),
        final(w).map == old(w).map,
        final(w).actors@.len() == 0,
        final(w).messages.limit == old(w).messages.limit || final(w).messages.limit > 0,
        final(w).messages.inner@.len() == 0,
        final(w).state == old(w).state,
{
    if w.messages.limit == 0 {
        w.messages = Messages::default();
    }
    w.messages.clear();
    w.actors.clear();
}

/// Create the player at the map's spawn point with the full starting
/// attribute set.
#[verifier::rlimit(60)]
pub fn spawn_player(w: &mut GameWorld)
    requires
        world_wf(old(w)),
        forall|j: int| 0 <= j < old(w).actors@.len() ==> old(w).actors@[j].player is None,
        !occupied_by_collider(old(w).actors@, old(w).map.spawn_point),
    ensures
        world_wf(final(w)),
        final(w).actors@.len() == old(w).actors@.len() + 1,
        forall|j: int|
            0 <= j < old(w).actors@.len() ==> final(w).actors@[j] == old(w).actors@[j],
        ({
            let p = final(w).actors@.last();
            &&& p.player is Some
            &&& p.position == Some(old(w).map.spawn_point)
            &&& p.living == Some(Living { alive: true, max_hp: 30, hp: 30, defense: 2 })
            &&& p.power == Some(Power(5))
            &&& p.energy == Some(Energy(0))
            &&& p.action == Some(Action::WaitForInput)
            &&& p.ai == Some(Ai::Player)
            &&& p.inventory is Some && p.inventory.unwrap().0@.len() == 0
        }),
        final(w).map == old(w).map,
        final(w).messages == old(w).messages,
        final(w).state == old(w).state,
{
    let spawn = w.map.spawn_point;
    proof {
        assert(is_player_ai(Ai::Player));
        assert(position_bounded(spawn));
    }
    let actor = Actor {
        position: Some(spawn),
        prev_position: Some(PreviousPosition { x: -1, y: -1 }),
        velocity: Some(Velocity::new()),
        living: Some(Living { alive: true, max_hp: 30, hp: 30, defense: 2 }),
        power: Some(Power(5)),
        energy: Some(Energy::new()),
        ai: Some(Ai::Player),
        player: Some(Player::new()),
        collider: Some(Collider::new()),
        inventory: Some(Inventory::new()),
        item: None,
        name: Some(Name::new("player")),
        visual: Some(
            Visual { glyph: '@', color: Color::White, always_visible: false },
        ),
        action: Some(Action::WaitForInput),
    };
    w.actors.push(actor);
    proof {
        let s = w.actors@;
        let prev = old(w).actors@;
        assert forall|j: int|
            0 <= j < s.len() implies creature_wf(#[trigger] s[j]) && player_wf(s[j]) && item_wf(
            s[j],
        ) && monster_ai_wf(s[j]) && player_ai_wf(s[j]) && (s[j].position is Some
            ==> position_bounded(s[j].position.unwrap())) by {
            if j < prev.len() {
                assert(s[j] == prev[j]);
            } else {
                assert(s[j] == s.last());
            }
        }
        assert(inv_wf(s)) by {
            assert forall|i: int, k: int|
                0 <= i < s.len() && s[i].inventory is Some && 0 <= k
                    < s[i].inventory.unwrap().0@.len() implies s[i].inventory.unwrap().0@[k]
                < s.len() && s[s[i].inventory.unwrap().0@[k] as int].collider is None
                && s[s[i].inventory.unwrap().0@[k] as int].energy is None by {
                if i < prev.len() {
                    assert(s[i] == prev[i]);
                    assert(s[s[i].inventory.unwrap().0@[k] as int] == prev[s[i].inventory.unwrap().0@[
                        k] as int]);
                }
            }
        }
        assert(positions_distinct(s)) by {
            assert forall|i: int, j: int|
                0 <= i < s.len() && 0 <= j < s.len() && i != j && s[i].collider is Some
                    && s[i].position is Some && s[j].collider is Some && s[j].position is Some
                implies s[i].position.unwrap() != s[j].position.unwrap() by {
                if i < prev.len() && j == prev.len() {
                    if s[i].position.unwrap() == s[j].position.unwrap() {
                        assert(occupied_by_collider(prev, old(w).map.spawn_point));
                    }
                } else if i == prev.len() && j < prev.len() {
                    if s[i].position.unwrap() == s[j].position.unwrap() {
                        assert(occupied_by_collider(prev, old(w).map.spawn_point));
                    }
                }
            }
        }
        assert(players_unique(s));
        assert(actors_wf(s));
    }
}

} // verus!
