//! Game flow: starting a fresh game, descending to the next level, and
//! the main-menu round trip — plus an executable well-formedness check
//! for worlds that arrive from outside (a loaded save).

use crate::components::{is_monster_ai, is_player_ai, Ai};
use crate::map::grid_view;
use crate::mapgen::{generate_map, placed_actor_ok};
use crate::menu_sys::menu_system;
use crate::components::Color;
use crate::resources::{InputAction, MenuKind, State};
use crate::world::{
    end_game, lemma_inv_wf_after_delete, occupied_by_collider, position_bounded,
    spawn_player, spec_player_alive, welcome_message, world_wf, Actor, GameWorld,
};
use vstd::prelude::*;

verus! {

/// The pending input token.
pub fn get_action(w: &GameWorld) -> (r: InputAction)
    ensures
        r == w.input,
{
    w.input
}

/// Whether the player asked to leave the game.
pub fn exited(w: &GameWorld) -> (r: bool)
    ensures
        r == (w.input == InputAction::Exit),
{
    w.input == InputAction::Exit
}

/// Open the main menu: feed the menu stage the main-menu token, then
/// reset the input.
pub fn main_menu(w: &mut GameWorld)
    requires
        world_wf(old(w)),
    ensures
        world_wf(final(w)),
        final(w).menu matches Some(m) && m.kind == MenuKind::Main,
        final(w).state == State::MainMenu,
        final(w).input == InputAction::Noop,
        final(w).actors == old(w).actors,
{
    w.input = InputAction::MainMenu;
    menu_system(w);
    w.input = InputAction::Noop;
}

/// Start a fresh game: tear the old level down, generate a new one,
/// spawn the player at its spawn point, post the welcome line, and enter
/// play.
pub fn new_game(w: &mut GameWorld)
    requires
        world_wf(old(w)),
    ensures
        world_wf(final(w)),
        spec_player_alive(final(w).actors@),
        crate::dispatcher::sim_progress(final(w).actors@),
        final(w).state == State::Game,
        final(w).actors@.len() >= 1,
        ({
            let p = final(w).actors@.last();
            &&& p.player is Some
            &&& p.position == Some(final(w).map.spawn_point)
            &&& p.living == Some(
                crate::components::Living { alive: true, max_hp: 30, hp: 30, defense: 2 },
            )
            &&& p.power == Some(crate::components::Power(5))
            &&& p.energy == Some(crate::energy::Energy(0))
            &&& p.action == Some(crate::action::Action::WaitForInput)
            &&& p.ai == Some(Ai::Player)
            &&& p.inventory is Some && p.inventory.unwrap().0@.len() == 0
        }),
        forall|j: int|
            0 <= j < final(w).actors@.len() - 1 ==> crate::mapgen::placed_actor_ok(
                #[trigger] final(w).actors@[j],
                final(w).map.spawn_point,
            ),
        grid_view(final(w).map.tiles).len() == crate::map::MAP_WIDTH,
        forall|i: int|
            0 <= i < crate::map::MAP_WIDTH ==> (#[trigger] grid_view(
                final(w).map.tiles,
            )[i]).len() == crate::map::MAP_HEIGHT,
        0 <= final(w).map.spawn_point.x < crate::map::MAP_WIDTH,
        0 <= final(w).map.spawn_point.y < crate::map::MAP_HEIGHT,
        crate::resources::log_view(final(w).messages.inner@) =~= seq![
            (crate::resources::MsgV::Welcome, Color::Red),
        ],
{
    end_game(w);
    generate_map(w);
    proof {
        assert(!occupied_by_collider(w.actors@, w.map.spawn_point)) by {
            if occupied_by_collider(w.actors@, w.map.spawn_point) {
                let i = choose|i: int|
                    0 <= i < w.actors@.len() && (#[trigger] w.actors@[i]).collider is Some
                        && w.actors@[i].position == Some(w.map.spawn_point);
                assert(placed_actor_ok(w.actors@[i], w.map.spawn_point));
            }
        }
        assert forall|j: int| 0 <= j < w.actors@.len() implies (#[trigger] w.actors@[j]).player
            is None by {
            assert(placed_actor_ok(w.actors@[j], w.map.spawn_point));
        }
    }
    spawn_player(w);
    welcome_message(w);
    w.state = State::Game;
    proof {
        let s = w.actors@;
        assert(s[s.len() - 1].player is Some && s[s.len() - 1].living is Some && s[s.len()
            - 1].living.unwrap().alive);
    }
}

/// Descend a level: delete every placed actor except the player (items
/// carried in the inventory have no position and survive), generate a new
/// level, and move the player to its spawn point.
pub fn next_level(w: &mut GameWorld)
    requires
        world_wf(old(w)),
    ensures
        world_wf(final(w)),
        final(w).actors@.len() >= old(w).actors@.len(),
        forall|j: int|
            0 <= j < old(w).actors@.len() && (#[trigger] old(w).actors@[j]).position is Some
                && old(w).actors@[j].player is None ==> final(w).actors@[j]
                == Actor::empty_spec(),
        forall|j: int|
            0 <= j < old(w).actors@.len() && (#[trigger] old(w).actors@[j]).position is None
                && old(w).actors@[j].player is None ==> final(w).actors@[j] == old(w).actors@[j],
        forall|j: int|
            0 <= j < old(w).actors@.len() && (#[trigger] old(w).actors@[j]).player is Some
                ==> final(w).actors@[j] == (Actor {
                position: Some(final(w).map.spawn_point),
                ..old(w).actors@[j]
            }),
        forall|j: int|
            old(w).actors@.len() <= j < final(w).actors@.len() ==> placed_actor_ok(
                #[trigger] final(w).actors@[j],
                final(w).map.spawn_point,
            ),
        grid_view(final(w).map.tiles).len() == crate::map::MAP_WIDTH,
        forall|i: int|
            0 <= i < crate::map::MAP_WIDTH ==> (#[trigger] grid_view(
                final(w).map.tiles,
            )[i]).len() == crate::map::MAP_HEIGHT,
{
    // Clean up everything placed on the old level, keeping the player.
    let mut i: usize = 0;
    while i < w.actors.len()
        invariant
            world_wf(w),
            i <= w.actors@.len(),
            w.actors@.len() == old(w).actors@.len(),
            forall|j: int|
                0 <= j < i && (#[trigger] w.actors@[j]).position is Some ==> w.actors@[j].player
                    is Some,
            forall|j: int|
                i <= j < w.actors@.len() ==> #[trigger] w.actors@[j] == old(w).actors@[j],
            forall|j: int|
                0 <= j < i ==> (#[trigger] w.actors@[j]).player == old(w).actors@[j].player,
            forall|j: int|
                0 <= j < i && (#[trigger] old(w).actors@[j]).position is Some && old(w).actors@[
                    j].player is None ==> w.actors@[j] == Actor::empty_spec(),
            forall|j: int|
                0 <= j < i && !((#[trigger] old(w).actors@[j]).position is Some && old(w).actors@[
                    j].player is None) ==> w.actors@[j] == old(w).actors@[j],
        decreases w.actors@.len() - i,
    {
        let mut delete = false;
        {
            let a = &w.actors[i];
            if a.position.is_some() && a.player.is_none() {
                delete = true;
            }
        }
        if delete {
            let ghost mid = w.actors@;
            w.actors[i] = Actor::empty();
            proof {
                lemma_inv_wf_after_delete(mid, w.actors@, i as int);
            }
        }
        i = i + 1;
    }
    // Then build the new level.
    generate_map(w);
    // And move the player to the spawn point of the new map.
    let ghost before = w.actors@;
    let ghost old_len = old(w).actors@.len();
    match crate::world::find_player(&w.actors) {
        Some(p) => {
            proof {
                assert(position_bounded(w.map.spawn_point));
            }
            w.actors[p].position = Some(w.map.spawn_point);
            proof {
                let s = w.actors@;
                assert(crate::world::positions_distinct(s)) by {
                    assert forall|a: int, b: int|
                        0 <= a < s.len() && 0 <= b < s.len() && a != b && s[a].collider is Some
                            && s[a].position is Some && s[b].collider is Some && s[b].position
                            is Some implies s[a].position.unwrap() != s[b].position.unwrap() by {
                        if a == p as int || b == p as int {
                            let o: int = if a == p as int {
                                b
                            } else {
                                a
                            };
                            if o < old_len {
                                assert(before[o].position is Some ==> before[o].player is Some);
                                assert(o != p as int ==> !(s[o].player is Some && s[
                                    p as int].player is Some) || o == p as int);
                            } else {
                                assert(placed_actor_ok(before[o], w.map.spawn_point));
                            }
                        }
                    }
                }
                crate::world::lemma_inv_wf_preserved(before, w.actors@);
            }
        },
        None => {},
    }
}

/// Whether a behavior bottoms out in basic pursuit rather than player
/// pass-through.
fn is_monster_ai_exec(ai: &Ai) -> (r: bool)
    ensures
        r == is_monster_ai(*ai),
    decreases *ai,
{
    match ai {
        Ai::Basic => true,
        Ai::Confused { previous_ai, .. } => is_monster_ai_exec(previous_ai),
        Ai::Player => false,
    }
}

/// Check a whole world's well-formedness at run time: what a world from
/// outside the engine (a loaded save) must pass before the scheduler may
/// run on it.
pub fn check_world(w: &GameWorld) -> (r: bool)
    ensures
        r == world_wf(w),
{
    if w.messages.limit == 0 {
        return false;
    }
    // The terrain and spawn point must stay far inside the i32 range.
    if w.map.spawn_point.x < -0x2000_0000 || w.map.spawn_point.x > 0x2000_0000
        || w.map.spawn_point.y < -0x2000_0000 || w.map.spawn_point.y > 0x2000_0000 {
        proof {
            assert(!crate::world::map_ok(&w.map));
        }
        return false;
    }
    if w.map.tiles.len() > 0x2000_0000 {
        proof {
            assert(grid_view(w.map.tiles).len() > 0x2000_0000);
            assert(!crate::world::map_ok(&w.map));
        }
        return false;
    }
    let mut x: usize = 0;
    while x < w.map.tiles.len()
        invariant
            x <= w.map.tiles@.len(),
            forall|i: int|
                0 <= i < x ==> (#[trigger] grid_view(w.map.tiles)[i]).len() <= 0x2000_0000,
        decreases w.map.tiles@.len() - x,
    {
        if w.map.tiles[x].len() > 0x2000_0000 {
            proof {
                assert(grid_view(w.map.tiles)[x as int] == w.map.tiles@[x as int]@);
                assert(!crate::world::map_ok(&w.map));
            }
            return false;
        }
        proof {
            assert(grid_view(w.map.tiles)[x as int] == w.map.tiles@[x as int]@);
        }
        x = x + 1;
    }
    // Per-row checks.
    let mut seen_player = false;
    let mut i: usize = 0;
    while i < w.actors.len()
        invariant
            i <= w.actors@.len(),
            forall|j: int| 0 <= j < i ==> crate::world::creature_wf(#[trigger] w.actors@[j]),
            forall|j: int| 0 <= j < i ==> crate::world::player_wf(#[trigger] w.actors@[j]),
            forall|j: int| 0 <= j < i ==> crate::world::item_wf(#[trigger] w.actors@[j]),
            forall|j: int| 0 <= j < i ==> crate::world::monster_ai_wf(#[trigger] w.actors@[j]),
            forall|j: int| 0 <= j < i ==> crate::world::player_ai_wf(#[trigger] w.actors@[j]),
            forall|j: int|
                0 <= j < i && (#[trigger] w.actors@[j]).position is Some ==> position_bounded(
                    w.actors@[j].position.unwrap(),
                ),
            seen_player ==> exists|j: int|
                0 <= j < i && (#[trigger] w.actors@[j]).player is Some,
            !seen_player ==> forall|j: int|
                0 <= j < i ==> (#[trigger] w.actors@[j]).player is None,
            forall|j1: int, j2: int|
                0 <= j1 < i && 0 <= j2 < i && w.actors@[j1].player is Some && w.actors@[
                    j2].player is Some ==> j1 == j2,
        decreases w.actors@.len() - i,
    {
        let a = &w.actors[i];
        if a.energy.is_some() {
            if !(a.action.is_some() && a.position.is_some() && a.name.is_some()
                && a.power.is_some() && a.collider.is_some() && a.living.is_some()) {
                proof {
                    assert(!crate::world::creature_wf(w.actors@[i as int]));
                }
                return false;
            }
            if a.player.is_none() {
                let mut alive = false;
                if let Some(l) = &a.living {
                    alive = l.alive;
                }
                if a.ai.is_none() || !alive {
                    proof {
                        assert(!crate::world::creature_wf(w.actors@[i as int]));
                    }
                    return false;
                }
            }
        }
        if a.player.is_some() {
            if seen_player {
                proof {
                    let j = choose|j: int|
                        0 <= j < i && (#[trigger] w.actors@[j]).player is Some;
                    assert(!crate::world::players_unique(w.actors@));
                }
                return false;
            }
            seen_player = true;
            if a.energy.is_none() || a.inventory.is_none() || a.ai.is_none() {
                proof {
                    assert(!crate::world::player_wf(w.actors@[i as int]));
                }
                return false;
            }
        }
        if a.item.is_some() {
            if a.collider.is_some() || a.energy.is_some() || a.ai.is_some()
                || a.inventory.is_some() || a.action.is_some() || a.living.is_some() {
                proof {
                    assert(!crate::world::item_wf(w.actors@[i as int]));
                }
                return false;
            }
        }
        match &a.ai {
            Some(ai) => {
                let rooted_monster = is_monster_ai_exec(ai);
                if a.player.is_none() && !rooted_monster {
                    proof {
                        assert(!crate::world::monster_ai_wf(w.actors@[i as int]));
                    }
                    return false;
                }
                if a.player.is_some() && rooted_monster {
                    proof {
                        crate::game::lemma_ai_rooted(a.ai.unwrap());
                        assert(!crate::world::player_ai_wf(w.actors@[i as int]));
                    }
                    return false;
                }
                proof {
                    crate::game::lemma_ai_rooted(a.ai.unwrap());
                }
            },
            None => {},
        }
        if let Some(p) = &a.position {
            if p.x < -0x2000_0000 || p.x > 0x2000_0000 || p.y < -0x2000_0000 || p.y
                > 0x2000_0000 {
                proof {
                    assert(!position_bounded(w.actors@[i as int].position.unwrap()));
                }
                return false;
            }
        }
        i = i + 1;
    }
    // Inventory references.
    let mut i2: usize = 0;
    while i2 < w.actors.len()
        invariant
            i2 <= w.actors@.len(),
            forall|j: int, k: int|
                #![trigger w.actors@[j].inventory.unwrap().0@[k]]
                0 <= j < i2 && w.actors@[j].inventory is Some && 0 <= k < w.actors@[
                    j].inventory.unwrap().0@.len() ==> w.actors@[j].inventory.unwrap().0@[k]
                    < w.actors@.len() && w.actors@[w.actors@[j].inventory.unwrap().0@[
                    k] as int].collider is None && w.actors@[w.actors@[j].inventory.unwrap().0@[
                    k] as int].energy is None,
        decreases w.actors@.len() - i2,
    {
        if let Some(inv) = &w.actors[i2].inventory {
            let mut k: usize = 0;
            while k < inv.0.len()
                invariant
                    i2 < w.actors@.len(),
                    w.actors@[i2 as int].inventory == Some(*inv),
                    k <= inv.0@.len(),
                    forall|k2: int|
                        0 <= k2 < k ==> #[trigger] inv.0@[k2] < w.actors@.len() && w.actors@[
                            inv.0@[k2] as int].collider is None && w.actors@[
                            inv.0@[k2] as int].energy is None,
                decreases inv.0@.len() - k,
            {
                let h = inv.0[k];
                if h >= w.actors.len() {
                    proof {
                        assert(w.actors@[i2 as int].inventory.unwrap().0@[k as int] == h);
                        assert(!crate::world::inv_wf(w.actors@));
                    }
                    return false;
                }
                if w.actors[h].collider.is_some() || w.actors[h].energy.is_some() {
                    proof {
                        assert(w.actors@[i2 as int].inventory.unwrap().0@[k as int] == h);
                        assert(!crate::world::inv_wf(w.actors@));
                    }
                    return false;
                }
                k = k + 1;
            }
        }
        i2 = i2 + 1;
    }
    // Distinct collider positions.
    let mut a1: usize = 0;
    while a1 < w.actors.len()
        invariant
            a1 <= w.actors@.len(),
            forall|j1: int, j2: int|
                0 <= j1 < a1 && 0 <= j2 < w.actors@.len() && j1 != j2 && w.actors@[j1].collider
                    is Some && w.actors@[j1].position is Some && w.actors@[j2].collider is Some
                    && w.actors@[j2].position is Some ==> w.actors@[j1].position.unwrap()
                    != w.actors@[j2].position.unwrap(),
        decreases w.actors@.len() - a1,
    {
        let placed = w.actors[a1].collider.is_some() && w.actors[a1].position.is_some();
        if placed {
            let p1 = match &w.actors[a1].position {
                Some(p) => *p,
                None => crate::position::Position { x: 0, y: 0 },
            };
            let mut a2: usize = 0;
            while a2 < w.actors.len()
                invariant
                    a1 < w.actors@.len(),
                    a2 <= w.actors@.len(),
                    w.actors@[a1 as int].collider is Some,
                    w.actors@[a1 as int].position == Some(p1),
                    forall|j2: int|
                        0 <= j2 < a2 && j2 != a1 && w.actors@[j2].collider is Some
                            && w.actors@[j2].position is Some ==> w.actors@[
                            j2].position.unwrap() != p1,
                decreases w.actors@.len() - a2,
            {
                if a2 != a1 && w.actors[a2].collider.is_some() {
                    if let Some(p2) = &w.actors[a2].position {
                        if p2.x == p1.x && p2.y == p1.y {
                            proof {
                                assert(!crate::world::positions_distinct(w.actors@));
                            }
                            return false;
                        }
                    }
                }
                a2 = a2 + 1;
            }
        }
        a1 = a1 + 1;
    }
    true
}

/// A behavior is rooted in exactly one of the two leaf behaviors.
pub proof fn lemma_ai_rooted(ai: Ai)
    ensures
        is_monster_ai(ai) <==> !is_player_ai(ai),
    decreases ai,
{
    match ai {
        Ai::Confused { previous_ai, .. } => {
            lemma_ai_rooted(*previous_ai);
        },
        _ => {},
    }
}

} // verus!
