//! The behavior engine: per-actor decision functions mapping world state
//! to an action, dispatched on the actor's behavior state machine.

use crate::action::Action;
use crate::components::{is_monster_ai, is_player_ai, Ai, Color, Name};
use crate::position::Position;
use crate::resources::{InputAction, Messages, Msg};
use crate::rng::rand_range;
use crate::velocity::{Heading, Velocity};
use crate::action::cost_of;
use crate::world::{
    actors_wf, find_player_position, player_is_alive, position_bounded, same_but_brain,
    spec_in_fov, spec_player_alive, world_wf, Actor, Fov, GameWorld,
};
use crate::resources::State;
use vstd::prelude::*;

verus! {

/// An actor the behavior engine asks to decide: alive, placed, thinking,
/// and holding an action slot.
pub open spec fn ai_processed(a: Actor) -> bool {
    &&& a.living is Some
    &&& a.living.unwrap().alive
    &&& a.position is Some
    &&& a.ai is Some
    &&& a.action is Some
}

/// After a decision pass, every monster that carries an accumulator holds
/// a decision that costs at least one energy: the fact that drains the
/// simulate phase.
pub open spec fn monster_actions_wf(s: Seq<Actor>) -> bool {
    forall|i: int|
        0 <= i < s.len() && (#[trigger] s[i]).player is None && s[i].energy is Some
            ==> s[i].action is Some && monster_action_ok(s[i].action.unwrap())
}

/// What a monster decision always looks like: a wait of at least one tick
/// or a move of at least one step, so a monster that can act always pays
/// at least one energy for its turn.
pub open spec fn monster_action_ok(a: Action) -> bool {
    ||| a matches Action::Skip { ticks } && ticks >= 1
    ||| a matches Action::MoveOrMelee { velocity, .. } && velocity.magnitude >= 1
}

/// How the player's pending input translates into an action: directional
/// input becomes a unit move-or-melee against monsters, the inventory
/// commands become their actions, and everything else waits for input.
pub open spec fn player_action_of(i: InputAction) -> Action {
    match i {
        InputAction::MoveNorth => Action::MoveOrMelee {
            velocity: Velocity { heading: Heading::North, magnitude: 1 },
            attack_player: false,
            attack_monsters: true,
        },
        InputAction::MoveEast => Action::MoveOrMelee {
            velocity: Velocity { heading: Heading::East, magnitude: 1 },
            attack_player: false,
            attack_monsters: true,
        },
        InputAction::MoveSouth => Action::MoveOrMelee {
            velocity: Velocity { heading: Heading::South, magnitude: 1 },
            attack_player: false,
            attack_monsters: true,
        },
        InputAction::MoveWest => Action::MoveOrMelee {
            velocity: Velocity { heading: Heading::West, magnitude: 1 },
            attack_player: false,
            attack_monsters: true,
        },
        InputAction::PickUp => Action::PickUp,
        InputAction::Drop(k) => Action::Drop { inventory_index: k },
        InputAction::UseFromInventory(k) => Action::UseFromInventory { inventory_index: k },
        _ => Action::WaitForInput,
    }
}

/// A unit move in `heading` that may resolve as an attack on a monster.
pub fn player_move_or_melee(heading: Heading) -> (r: Action)
    ensures
        r == (Action::MoveOrMelee {
            velocity: Velocity { heading, magnitude: 1 },
            attack_player: false,
            attack_monsters: true,
        }),
{
    Action::MoveOrMelee {
        velocity: Velocity::unit(heading),
        attack_player: false,
        attack_monsters: true,
    }
}

/// Basic pursuit: a straight-line step toward the player, resolving as an
/// attack only against the player. With no player to chase, wait a tick.
pub fn basic_ai(my_pos: Position, player_pos: Option<Position>) -> (r: Action)
    requires
        position_bounded(my_pos),
        player_pos matches Some(p) ==> position_bounded(p),
    ensures
        player_pos is None ==> r == (Action::Skip { ticks: 1 }),
        player_pos matches Some(p) ==> r matches Action::MoveOrMelee {
            velocity,
            attack_player: true,
            attack_monsters: false,
        } && velocity.magnitude == (if p == my_pos {
            0int
        } else {
            1int
        }),
        player_pos matches Some(p) ==> pursuit_step(my_pos, p, r),
{
    proof {
        reveal(pursuit_step);
    }
    match player_pos {
        Some(p) => {
            let velocity = my_pos.move_towards(&p);
            Action::MoveOrMelee { velocity, attack_player: true, attack_monsters: false }
        },
        None => Action::Skip { ticks: 1 },
    }
}

/// A pursuit decision from `my_pos` toward `p`: a move-or-melee against
/// the player whose displacement follows the movement-vector rule — the
/// axis the rounding keeps, or on a diagonal tie one of the two.
#[verifier::opaque]
pub open spec fn pursuit_step(my_pos: Position, p: Position, r: Action) -> bool {
    let nx = crate::position::step_toward(p.x - my_pos.x, p.y - my_pos.y);
    let ny = crate::position::step_toward(p.y - my_pos.y, p.x - my_pos.x);
    &&& r is MoveOrMelee
    &&& r->MoveOrMelee_attack_player == true
    &&& r->MoveOrMelee_attack_monsters == false
    &&& (if nx != 0 && ny != 0 {
        crate::velocity::displacement(r->MoveOrMelee_velocity) == (nx, 0int)
            || crate::velocity::displacement(r->MoveOrMelee_velocity) == (0int, ny)
    } else {
        crate::velocity::displacement(r->MoveOrMelee_velocity) == (nx, ny)
    })
}

/// Player pass-through: translate the pending input into an action and
/// consume the input exactly once.
pub fn player_ai(input: &mut InputAction) -> (r: Action)
    ensures
        r == player_action_of(*old(input)),
        *final(input) == InputAction::Noop,
{
    let action = match *input {
        InputAction::MoveNorth => player_move_or_melee(Heading::North),
        InputAction::MoveEast => player_move_or_melee(Heading::East),
        InputAction::MoveSouth => player_move_or_melee(Heading::South),
        InputAction::MoveWest => player_move_or_melee(Heading::West),
        InputAction::PickUp => Action::PickUp,
        InputAction::Drop(k) => Action::Drop { inventory_index: k },
        InputAction::UseFromInventory(k) => Action::UseFromInventory { inventory_index: k },
        _ => Action::WaitForInput,
    };
    *input = InputAction::Noop;
    action
}

/// Decide one actor's turn, dispatched on its behavior state. Returns the
/// chosen action together with the behavior to store back: confusion
/// counts down, and on expiry restores the owned previous behavior and
/// immediately produces that behavior's decision, so no turn is wasted on
/// the transition.
pub fn run_ai(
    ai: Ai,
    my_pos: Position,
    player_pos: Option<Position>,
    name: &Name,
    input: &mut InputAction,
    messages: &mut Messages,
) -> (r: (Action, Ai))
    requires
        old(messages).limit > 0,
        position_bounded(my_pos),
        player_pos matches Some(p) ==> position_bounded(p),
    ensures
        final(messages).limit == old(messages).limit,
        *final(input) == *old(input) || *final(input) == InputAction::Noop,
        is_monster_ai(ai) ==> is_monster_ai(r.1) && *final(input) == *old(input),
        is_monster_ai(ai) && (player_pos matches Some(p) ==> p != my_pos)
            ==> monster_action_ok(r.0),
        is_player_ai(ai) ==> is_player_ai(r.1),
        is_player_ai(ai) ==> (crate::action::cost_of(r.0) >= 1 || (r.0
            == Action::WaitForInput && *final(input) == InputAction::Noop)),
        is_player_ai(ai) && (r.0 is PickUp || r.0 is Drop || r.0 is UseFromInventory) ==> (
        *old(input) != InputAction::Noop && *final(input) == InputAction::Noop),
        ai == Ai::Basic ==> r.1 == Ai::Basic && *final(messages) == *old(messages),
        ai == Ai::Basic && player_pos is None ==> r.0 == (Action::Skip { ticks: 1 }),
        ai == Ai::Basic && player_pos is Some ==> pursuit_step(my_pos, player_pos.unwrap(), r.0),
        ai == Ai::Basic && player_pos is Some ==> ({
            &&& r.0 is MoveOrMelee
            &&& r.0->MoveOrMelee_attack_player == true
            &&& r.0->MoveOrMelee_attack_monsters == false
            &&& r.0->MoveOrMelee_velocity.magnitude == (if player_pos.unwrap() == my_pos {
                0int
            } else {
                1int
            })
        }),
        ai == Ai::Player ==> r.1 == Ai::Player && r.0 == player_action_of(*old(input))
            && *final(input) == InputAction::Noop && *final(messages) == *old(messages),
        (ai is Confused && ai->Confused_num_turns > 1) ==> ({
            &&& r.1 is Confused
            &&& r.1->Confused_previous_ai == ai->Confused_previous_ai
            &&& r.1->Confused_num_turns == ai->Confused_num_turns - 1
            &&& r.0 is MoveOrMelee
            &&& r.0->MoveOrMelee_attack_player == true
            &&& r.0->MoveOrMelee_attack_monsters == true
            &&& r.0->MoveOrMelee_velocity.magnitude == 1
            &&& *final(messages) == *old(messages)
        }),
        (ai is Confused && ai->Confused_num_turns <= 1 && (*ai->Confused_previous_ai
            == Ai::Basic || *ai->Confused_previous_ai == Ai::Player)) ==> ({
            &&& final(messages).inner@.len() >= 1
            &&& final(messages).inner@.last().1 == Color::Red
            &&& final(messages).inner@.last().0 is NoLongerConfused
            &&& final(messages).inner@.last().0->NoLongerConfused_name@ == name.0@
        }),
        (ai is Confused && ai->Confused_num_turns <= 1 && *ai->Confused_previous_ai
            == Ai::Basic && player_pos is Some && player_pos.unwrap() != my_pos) ==> ({
            &&& r.1 == Ai::Basic
            &&& r.0 is MoveOrMelee
            &&& r.0->MoveOrMelee_attack_player == true
            &&& r.0->MoveOrMelee_attack_monsters == false
            &&& r.0->MoveOrMelee_velocity.magnitude == 1
        }),
        (ai is Confused && ai->Confused_num_turns <= 1 && *ai->Confused_previous_ai
            == Ai::Player) ==> r.1 == Ai::Player && r.0 == player_action_of(*old(input))
            && *final(input) == InputAction::Noop,
    decreases ai,
{
    match ai {
        Ai::Basic => (basic_ai(my_pos, player_pos), Ai::Basic),
        Ai::Player => (player_ai(input), Ai::Player),
        Ai::Confused { previous_ai, num_turns } => {
            if num_turns <= 1 {
                // Confusion has run out: announce it, restore the owned
                // previous behavior, and decide again with it right away.
                messages.push(
                    Msg::NoLongerConfused { name: name.0.clone() },
                    Color::Red,
                );
                run_ai(*previous_ai, my_pos, player_pos, name, input, messages)
            } else {
                let heading = Velocity::heading_from_index(rand_range(0, 4));
                (
                    Action::MoveOrMelee {
                        velocity: Velocity { heading, magnitude: 1 },
                        attack_player: true,
                        attack_monsters: true,
                    },
                    Ai::Confused { previous_ai, num_turns: num_turns - 1 },
                )
            }
        },
    }
}


/// What the decision pass stores for a visible basic-pursuit monster:
/// the pursuit step toward the placed player, or a one-tick wait when the
/// monster is out of view or there is no player to chase.
#[verifier::opaque]
pub open spec fn basic_decided(s0: Seq<Actor>, fov: &Fov, j: int, b: Actor) -> bool {
    let p = s0[j].position.unwrap();
    let pp = the_player_pos(s0);
    &&& b.ai == Some(Ai::Basic)
    &&& (if !spec_in_fov(fov, p.x as int, p.y as int) {
        b.action == Some(Action::Skip { ticks: 1 })
    } else if pp is Some {
        b.action is Some && pursuit_step(p, pp.unwrap(), b.action.unwrap())
    } else {
        b.action == Some(Action::Skip { ticks: 1 })
    })
}

/// What the decision pass stores for a confused monster: out of view it
/// waits a tick; with turns left it stumbles — a unit move that may hit
/// anyone — and the counter comes down; on expiry the restored behavior
/// decides in the same pass (exactly pinned for a restored basic
/// pursuit; a costed decision in any case).
#[verifier::opaque]
pub open spec fn confused_decided(s0: Seq<Actor>, fov: &Fov, j: int, b: Actor) -> bool {
    let p = s0[j].position.unwrap();
    let a0 = s0[j].ai.unwrap();
    let n = a0->Confused_num_turns;
    let prev = a0->Confused_previous_ai;
    if !spec_in_fov(fov, p.x as int, p.y as int) {
        b.action == Some(Action::Skip { ticks: 1 })
    } else if n > 1 {
        &&& b.ai is Some
        &&& b.ai.unwrap() matches Ai::Confused { previous_ai, num_turns } && previous_ai
            == prev && num_turns == n - 1
        &&& b.action is Some
        &&& b.action.unwrap() is MoveOrMelee
        &&& b.action.unwrap()->MoveOrMelee_attack_player == true
        &&& b.action.unwrap()->MoveOrMelee_attack_monsters == true
        &&& b.action.unwrap()->MoveOrMelee_velocity.magnitude == 1
    } else {
        &&& ((the_player_pos(s0) is Some ==> the_player_pos(s0).unwrap() != p) ==> b.action
            is Some && monster_action_ok(b.action.unwrap()))
        &&& ((*prev == Ai::Basic && the_player_pos(s0) is Some && the_player_pos(
            s0,
        ).unwrap() != p) ==> ({
            &&& b.ai == Some(Ai::Basic)
            &&& b.action.unwrap() is MoveOrMelee
            &&& b.action.unwrap()->MoveOrMelee_attack_player == true
            &&& b.action.unwrap()->MoveOrMelee_attack_monsters == false
            &&& b.action.unwrap()->MoveOrMelee_velocity.magnitude == 1
        }))
    }
}

/// The position of the placed player, when one exists (in a well-formed
/// store the player is unique, so the choice is determined).
pub open spec fn the_player_pos(s: Seq<Actor>) -> Option<Position> {
    if exists|p: int|
        0 <= p < s.len() && (#[trigger] s[p].player) is Some && s[p].position is Some {
        let p = choose|p: int|
            0 <= p < s.len() && (#[trigger] s[p].player) is Some && s[p].position is Some;
        Some(s[p].position.unwrap())
    } else {
        None
    }
}

/// Whether the player's decision (and with it the pending input) has been
/// taken by some row before `hi`.
pub open spec fn player_consumed(s0: Seq<Actor>, fov: &Fov, hi: int) -> bool {
    exists|j: int|
        0 <= j < hi && (#[trigger] s0[j]).player is Some && ai_processed(s0[j]) && spec_in_fov(
            fov,
            s0[j].position.unwrap().x as int,
            s0[j].position.unwrap().y as int,
        )
}

/// The decision pass: when the game is on and the player lives, every
/// alive, placed actor inside the oracle's view decides through its
/// behavior; actors outside the view wait one tick. Decisions read a
/// consistent snapshot: no position, vitality or energy changes here.
#[verifier::rlimit(100)]
pub fn ai_system(w: &mut GameWorld, fov: &Fov)
    requires
        world_wf(old(w)),
    ensures
        world_wf(final(w)),
        final(w).actors@.len() == old(w).actors@.len(),
        forall|i: int|
            0 <= i < old(w).actors@.len() ==> same_but_brain(
                #[trigger] old(w).actors@[i],
                final(w).actors@[i],
            ),
        final(w).map == old(w).map,
        final(w).messages.limit == old(w).messages.limit,
        final(w).state == old(w).state,
        final(w).menu == old(w).menu,
        final(w).targeting == old(w).targeting,
        final(w).input == old(w).input || final(w).input == InputAction::Noop,
        !(old(w).state == State::Game && spec_player_alive(old(w).actors@)) ==> *final(w)
            == *old(w),
        (old(w).state == State::Game && spec_player_alive(old(w).actors@)) ==> ({
            &&& monster_actions_wf(final(w).actors@)
            &&& forall|i: int|
                0 <= i < old(w).actors@.len() && !ai_processed(#[trigger] old(w).actors@[i])
                    ==> final(w).actors@[i] == old(w).actors@[i]
            &&& forall|i: int|
                0 <= i < old(w).actors@.len() && ai_processed(#[trigger] old(w).actors@[i])
                    && old(w).actors@[i].player is Some ==> ({
                    &&& final(w).actors@[i].action is Some
                    &&& (cost_of(final(w).actors@[i].action.unwrap()) >= 1 || final(w).actors@[i].action.unwrap() == Action::WaitForInput)
                    &&& (final(w).actors@[i].action.unwrap() == Action::WaitForInput ==> final(w).input == InputAction::Noop)
                    &&& ((final(w).actors@[i].action.unwrap() is PickUp || final(w).actors@[i].action.unwrap() is Drop || final(w).actors@[i].action.unwrap()
                        is UseFromInventory) ==> (old(w).input != InputAction::Noop && final(w).input == InputAction::Noop))
                })
            &&& forall|i: int|
                0 <= i < old(w).actors@.len() && ai_processed(#[trigger] old(w).actors@[i])
                    && old(w).actors@[i].player is Some && old(w).actors@[i].ai == Some(
                    Ai::Player,
                ) ==> ({
                    let p = old(w).actors@[i].position.unwrap();
                    if spec_in_fov(fov, p.x as int, p.y as int) {
                        final(w).actors@[i].action == Some(player_action_of(old(w).input))
                            && final(w).input == InputAction::Noop
                    } else {
                        final(w).actors@[i].action == Some(Action::Skip { ticks: 1 })
                    }
                })
            &&& forall|i: int|
                0 <= i < old(w).actors@.len() && ai_processed(#[trigger] old(w).actors@[i])
                    && old(w).actors@[i].player is None && old(w).actors@[i].ai == Some(
                    Ai::Basic,
                ) ==> basic_decided(old(w).actors@, fov, i, final(w).actors@[i])
            &&& forall|i: int|
                0 <= i < old(w).actors@.len() && ai_processed(#[trigger] old(w).actors@[i])
                    && old(w).actors@[i].player is None && old(w).actors@[i].ai.unwrap()
                    is Confused ==> confused_decided(
                    old(w).actors@,
                    fov,
                    i,
                    final(w).actors@[i],
                )
        }),
{
    if !(w.state == State::Game) {
        return ;
    }
    if !player_is_alive(&w.actors) {
        return ;
    }
    let player_pos = find_player_position(&w.actors);
    proof {
        if player_pos is Some {
            let pc = choose|pc: int|
                0 <= pc < w.actors@.len() && (#[trigger] w.actors@[pc].player) is Some
                    && w.actors@[pc].position is Some;
            assert(the_player_pos(w.actors@) == player_pos);
        } else {
            assert(the_player_pos(w.actors@) == player_pos);
        }
    }
    let ghost s0 = w.actors@;
    let ghost input0 = w.input;
    let mut i: usize = 0;
    while i < w.actors.len()
        invariant
            world_wf(w),
            actors_wf(s0),
            spec_player_alive(s0),
            i <= s0.len(),
            w.actors@.len() == s0.len(),
            w.state == State::Game,
            w.map == old(w).map,
            w.messages.limit == old(w).messages.limit,
            w.menu == old(w).menu,
            w.targeting == old(w).targeting,
            match player_pos {
                Some(p) => exists|k: int|
                    0 <= k < s0.len() && (#[trigger] s0[k]).player is Some && s0[k].position
                        == Some(p),
                None => forall|k: int|
                    0 <= k < s0.len() && (#[trigger] s0[k]).player is Some ==> s0[k].position
                        is None,
            },
            forall|j: int|
                0 <= j < s0.len() ==> same_but_brain(#[trigger] s0[j], w.actors@[j]),
            forall|j: int| i <= j < s0.len() ==> #[trigger] w.actors@[j] == s0[j],
            forall|j: int|
                0 <= j < i && !ai_processed(#[trigger] s0[j]) ==> w.actors@[j] == s0[j],
            forall|j: int|
                0 <= j < i && ai_processed(#[trigger] s0[j]) && s0[j].player is None
                    && s0[j].energy is Some ==> w.actors@[j].action is Some
                    && monster_action_ok(w.actors@[j].action.unwrap()),
            forall|j: int|
                0 <= j < i && ai_processed(#[trigger] s0[j]) && s0[j].player is Some ==> ({
                    &&& w.actors@[j].action is Some
                    &&& (cost_of(w.actors@[j].action.unwrap()) >= 1 || w.actors@[j].action.unwrap()
                        == Action::WaitForInput)
                    &&& (w.actors@[j].action.unwrap() == Action::WaitForInput ==> w.input
                        == InputAction::Noop)
                    &&& ((w.actors@[j].action.unwrap() is PickUp || w.actors@[j].action.unwrap()
                        is Drop || w.actors@[j].action.unwrap() is UseFromInventory) ==> (input0
                        != InputAction::Noop && w.input == InputAction::Noop))
                }),
            forall|j: int|
                0 <= j < i && ai_processed(#[trigger] s0[j]) && s0[j].player is None && s0[
                    j].ai == Some(Ai::Basic) ==> basic_decided(s0, fov, j, w.actors@[j]),
            forall|j: int|
                0 <= j < i && ai_processed(#[trigger] s0[j]) && s0[j].player is None && s0[
                    j].ai.unwrap() is Confused ==> confused_decided(s0, fov, j, w.actors@[j]),
            the_player_pos(s0) == player_pos,
            forall|j: int|
                0 <= j < i && ai_processed(#[trigger] s0[j]) && s0[j].player is Some
                    && s0[j].ai == Some(Ai::Player) ==> ({
                    let p = s0[j].position.unwrap();
                    if spec_in_fov(fov, p.x as int, p.y as int) {
                        w.actors@[j].action == Some(player_action_of(input0)) && w.input
                            == InputAction::Noop
                    } else {
                        w.actors@[j].action == Some(Action::Skip { ticks: 1 })
                    }
                }),
            !player_consumed(s0, fov, i as int) ==> w.input == input0,
            w.input == input0 || w.input == InputAction::Noop,
        decreases s0.len() - i,
    {
        let mut process = false;
        let mut my_pos = Position { x: 0, y: 0 };
        {
            let a = &w.actors[i];
            if let Some(l) = &a.living {
                if l.alive && a.position.is_some() && a.ai.is_some() && a.action.is_some() {
                    process = true;
                    my_pos = match &a.position {
                        Some(p) => *p,
                        None => my_pos,
                    };
                }
            }
        }
        if process {
            let visible = fov.is_in_fov(my_pos.x, my_pos.y);
            if visible {
                let ai_val = match &w.actors[i].ai {
                    Some(x) => x.clone(),
                    None => Ai::Basic,
                };
                let name_val = match &w.actors[i].name {
                    Some(n) => n.clone(),
                    None => Name::new(""),
                };
                proof {
                    if s0[i as int].player is None && s0[i as int].energy is Some {
                        if player_pos is Some {
                            let p = player_pos.unwrap();
                            let k = choose|k: int|
                                0 <= k < s0.len() && (#[trigger] s0[k]).player is Some
                                    && s0[k].position == Some(p);
                            assert(s0[k].collider is Some);
                            assert(s0[i as int].collider is Some);
                            assert(s0[i as int].position.unwrap() != s0[k].position.unwrap());
                        }
                    }
                    if player_pos is Some {
                        let p = player_pos.unwrap();
                        let k = choose|k: int|
                            0 <= k < s0.len() && (#[trigger] s0[k]).player is Some
                                && s0[k].position == Some(p);
                        assert(position_bounded(s0[k].position.unwrap()));
                    }
                }
                let (act, new_ai) = run_ai(
                    ai_val,
                    my_pos,
                    player_pos,
                    &name_val,
                    &mut w.input,
                    &mut w.messages,
                );
                w.actors[i].action = Some(act);
                w.actors[i].ai = Some(new_ai);
                proof {
                    if s0[i as int].player is None && s0[i as int].ai == Some(Ai::Basic) {
                        reveal(basic_decided);
                        assert(basic_decided(s0, fov, i as int, w.actors@[i as int]));
                    }
                    if s0[i as int].player is None && s0[i as int].ai.unwrap() is Confused {
                        reveal(confused_decided);
                        assert(confused_decided(s0, fov, i as int, w.actors@[i as int]));
                    }
                }
            } else {
                w.actors[i].action = Some(Action::Skip { ticks: 1 });
                proof {
                    if s0[i as int].player is None && s0[i as int].ai == Some(Ai::Basic) {
                        reveal(basic_decided);
                        assert(basic_decided(s0, fov, i as int, w.actors@[i as int]));
                    }
                    if s0[i as int].player is None && s0[i as int].ai.unwrap() is Confused {
                        reveal(confused_decided);
                        assert(confused_decided(s0, fov, i as int, w.actors@[i as int]));
                    }
                }
            }
        }
        i = i + 1;
    }
    proof {
        assert forall|j: int|
            0 <= j < w.actors@.len() && (#[trigger] w.actors@[j]).player is None
                && w.actors@[j].energy is Some implies w.actors@[j].action is Some
            && monster_action_ok(w.actors@[j].action.unwrap()) by {
            assert(same_but_brain(s0[j], w.actors@[j]));
            assert(crate::world::creature_wf(s0[j]));
            assert(ai_processed(s0[j]));
        }
    }
}

} // verus!
