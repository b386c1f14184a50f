//! The phase dispatch controller: an ordered list of phase entries, each
//! run once or repeated while the simulate predicate holds, producing the
//! outer game loop's turn cadence. The simulate loop provably terminates:
//! every pass either drains energy, consumes the pending input, or
//! retires the player's decided action.

use crate::action::{cost_of, Action};
use crate::ai_engine::{ai_system, monster_action_ok};
use crate::items::use_item_system;
use crate::resolve::{mom_ready, move_and_melee_system};
use crate::resources::{InputAction, State};
use crate::stages::{
    drop_system, fog_of_war_system, location_history_system, monster_death_system,
    pick_up_system, player_death_system, skip_ready, skip_system, time_system,
};
use crate::menu_sys::menu_system;
use crate::world::{
    energy_val, spec_player_alive, world_wf, Actor, Fov, GameWorld,
};
use vstd::prelude::*;

verus! {

/// How an entry's stage group is scheduled.
#[derive(Debug, Clone, Copy, PartialEq, Eq, Structural)]
pub enum RunWhile {
    /// Run the group exactly once.
    Once,
    /// Re-run the group while the simulate predicate holds.
    Predicate,
}

/// The stage groups the controller can schedule.
#[derive(Debug, Clone, Copy, PartialEq, Eq, Structural)]
pub enum StageGroup {
    /// Input bookkeeping and menus; runs once per frame.
    Intake,
    /// The think-act pipeline; loops while anyone can spend energy.
    Simulate,
    /// Fog of war and the scheduler tick; runs once per frame.
    Present,
}

/// One scheduled phase.
#[derive(Debug, Clone, Copy, PartialEq, Eq, Structural)]
pub struct Entry {
    pub run_while: RunWhile,
    pub group: StageGroup,
}

/// The positive part of an actor's energy balance: what the simulate
/// loop still has to drain.
pub open spec fn pos_energy(a: Actor) -> nat {
    if a.energy is Some && energy_val(a) > 0 {
        energy_val(a) as nat
    } else {
        0
    }
}

/// The total positive energy in the store: the simulate loop's primary
/// termination measure.
pub open spec fn sim_measure(s: Seq<Actor>) -> nat
    decreases s.len(),
{
    if s.len() == 0 {
        0
    } else {
        sim_measure(s.drop_last()) + pos_energy(s.last())
    }
}

/// Whether an input is still pending: the loop's secondary measure.
pub open spec fn input_rank(i: InputAction) -> int {
    if i == InputAction::Noop {
        0
    } else {
        1
    }
}

/// Whether the player holds a decided (non-waiting) action: the loop's
/// third measure.
pub open spec fn decided_rank(s: Seq<Actor>) -> int {
    if exists|i: int|
        0 <= i < s.len() && (#[trigger] s[i]).player is Some && s[i].action is Some
            && s[i].action.unwrap() != Action::WaitForInput {
        1
    } else {
        0
    }
}

/// Pointwise bounded positive energy bounds the total.
proof fn lemma_measure_le(s1: Seq<Actor>, s2: Seq<Actor>)
    requires
        s1.len() == s2.len(),
        forall|i: int| 0 <= i < s1.len() ==> pos_energy(#[trigger] s2[i]) <= pos_energy(s1[i]),
    ensures
        sim_measure(s2) <= sim_measure(s1),
    decreases s1.len(),
{
    if s1.len() > 0 {
        lemma_measure_le(s1.drop_last(), s2.drop_last());
    }
}

/// Pointwise bounded positive energy with one strict drop makes the
/// total strictly smaller.
proof fn lemma_measure_strict(s1: Seq<Actor>, s2: Seq<Actor>, at: int)
    requires
        s1.len() == s2.len(),
        0 <= at < s1.len(),
        forall|i: int| 0 <= i < s1.len() ==> pos_energy(#[trigger] s2[i]) <= pos_energy(s1[i]),
        pos_energy(s2[at]) < pos_energy(s1[at]),
    ensures
        sim_measure(s2) < sim_measure(s1),
    decreases s1.len(),
{
    if at == s1.len() - 1 {
        lemma_measure_le(s1.drop_last(), s2.drop_last());
    } else {
        lemma_measure_strict(s1.drop_last(), s2.drop_last(), at);
    }
}

/// One actor the simulate predicate counts: positive energy, and for the
/// player also a live body together with either a decided action or a
/// pending input.
pub open spec fn sim_entity_ready(s: Seq<Actor>, input: InputAction, i: int) -> bool {
    &&& 0 <= i < s.len()
    &&& s[i].energy is Some
    &&& energy_val(s[i]) > 0
    &&& (s[i].player is Some ==> {
        &&& s[i].living is Some
        &&& s[i].living.unwrap().alive
        &&& (s[i].action != Some(Action::WaitForInput) || input != InputAction::Noop)
    })
}

/// The simulate predicate: the think-act pipeline keeps running while the
/// game is on and some actor can spend energy — the player only while
/// alive and not stalled waiting for a human decision.
pub open spec fn spec_sim_should_run(w: &GameWorld) -> bool {
    &&& w.state == State::Game
    &&& exists|i: int| #[trigger] sim_entity_ready(w.actors@, w.input, i)
}

/// Evaluate the simulate predicate.
pub fn sim_should_run(w: &GameWorld) -> (r: bool)
    ensures
        r == spec_sim_should_run(w),
{
    if !(w.state == State::Game) {
        return false;
    }
    let mut i: usize = 0;
    while i < w.actors.len()
        invariant
            w.state == State::Game,
            i <= w.actors@.len(),
            forall|j: int| 0 <= j < i ==> !(#[trigger] sim_entity_ready(w.actors@, w.input, j)),
        decreases w.actors@.len() - i,
    {
        let a = &w.actors[i];
        if let Some(e) = &a.energy {
            if e.can_act() {
                if a.player.is_none() {
                    proof {
                        assert(sim_entity_ready(w.actors@, w.input, i as int));
                    }
                    return true;
                }
                let mut alive = false;
                if let Some(l) = &a.living {
                    alive = l.alive;
                }
                if alive {
                    let mut waiting = false;
                    if let Some(Action::WaitForInput) = &a.action {
                        waiting = true;
                    }
                    if !waiting || !(w.input == InputAction::Noop) {
                        proof {
                            assert(sim_entity_ready(w.actors@, w.input, i as int));
                        }
                        return true;
                    }
                }
            }
        }
        i = i + 1;
    }
    false
}

/// Every monster that could act holds a decision that costs at least one
/// energy; with the behavior engine running each pass this always holds,
/// and it is what lets a pass drain a monster's surplus.
pub open spec fn monster_actions_pos(s: Seq<Actor>) -> bool {
    forall|i: int|
        0 <= i < s.len() && (#[trigger] s[i]).player is None && s[i].energy is Some
            && energy_val(s[i]) > 0 ==> s[i].action is Some && monster_action_ok(
            s[i].action.unwrap(),
        )
}

/// The scheduler's progress premise: either the player lives (so the
/// behavior engine will hand every monster a costed decision), or every
/// energized monster already holds one.
pub open spec fn sim_progress(s: Seq<Actor>) -> bool {
    spec_player_alive(s) || monster_actions_pos(s)
}

/// Check the scheduler's progress premise: this decides it exactly, so
/// a caller learns the premise holds or fails, never less.
pub fn scheduler_consistent(w: &GameWorld) -> (r: bool)
    requires
        world_wf(w),
    ensures
        r == sim_progress(w.actors@),
{
    if crate::world::player_is_alive(&w.actors) {
        return true;
    }
    let mut i: usize = 0;
    while i < w.actors.len()
        invariant
            i <= w.actors@.len(),
            !spec_player_alive(w.actors@),
            forall|j: int|
                0 <= j < i && (#[trigger] w.actors@[j]).player is None && w.actors@[j].energy
                    is Some && energy_val(w.actors@[j]) > 0 ==> w.actors@[j].action is Some
                    && monster_action_ok(w.actors@[j].action.unwrap()),
        decreases w.actors@.len() - i,
    {
        let a = &w.actors[i];
        let mut positive = false;
        if let Some(e) = &a.energy {
            positive = e.can_act();
        }
        if a.player.is_none() && positive {
            let mut ok = false;
            match &a.action {
                Some(Action::Skip { ticks }) => {
                    ok = *ticks >= 1;
                },
                Some(Action::MoveOrMelee { velocity, .. }) => {
                    ok = velocity.magnitude >= 1;
                },
                _ => {},
            }
            if !ok {
                proof {
                    assert(!monster_actions_pos(w.actors@));
                }
                return false;
            }
        }
        i = i + 1;
    }
    true
}


/// One think-act pass: the behavior engine decides for every eligible
/// actor, then the resolution stages consume the decisions in order.
/// Each pass makes progress: it drains energy, consumes the pending
/// input, or retires the player's decided action.
#[verifier::rlimit(100)]
pub fn run_simulate_pass(w: &mut GameWorld, fov: &Fov)
    requires
        world_wf(old(w)),
        old(w).state == State::Game,
        sim_progress(old(w).actors@),
    ensures
        world_wf(final(w)),
        final(w).state == State::Game,
        final(w).map == old(w).map,
        final(w).messages.limit == old(w).messages.limit,
        final(w).menu == old(w).menu,
        final(w).actors@.len() == old(w).actors@.len(),
        sim_progress(final(w).actors@),
        sim_measure(final(w).actors@) <= sim_measure(old(w).actors@),
        input_rank(final(w).input) <= input_rank(old(w).input),
        spec_sim_should_run(old(w)) ==> ({
            ||| sim_measure(final(w).actors@) < sim_measure(old(w).actors@)
            ||| (sim_measure(final(w).actors@) == sim_measure(old(w).actors@) && input_rank(
                final(w).input,
            ) < input_rank(old(w).input))
            ||| (sim_measure(final(w).actors@) == sim_measure(old(w).actors@) && input_rank(
                final(w).input,
            ) == input_rank(old(w).input) && decided_rank(final(w).actors@) < decided_rank(
                old(w).actors@,
            ))
        }),
{
    let ghost s0 = w.actors@;
    let ghost input0 = w.input;
    ai_system(w, fov);
    let ghost s1 = w.actors@;
    let ghost input1 = w.input;
    move_and_melee_system(w);
    let ghost s2 = w.actors@;
    skip_system(w);
    let ghost s3 = w.actors@;
    pick_up_system(w);
    let ghost s4 = w.actors@;
    drop_system(w);
    let ghost s5 = w.actors@;
    use_item_system(w, fov);
    let ghost s6 = w.actors@;
    monster_death_system(w);
    let ghost s7 = w.actors@;
    player_death_system(w);
    let ghost s8 = w.actors@;
    proof {
        // Energy is pointwise non-increasing through every stage.
        assert forall|i: int| 0 <= i < s0.len() implies pos_energy(#[trigger] s1[i])
            <= pos_energy(s0[i]) by {
            assert(crate::world::same_but_brain(s0[i], s1[i]));
        }
        assert forall|i: int| 0 <= i < s0.len() implies pos_energy(#[trigger] s2[i])
            <= pos_energy(s1[i]) by {
            assert(crate::world::same_but_combat(s1[i], s2[i]));
        }
        assert forall|i: int| 0 <= i < s0.len() implies pos_energy(#[trigger] s3[i])
            <= pos_energy(s2[i]) by {
            assert(crate::stages::same_but_energy(s2[i], s3[i]));
        }
        assert forall|i: int| 0 <= i < s0.len() implies pos_energy(#[trigger] s4[i])
            <= pos_energy(s3[i]) by {
            assert(crate::stages::same_but_carry(s3[i], s4[i]));
        }
        assert forall|i: int| 0 <= i < s0.len() implies pos_energy(#[trigger] s5[i])
            <= pos_energy(s4[i]) by {
            assert(crate::stages::same_but_carry(s4[i], s5[i]));
        }
        assert forall|i: int| 0 <= i < s0.len() implies pos_energy(#[trigger] s6[i])
            <= pos_energy(s5[i]) by {
            if s5[i].item is None {
                assert(crate::items::same_but_use(s5[i], s6[i]));
            }
        }
        assert forall|i: int| 0 <= i < s0.len() implies pos_energy(#[trigger] s7[i])
            <= pos_energy(s6[i]) by {
            if crate::stages::dead_monster(s6[i]) {
                assert(crate::stages::monster_transitioned(s6[i], s7[i]));
            } else {
                assert(s7[i] == s6[i]);
            }
        }
        assert forall|i: int| 0 <= i < s0.len() implies pos_energy(#[trigger] s8[i])
            <= pos_energy(s7[i]) by {
            if crate::stages::dead_player(s7[i]) {
                assert(crate::stages::player_transitioned(s7[i], s8[i]));
            } else {
                assert(s8[i] == s7[i]);
            }
        }
        assert forall|i: int| 0 <= i < s0.len() implies pos_energy(#[trigger] s8[i])
            <= pos_energy(s0[i]) by {}
        lemma_measure_le(s0, s8);
        // The pending input can only be consumed, never raised.
        assert(input_rank(w.input) <= input_rank(input0));
        // Player markers, and the player's action, survive the stages.
        assert forall|i: int| 0 <= i < s0.len() implies (#[trigger] s8[i]).player
            == s0[i].player by {}
        // Progress: the premise survives the pass.
        assert(sim_progress(s8)) by {
            if spec_player_alive(s8) {
            } else {
                assert forall|i: int|
                    0 <= i < s8.len() && (#[trigger] s8[i]).player is None && s8[i].energy
                        is Some && energy_val(s8[i]) > 0 implies s8[i].action is Some
                    && monster_action_ok(s8[i].action.unwrap()) by {
                    assert(pos_energy(s8[i]) <= pos_energy(s1[i]));
                    assert(energy_val(s1[i]) > 0 && s1[i].energy is Some);
                    if spec_player_alive(s0) && s0.len() > 0 {
                        assert(crate::ai_engine::monster_actions_wf(s1));
                    } else {
                        assert(s1 =~= s0);
                        assert(monster_actions_pos(s1));
                    }
                    assert(s1[i].action is Some && monster_action_ok(s1[i].action.unwrap()));
                    assert(s8[i].action == s1[i].action);
                }
            }
        }
        // Lexicographic progress whenever the predicate held.
        if spec_sim_should_run(old(w)) {
            let wit = choose|i: int| #[trigger] sim_entity_ready(s0, input0, i);
            assert(crate::world::creature_wf(s0[wit]));
            if s0[wit].player is None {
                // A monster witness: its decision costs at least one
                // energy, and its stage consumes it.
                if spec_player_alive(s0) {
                    assert(crate::ai_engine::monster_actions_wf(s1));
                } else {
                    assert(s1 =~= s0);
                }
                assert(s1[wit].action is Some && monster_action_ok(s1[wit].action.unwrap()));
                assert(s1[wit].energy == s0[wit].energy);
                lemma_witness_consumed(s1, s2, s3, wit);
                assert(pos_energy(s8[wit]) <= pos_energy(s3[wit]));
                assert(pos_energy(s3[wit]) < pos_energy(s0[wit]));
                lemma_measure_strict(s0, s8, wit);
            } else {
                // The player witness: alive, so the behavior engine ran.
                assert(spec_player_alive(s0));
                assert(crate::ai_engine::ai_processed(s0[wit]));
                let act = s1[wit].action.unwrap();
                assert(s1[wit].action is Some && (cost_of(act) >= 1 || act
                    == Action::WaitForInput));
                if act == Action::WaitForInput {
                    assert(input1 == InputAction::Noop);
                    assert(w.input == InputAction::Noop);
                    if input0 != InputAction::Noop {
                        assert(input_rank(w.input) < input_rank(input0));
                    } else {
                        // The witness was the decided action itself; it
                        // has now been retired.
                        assert(s0[wit].action != Some(Action::WaitForInput));
                        assert(decided_rank(s0) == 1);
                        assert(s8[wit].action == s1[wit].action);
                        assert(decided_rank(s8) == 0) by {
                            if exists|i: int|
                                0 <= i < s8.len() && (#[trigger] s8[i]).player is Some
                                    && s8[i].action is Some && s8[i].action.unwrap()
                                    != Action::WaitForInput {
                                let d = choose|i: int|
                                    0 <= i < s8.len() && (#[trigger] s8[i]).player is Some
                                        && s8[i].action is Some && s8[i].action.unwrap()
                                        != Action::WaitForInput;
                                assert(s0[d].player is Some);
                                assert(d == wit);
                            }
                        }
                    }
                } else {
                    assert(cost_of(act) >= 1);
                    if act is PickUp || act is Drop || act is UseFromInventory {
                        assert(input0 != InputAction::Noop && input1 == InputAction::Noop);
                        assert(input_rank(w.input) < input_rank(input0));
                    } else {
                        assert(act is Skip || act is MoveOrMelee);
                        assert(monster_action_ok(act));
                        lemma_witness_consumed(s1, s2, s3, wit);
                        assert(pos_energy(s8[wit]) <= pos_energy(s3[wit]));
                        assert(pos_energy(s3[wit]) < pos_energy(s0[wit]));
                        lemma_measure_strict(s0, s8, wit);
                    }
                }
            }
        }
    }
}

/// A witness with positive energy and a costed skip or move decision has
/// strictly less positive energy after the move and skip stages.
proof fn lemma_witness_consumed(s1: Seq<Actor>, s2: Seq<Actor>, s3: Seq<Actor>, wit: int)
    requires
        0 <= wit < s1.len(),
        s1.len() == s2.len() == s3.len(),
        crate::world::actors_wf(s1),
        s1[wit].energy is Some,
        energy_val(s1[wit]) > 0,
        s1[wit].action is Some,
        monster_action_ok(s1[wit].action.unwrap()),
        // the move-or-melee stage's contract between s1 and s2
        forall|i: int|
            0 <= i < s1.len() ==> crate::world::same_but_combat(#[trigger] s1[i], s2[i]),
        forall|i: int|
            0 <= i < s1.len() && mom_ready(#[trigger] s1[i]) && energy_val(s1[i]) > 0
                ==> energy_val(s2[i]) == energy_val(s1[i]) - cost_of(s1[i].action.unwrap()),
        forall|i: int|
            0 <= i < s1.len() && !(mom_ready(#[trigger] s1[i]) && energy_val(s1[i]) > 0)
                ==> s2[i].energy == s1[i].energy,
        // the skip stage's contract between s2 and s3
        forall|i: int|
            0 <= i < s2.len() ==> crate::stages::same_but_energy(#[trigger] s2[i], s3[i]),
        forall|i: int|
            0 <= i < s2.len() && skip_ready(#[trigger] s2[i]) && energy_val(s2[i]) > 0
                ==> energy_val(s3[i]) == energy_val(s2[i]) - cost_of(s2[i].action.unwrap()),
        forall|i: int|
            0 <= i < s2.len() && !(skip_ready(#[trigger] s2[i]) && energy_val(s2[i]) > 0)
                ==> s3[i] == s2[i],
    ensures
        pos_energy(s3[wit]) < pos_energy(s1[wit]),
{
    let act = s1[wit].action.unwrap();
    if act is MoveOrMelee {
        assert(crate::world::creature_wf(s1[wit]));
        assert(mom_ready(s1[wit]));
        assert(energy_val(s2[wit]) <= energy_val(s1[wit]) - 1);
        assert(crate::stages::same_but_energy(s2[wit], s3[wit]));
        if skip_ready(s2[wit]) && energy_val(s2[wit]) > 0 {
            assert(s2[wit].action == s1[wit].action);
            assert(!(s2[wit].action.unwrap() is Skip));
            assert(false);
        }
        assert(energy_val(s3[wit]) <= energy_val(s2[wit]));
    } else {
        assert(act is Skip);
        assert(!mom_ready(s1[wit]));
        assert(s2[wit].energy == s1[wit].energy);
        assert(s2[wit].action == s1[wit].action);
        assert(skip_ready(s2[wit]));
        assert(energy_val(s3[wit]) == energy_val(s2[wit]) - cost_of(act));
        assert(cost_of(act) >= 1);
    }
}



/// The simulate phase: re-run the think-act pass while the predicate
/// holds. The loop terminates — every pass drains energy, consumes the
/// pending input, or retires the player's decided action — and on exit no
/// actor that the scheduler counts retains positive energy, except the
/// player stalled on a human decision.
pub fn run_simulate(w: &mut GameWorld, fov: &Fov)
    requires
        world_wf(old(w)),
        sim_progress(old(w).actors@),
    ensures
        world_wf(final(w)),
        sim_progress(final(w).actors@),
        !spec_sim_should_run(final(w)),
        final(w).state == old(w).state,
        final(w).map == old(w).map,
        final(w).messages.limit == old(w).messages.limit,
        final(w).menu == old(w).menu,
{
    while sim_should_run(w)
        invariant
            world_wf(w),
            sim_progress(w.actors@),
            w.state == old(w).state,
            w.map == old(w).map,
            w.messages.limit == old(w).messages.limit,
            w.menu == old(w).menu,
        decreases sim_measure(w.actors@), input_rank(w.input), decided_rank(w.actors@),
    {
        run_simulate_pass(w, fov);
    }
}

/// The intake group: remember where everyone stood, then let the menu
/// stage act on the pending input.
pub fn run_intake(w: &mut GameWorld)
    requires
        world_wf(old(w)),
    ensures
        world_wf(final(w)),
        sim_progress(old(w).actors@) ==> sim_progress(final(w).actors@),
        final(w).map == old(w).map,
        final(w).messages == old(w).messages,
        final(w).targeting == old(w).targeting,
{
    let ghost s0 = w.actors@;
    location_history_system(w);
    let ghost s1 = w.actors@;
    menu_system(w);
    proof {
        assert forall|i: int|
            0 <= i < s0.len() implies ((#[trigger] s1[i]).player == s0[i].player && s1[i].living
            == s0[i].living && s1[i].energy == s0[i].energy && s1[i].action
            == s0[i].action) by {
            if old(w).state == State::Game {
            } else {
                assert(s1[i] == s0[i]);
            }
        }
        assert(w.actors@ == s1);
        if sim_progress(s0) {
            if spec_player_alive(s0) {
                let p = choose|i: int|
                    0 <= i < s0.len() && (#[trigger] s0[i]).player is Some && s0[i].living
                        is Some && s0[i].living.unwrap().alive;
                assert(s1[p].player is Some && s1[p].living is Some
                    && s1[p].living.unwrap().alive);
                assert(spec_player_alive(s1));
            } else {
                assert(monster_actions_pos(s0));
                assert forall|i: int|
                    0 <= i < s1.len() && (#[trigger] s1[i]).player is None && s1[i].energy
                        is Some && energy_val(s1[i]) > 0 implies s1[i].action is Some
                    && monster_action_ok(s1[i].action.unwrap()) by {
                    assert(s0[i].player is None && s0[i].energy is Some && energy_val(s0[i])
                        > 0);
                }
                assert(monster_actions_pos(s1));
            }
        }
    }
}

/// The present group: reveal what the oracle sees, then advance time if
/// the player is alive but cannot act yet.
pub fn run_present(w: &mut GameWorld, fov: &Fov)
    requires
        world_wf(old(w)),
    ensures
        world_wf(final(w)),
        sim_progress(old(w).actors@) ==> sim_progress(final(w).actors@),
        final(w).state == old(w).state,
        final(w).input == old(w).input,
        final(w).menu == old(w).menu,
        final(w).messages == old(w).messages,
{
    fog_of_war_system(w, fov);
    let ghost before = w.actors@;
    time_system(w);
    proof {
        if sim_progress(before) {
            if crate::stages::spec_should_tick(before) {
                let p = choose|i: int|
                    0 <= i < before.len() && (#[trigger] before[i]).player is Some
                        && before[i].energy is Some && energy_val(before[i]) <= 0
                        && before[i].living is Some && before[i].living.unwrap().alive;
                assert(crate::stages::same_but_energy(before[p], w.actors@[p]));
                assert(spec_player_alive(w.actors@));
            } else {
                assert(w.actors@ =~= before);
            }
        }
    }
}

/// What running one phase entry does, as a relation between the world
/// before and after it: well-formedness and the scheduler's progress
/// premise survive every entry; a predicate-scheduled simulate entry
/// runs its loop to exhaustion — the predicate is false when it hands
/// over — without touching the outer state or the terrain; intake leaves
/// the terrain, log and continuation alone; present leaves the outer
/// state, input, menu and log alone.
pub open spec fn entry_rel(e: Entry, w1: GameWorld, w2: GameWorld) -> bool {
    &&& world_wf(&w2)
    &&& (sim_progress(w1.actors@) ==> sim_progress(w2.actors@))
    &&& (e.run_while == RunWhile::Predicate && e.group == StageGroup::Simulate
        ==> !spec_sim_should_run(&w2) && w2.state == w1.state && w2.map == w1.map
        && w2.menu == w1.menu)
    &&& (e.group == StageGroup::Intake ==> w2.map == w1.map && w2.messages == w1.messages
        && w2.targeting == w1.targeting)
    &&& (e.group == StageGroup::Present ==> w2.state == w1.state && w2.input == w1.input
        && w2.menu == w1.menu && w2.messages == w1.messages)
}

/// A run of entries, strictly in list order: each entry starts from the
/// world the previous one finished with, so a predicate phase never
/// interleaves with later entries.
pub open spec fn entries_rel(es: Seq<Entry>, w1: GameWorld, w2: GameWorld) -> bool
    decreases es.len(),
{
    if es.len() == 0 {
        w2 == w1
    } else {
        exists|mid: GameWorld|
            #[trigger] entry_rel(es[0], w1, mid) && entries_rel(es.skip(1), mid, w2)
    }
}

/// Extending an in-order run by one entry.
proof fn lemma_entries_rel_snoc(
    es: Seq<Entry>,
    w1: GameWorld,
    w2: GameWorld,
    w3: GameWorld,
    k: int,
)
    requires
        0 <= k < es.len(),
        entries_rel(es.take(k), w1, w2),
        entry_rel(es[k], w2, w3),
    ensures
        entries_rel(es.take(k + 1), w1, w3),
    decreases k,
{
    if k == 0 {
        assert(es.take(1)[0] == es[0]);
        assert(es.take(1).skip(1) =~= Seq::<Entry>::empty());
        assert(entry_rel(es.take(1)[0], w1, w3) && entries_rel(es.take(1).skip(1), w3, w3));
    } else {
        let mid = choose|mid: GameWorld|
            #[trigger] entry_rel(es.take(k)[0], w1, mid) && entries_rel(
                es.take(k).skip(1),
                mid,
                w2,
            );
        assert(es.take(k)[0] == es[0]);
        assert(es.take(k).skip(1) =~= es.skip(1).take(k - 1));
        assert(es.skip(1)[k - 1] == es[k]);
        lemma_entries_rel_snoc(es.skip(1), mid, w2, w3, k - 1);
        assert(es.take(k + 1)[0] == es[0]);
        assert(es.take(k + 1).skip(1) =~= es.skip(1).take(k));
        assert(entry_rel(es.take(k + 1)[0], w1, mid) && entries_rel(
            es.take(k + 1).skip(1),
            mid,
            w3,
        ));
    }
}

/// The phase dispatch controller: a short ordered list of phase entries,
/// each run exactly once or repeated while the simulate predicate holds.
/// Entries run strictly in list order; a predicate entry loops its group
/// to completion before the controller advances.
pub struct MetaDispatcher {
    pub entries: Vec<Entry>,
}

impl MetaDispatcher {
    pub fn new() -> (r: MetaDispatcher)
        ensures
            r.entries@ == Seq::<Entry>::empty(),
    {
        MetaDispatcher { entries: Vec::new() }
    }

    /// Append a phase entry.
    pub fn add(&mut self, run_while: RunWhile, group: StageGroup)
        ensures
            final(self).entries@ == old(self).entries@.push(Entry { run_while, group }),
    {
        self.entries.push(Entry { run_while, group });
    }

    /// Append a phase that runs exactly once per dispatch.
    pub fn once(&mut self, group: StageGroup)
        ensures
            final(self).entries@ == old(self).entries@.push(
                Entry { run_while: RunWhile::Once, group },
            ),
    {
        self.add(RunWhile::Once, group);
    }

    /// Append a phase that repeats while the simulate predicate holds.
    pub fn run_while(&mut self, group: StageGroup)
        ensures
            final(self).entries@ == old(self).entries@.push(
                Entry { run_while: RunWhile::Predicate, group },
            ),
    {
        self.add(RunWhile::Predicate, group);
    }

    /// Run the entries strictly in list order. A predicate entry loops
    /// the simulate group to completion; the once-only groups run once.
    pub fn dispatch(&self, w: &mut GameWorld, fov: &Fov)
        requires
            world_wf(old(w)),
            sim_progress(old(w).actors@),
        ensures
            world_wf(final(w)),
            sim_progress(final(w).actors@),
            entries_rel(self.entries@, *old(w), *final(w)),
    {
        let mut k: usize = 0;
        while k < self.entries.len()
            invariant
                world_wf(w),
                sim_progress(w.actors@),
                k <= self.entries@.len(),
                entries_rel(self.entries@.take(k as int), *old(w), *w),
            decreases self.entries@.len() - k,
        {
            let ghost wpre = *w;
            let entry = self.entries[k];
            match (entry.run_while, entry.group) {
                (RunWhile::Once, StageGroup::Intake) => {
                    run_intake(w);
                },
                (RunWhile::Once, StageGroup::Present) => {
                    run_present(w, fov);
                },
                (RunWhile::Once, StageGroup::Simulate) => {
                    if w.state == State::Game {
                        run_simulate_pass(w, fov);
                    }
                },
                (RunWhile::Predicate, StageGroup::Simulate) => {
                    run_simulate(w, fov);
                },
                (RunWhile::Predicate, StageGroup::Intake) => {
                    run_intake(w);
                },
                (RunWhile::Predicate, StageGroup::Present) => {
                    run_present(w, fov);
                },
            }
            proof {
                assert(entry_rel(self.entries@[k as int], wpre, *w));
                lemma_entries_rel_snoc(self.entries@, *old(w), wpre, *w, k as int);
            }
            k = k + 1;
        }
        proof {
            assert(self.entries@.take(self.entries@.len() as int) =~= self.entries@);
        }
    }
}

/// The engine's phase list: one intake pass, the simulate loop, one
/// present pass.
pub fn build_dispatcher() -> (r: MetaDispatcher)
    ensures
        r.entries@.len() == 3,
        r.entries@[0] == (Entry { run_while: RunWhile::Once, group: StageGroup::Intake }),
        r.entries@[1] == (Entry {
            run_while: RunWhile::Predicate,
            group: StageGroup::Simulate,
        }),
        r.entries@[2] == (Entry { run_while: RunWhile::Once, group: StageGroup::Present }),
{
    let mut meta = MetaDispatcher::new();
    meta.once(StageGroup::Intake);
    meta.run_while(StageGroup::Simulate);
    meta.once(StageGroup::Present);
    meta
}


} // verus!
