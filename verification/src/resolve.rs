//! The combined move-or-melee resolution stage: for every actor with a
//! pending move intent, either strike the alive occupant of the
//! destination (gated by faction), or step there if terrain, colliders
//! and this pass's reservations allow it; either way the action's energy
//! is consumed once the actor can act.

use crate::action::{cost_of, Action};
use crate::components::Living;
use crate::energy::Energy;
use crate::map::{grid_view, tile_blocked, Tile};
use crate::position::Position;
use crate::resources::{
    lemma_push_all_view_concat, log_view, push_all_view, push_view, Msg, MsgV, State,
};
use crate::velocity::{displacement, Velocity};
use crate::world::{
    energy_val, occupied_by_collider, position_bounded, same_but_combat, world_wf, Actor,
    CalculateBlockedWorldExt, GameWorld,
};
use crate::components::Color;
use vstd::prelude::*;

verus! {

/// An actor the move-or-melee stage acts for: it holds a move-or-melee
/// action and the full combat attribute set.
pub open spec fn mom_ready(a: Actor) -> bool {
    &&& a.action is Some
    &&& a.action.unwrap() is MoveOrMelee
    &&& a.position is Some
    &&& a.name is Some
    &&& a.power is Some
    &&& a.energy is Some
}

/// The melee damage formula: attack power minus defense; a non-positive
/// result deals nothing.
pub open spec fn melee_damage(power: int, defense: int) -> int {
    power - defense
}

/// The candidate destination of a pending move.
pub open spec fn mm_candidate(a: Actor) -> Position {
    let p = a.position.unwrap();
    let d = displacement(a.action.unwrap()->MoveOrMelee_velocity);
    Position { x: (p.x + d.0) as i32, y: (p.y + d.1) as i32 }
}

/// The first alive actor other than `me` standing on `p`, scanning the
/// store in handle order from `from`.
pub open spec fn first_alive_at(s: Seq<Actor>, me: int, p: Position, from: int) -> Option<
    int,
>
    decreases s.len() - from,
{
    if from < 0 || from >= s.len() {
        None
    } else if from != me && s[from].living is Some && s[from].living.unwrap().alive
        && s[from].position == Some(p) {
        Some(from)
    } else {
        first_alive_at(s, me, p, from + 1)
    }
}

/// A row after paying its action's cost.
pub open spec fn mm_paid(a: Actor) -> Actor {
    Actor {
        energy: Some(Energy((energy_val(a) - cost_of(a.action.unwrap())) as i32)),
        ..a
    }
}

/// A defender after one strike of `power`: hit points drop by the
/// positive part of the damage formula, saturating at the representation
/// floor.
pub open spec fn mm_struck(a: Actor, power: int) -> Actor {
    let l = a.living.unwrap();
    let dmg = melee_damage(power, l.defense as int);
    if dmg > 0 {
        Actor {
            living: Some(
                Living {
                    alive: l.alive,
                    max_hp: l.max_hp,
                    hp: (if l.hp - dmg >= i32::MIN {
                        l.hp - dmg
                    } else {
                        i32::MIN as int
                    }) as i32,
                    defense: l.defense,
                },
            ),
            ..a
        }
    } else {
        a
    }
}

/// A mover's row after its step resolves: the velocity intent is zeroed
/// once consumed, and the position advances only when the step was free.
pub open spec fn mm_stepped(a: Actor, moved: bool) -> Actor {
    Actor {
        position: if moved {
            Some(mm_candidate(a))
        } else {
            a.position
        },
        velocity: Some(
            Velocity {
                heading: a.action.unwrap()->MoveOrMelee_velocity.heading,
                magnitude: 0,
            },
        ),
        ..mm_paid(a)
    }
}

/// The stage's running state: the store, this pass's reserved
/// destinations, and the narrative appended so far.
pub struct MmOutcome {
    pub actors: Seq<Actor>,
    pub reserved: Seq<Position>,
    pub msgs: Seq<(MsgV, Color)>,
}

/// An actor's display name as text, or empty without one.
pub open spec fn name_view(a: Actor) -> Seq<char> {
    if a.name is Some {
        a.name.unwrap().0@
    } else {
        Seq::empty()
    }
}

/// The attack narrative for one allowed strike.
pub open spec fn mm_strike_msg(attacker: Actor, target: Actor, power: int) -> (MsgV, Color) {
    let dmg = melee_damage(power, target.living.unwrap().defense as int);
    if dmg > 0 {
        (
            MsgV::Attack { attacker: name_view(attacker), target: name_view(target), damage: dmg },
            Color::White,
        )
    } else {
        (
            MsgV::NoEffect { attacker: name_view(attacker), target: name_view(target) },
            Color::White,
        )
    }
}

/// Resolve one actor against the running state: an alive occupant of the
/// candidate tile makes it an attack (gated by faction, absorbed
/// silently when forbidden, and never relocating the attacker); an empty
/// candidate is a move, absorbed when terrain, a collider or an earlier
/// reservation blocks it; in every branch the cost is paid.
pub open spec fn mm_step(grid: Seq<Seq<Tile>>, st: MmOutcome, i: int) -> MmOutcome {
    let s = st.actors;
    if !(0 <= i < s.len() && mom_ready(s[i]) && energy_val(s[i]) > 0) {
        st
    } else {
        let a = s[i];
        let ap = a.action.unwrap()->MoveOrMelee_attack_player;
        let am = a.action.unwrap()->MoveOrMelee_attack_monsters;
        let cand = mm_candidate(a);
        let s1 = s.update(i, mm_paid(a));
        match first_alive_at(s, i, cand, 0) {
            Some(t) => {
                let target_is_player = s[t].player is Some;
                if (target_is_player && ap) || (!target_is_player && am) {
                    let power = a.power.unwrap().0 as int;
                    MmOutcome {
                        actors: s1.update(t, mm_struck(s1[t], power)),
                        reserved: st.reserved,
                        msgs: st.msgs.push(mm_strike_msg(a, s[t], power)),
                    }
                } else {
                    MmOutcome { actors: s1, reserved: st.reserved, msgs: st.msgs }
                }
            },
            None => {
                let blocked = tile_blocked(grid, cand) || occupied_by_collider(s, cand)
                    || st.reserved.contains(cand);
                MmOutcome {
                    actors: s1.update(i, mm_stepped(a, !blocked)),
                    reserved: if blocked {
                        st.reserved
                    } else {
                        st.reserved.push(cand)
                    },
                    msgs: st.msgs,
                }
            },
        }
    }
}

/// The whole stage as a fold of `mm_step` over the handles in order.
pub open spec fn mm_fold(grid: Seq<Seq<Tile>>, init: MmOutcome, upto: int) -> MmOutcome
    decreases upto,
{
    if upto <= 0 {
        init
    } else {
        mm_step(grid, mm_fold(grid, init, upto - 1), upto - 1)
    }
}

/// Apply one melee strike to a defender: subtract `power - defense` hit
/// points when that is positive (saturating at the representation floor),
/// otherwise change nothing. Returns the damage figure.
pub fn apply_melee(power: i32, target: &mut Living) -> (damage: i64)
    ensures
        damage == melee_damage(power as int, old(target).defense as int),
        damage > 0 ==> *final(target) == (Living {
            alive: old(target).alive,
            max_hp: old(target).max_hp,
            hp: (if old(target).hp - damage >= i32::MIN {
                old(target).hp - damage
            } else {
                i32::MIN as int
            }) as i32,
            defense: old(target).defense,
        }),
        damage <= 0 ==> *final(target) == *old(target),
{
    let damage: i64 = power as i64 - target.defense as i64;
    if damage > 0 {
        let new_hp: i64 = target.hp as i64 - damage;
        target.hp = if new_hp >= i32::MIN as i64 {
            new_hp as i32
        } else {
            i32::MIN
        };
    }
    damage
}

/// Whether this pass already promised `p` to an earlier mover.
fn contains_pos(v: &Vec<Position>, p: &Position) -> (r: bool)
    ensures
        r == exists|k: int| 0 <= k < v@.len() && v@[k] == *p,
{
    let mut k: usize = 0;
    while k < v.len()
        invariant
            k <= v@.len(),
            forall|j: int| 0 <= j < k ==> v@[j] != *p,
        decreases v@.len() - k,
    {
        if v[k].x == p.x && v[k].y == p.y {
            return true;
        }
        k = k + 1;
    }
    false
}

/// Find the first alive actor other than `me` standing on `p`.
fn find_alive_at(actors: &Vec<Actor>, me: usize, p: &Position) -> (r: Option<usize>)
    ensures
        match r {
            Some(t) => first_alive_at(actors@, me as int, *p, 0) == Some(t as int) && t
                < actors@.len() && t != me && actors@[t as int].living is Some
                && actors@[t as int].living.unwrap().alive && actors@[t as int].position
                == Some(*p),
            None => first_alive_at(actors@, me as int, *p, 0) is None && forall|j: int|
                0 <= j < actors@.len() && j != me ==> !(
                (#[trigger] actors@[j]).living is Some && actors@[j].living.unwrap().alive
                    && actors@[j].position == Some(*p)),
        },
{
    let mut j: usize = 0;
    while j < actors.len()
        invariant
            j <= actors@.len(),
            first_alive_at(actors@, me as int, *p, 0) == first_alive_at(
                actors@,
                me as int,
                *p,
                j as int,
            ),
            forall|k: int|
                0 <= k < j && k != me ==> !((#[trigger] actors@[k]).living is Some
                    && actors@[k].living.unwrap().alive && actors@[k].position == Some(*p)),
        decreases actors@.len() - j,
    {
        let mut hit = false;
        if j != me {
            let a = &actors[j];
            if let Some(l) = &a.living {
                if l.alive {
                    if let Some(q) = &a.position {
                        if q.x == p.x && q.y == p.y {
                            hit = true;
                        }
                    }
                }
            }
        }
        if hit {
            proof {
                assert(first_alive_at(actors@, me as int, *p, j as int) == Some(j as int));
            }
            return Some(j);
        }
        proof {
            assert(first_alive_at(actors@, me as int, *p, j as int) == first_alive_at(
                actors@,
                me as int,
                *p,
                j as int + 1,
            ));
        }
        j = j + 1;
    }
    None
}

/// Occupancy only reads colliders and positions, so it is blind to a
/// mutation that keeps both.
proof fn lemma_occupied_same(s1: Seq<Actor>, s2: Seq<Actor>, p: Position)
    requires
        s1.len() == s2.len(),
        forall|i: int|
            0 <= i < s1.len() ==> (#[trigger] s2[i]).collider == s1[i].collider
                && s2[i].position == s1[i].position,
    ensures
        occupied_by_collider(s1, p) == occupied_by_collider(s2, p),
{
    if occupied_by_collider(s1, p) {
        let k = choose|k: int|
            0 <= k < s1.len() && (#[trigger] s1[k]).collider is Some && s1[k].position
                == Some(p);
        assert(s2[k].collider is Some && s2[k].position == Some(p));
    }
    if occupied_by_collider(s2, p) {
        let k = choose|k: int|
            0 <= k < s2.len() && (#[trigger] s2[k]).collider is Some && s2[k].position
                == Some(p);
        assert(s1[k].collider is Some && s1[k].position == Some(p));
    }
}

/// One bounded push is a singleton batch.
pub proof fn lemma_push_one_view(
    log: Seq<(MsgV, Color)>,
    limit: int,
    m: (MsgV, Color),
)
    ensures
        push_all_view(log, limit, seq![m]) == push_view(log, limit, m),
{
    assert(seq![m][0] == m);
    assert(seq![m].skip(1) =~= Seq::<(MsgV, Color)>::empty());
    assert(push_all_view(push_view(log, limit, m), limit, Seq::<(MsgV, Color)>::empty())
        == push_view(log, limit, m));
}

/// The combined move-or-melee stage over all actors with a pending
/// move-or-melee action. Striking never relocates the attacker; moving
/// requires the destination to be free of terrain, colliders and this
/// pass's reservations, so no two colliders ever end the pass on one
/// tile; and in every branch the action's cost is consumed as soon as the
/// actor can act.
#[verifier::rlimit(100)]
pub fn move_and_melee_system(w: &mut GameWorld)
    requires
        world_wf(old(w)),
    ensures
        world_wf(final(w)),
        crate::world::positions_distinct(final(w).actors@),
        final(w).actors@.len() == old(w).actors@.len(),
        forall|i: int|
            0 <= i < old(w).actors@.len() ==> same_but_combat(
                #[trigger] old(w).actors@[i],
                final(w).actors@[i],
            ),
        final(w).map == old(w).map,
        final(w).messages.limit == old(w).messages.limit,
        final(w).state == old(w).state,
        final(w).input == old(w).input,
        final(w).menu == old(w).menu,
        final(w).targeting == old(w).targeting,
        old(w).state != State::Game ==> *final(w) == *old(w),
        forall|i: int|
            0 <= i < old(w).actors@.len() ==> energy_val(#[trigger] final(w).actors@[i])
                <= energy_val(old(w).actors@[i]),
        old(w).state == State::Game ==> forall|i: int|
            0 <= i < old(w).actors@.len() && mom_ready(#[trigger] old(w).actors@[i])
                && energy_val(old(w).actors@[i]) > 0 ==> energy_val(final(w).actors@[i])
                == energy_val(old(w).actors@[i]) - cost_of(old(w).actors@[i].action.unwrap()),
        forall|i: int|
            0 <= i < old(w).actors@.len() && !(mom_ready(#[trigger] old(w).actors@[i])
                && energy_val(old(w).actors@[i]) > 0) ==> final(w).actors@[i].energy == old(
                w,
            ).actors@[i].energy,
        old(w).state == State::Game ==> ({
            let f = mm_fold(
                grid_view(old(w).map.tiles),
                MmOutcome {
                    actors: old(w).actors@,
                    reserved: Seq::empty(),
                    msgs: Seq::empty(),
                },
                old(w).actors@.len() as int,
            );
            &&& final(w).actors@ == f.actors
            &&& log_view(final(w).messages.inner@) == push_all_view(
                log_view(old(w).messages.inner@),
                old(w).messages.limit as int,
                f.msgs,
            )
        }),
{
    if !(w.state == State::Game) {
        return ;
    }
    let ghost s0 = w.actors@;
    let ghost grid = grid_view(old(w).map.tiles);
    let ghost init = MmOutcome { actors: s0, reserved: Seq::empty(), msgs: Seq::empty() };
    let mut reserved: Vec<Position> = Vec::new();
    let mut i: usize = 0;
    while i < w.actors.len()
        invariant
            world_wf(w),
            ({
                let f = mm_fold(grid, init, i as int);
                &&& w.actors@ == f.actors
                &&& reserved@ == f.reserved
                &&& log_view(w.messages.inner@) == push_all_view(
                    log_view(old(w).messages.inner@),
                    old(w).messages.limit as int,
                    f.msgs,
                )
            }),
            grid == grid_view(old(w).map.tiles),
            init == (MmOutcome { actors: s0, reserved: Seq::empty(), msgs: Seq::empty() }),
            i <= s0.len(),
            w.actors@.len() == s0.len(),
            w.state == State::Game,
            w.map == old(w).map,
            w.messages.limit == old(w).messages.limit,
            w.input == old(w).input,
            w.menu == old(w).menu,
            w.targeting == old(w).targeting,
            forall|j: int|
                0 <= j < s0.len() ==> same_but_combat(#[trigger] s0[j], w.actors@[j]),
            forall|j: int|
                i <= j < s0.len() ==> ({
                    &&& (#[trigger] w.actors@[j]).energy == s0[j].energy
                    &&& w.actors@[j].position == s0[j].position
                    &&& w.actors@[j].velocity == s0[j].velocity
                }),
            forall|j: int|
                0 <= j < s0.len() ==> energy_val(#[trigger] w.actors@[j]) <= energy_val(s0[j]),
            forall|j: int|
                0 <= j < i && mom_ready(#[trigger] s0[j]) && energy_val(s0[j]) > 0
                    ==> energy_val(w.actors@[j]) == energy_val(s0[j]) - cost_of(
                    s0[j].action.unwrap(),
                ),
            forall|j: int|
                0 <= j < s0.len() && !(mom_ready(#[trigger] s0[j]) && energy_val(s0[j]) > 0)
                    ==> w.actors@[j].energy == s0[j].energy,
        decreases s0.len() - i,
    {
        let ghost fpre = mm_fold(grid, init, i as int);
        let ghost spre = w.actors@;
        let ghost logpre = log_view(w.messages.inner@);
        let mut ready = false;
        let mut my_pos = Position { x: 0, y: 0 };
        let mut vel = Velocity::new();
        let mut attack_player = false;
        let mut attack_monsters = false;
        let mut my_power: i32 = 0;
        {
            let a = &w.actors[i];
            if a.position.is_some() && a.name.is_some() && a.power.is_some()
                && a.energy.is_some() {
                if let Some(Action::MoveOrMelee {
                    velocity,
                    attack_player: ap,
                    attack_monsters: am,
                }) = &a.action {
                    ready = true;
                    my_pos = match &a.position {
                        Some(p) => *p,
                        None => my_pos,
                    };
                    vel = *velocity;
                    attack_player = *ap;
                    attack_monsters = *am;
                    my_power = match &a.power {
                        Some(p) => p.0,
                        None => 0,
                    };
                }
            }
        }
        if ready {
            proof {
                assert(mom_ready(spre[i as int]));
                assert(spre[i as int].action.unwrap()->MoveOrMelee_velocity == vel);
            }
            let cost = vel.magnitude;
            let candidate = my_pos.add_velocity(&vel);
            proof {
                assert(candidate == mm_candidate(spre[i as int]));
            }
            let target = find_alive_at(&w.actors, i, &candidate);
            let mut can = false;
            {
                let a = &mut w.actors[i];
                if let Some(e) = &mut a.energy {
                    if e.can_act() {
                        can = e.consume(cost);
                    }
                }
            }
            proof {
                assert(can == (energy_val(spre[i as int]) > 0));
                if can {
                    assert(w.actors@ =~= spre.update(i as int, mm_paid(spre[i as int])));
                } else {
                    assert(w.actors@ =~= spre);
                }
            }
            if can {
                let ghost s1 = spre.update(i as int, mm_paid(spre[i as int]));
                match target {
                    Some(t) => {
                        // An attack attempt, gated by faction; a forbidden
                        // strike is silently absorbed.
                        let is_target_player = w.actors[t].player.is_some();
                        if (is_target_player && attack_player) || (!is_target_player
                            && attack_monsters) {
                            let attacker_name = match &w.actors[i].name {
                                Some(n) => n.clone(),
                                None => crate::components::Name::new(""),
                            };
                            let target_name = match &w.actors[t].name {
                                Some(n) => n.clone(),
                                None => crate::components::Name::new(""),
                            };
                            proof {
                                reveal_strlit("");
                                assert(""@ =~= Seq::<char>::empty());
                                assert(attacker_name.0@ == name_view(spre[i as int]));
                                assert(target_name.0@ == name_view(spre[t as int]));
                            }
                            let mut damage: i64 = 0;
                            {
                                let a = &mut w.actors[t];
                                if let Some(l) = &mut a.living {
                                    damage = apply_melee(my_power, l);
                                }
                            }
                            proof {
                                assert(damage as int == melee_damage(
                                    my_power as int,
                                    spre[t as int].living.unwrap().defense as int,
                                ));
                                assert(w.actors@ =~= s1.update(
                                    t as int,
                                    mm_struck(s1[t as int], my_power as int),
                                ));
                            }
                            if damage > 0 {
                                w.messages.push(
                                    Msg::Attack {
                                        attacker: attacker_name.0,
                                        target: target_name.0,
                                        damage,
                                    },
                                    Color::White,
                                );
                            } else {
                                w.messages.push(
                                    Msg::NoEffect {
                                        attacker: attacker_name.0,
                                        target: target_name.0,
                                    },
                                    Color::White,
                                );
                            }
                            proof {
                                let limit = old(w).messages.limit as int;
                                let base = log_view(old(w).messages.inner@);
                                let mv = mm_strike_msg(
                                    spre[i as int],
                                    spre[t as int],
                                    my_power as int,
                                );
                                assert(log_view(w.messages.inner@) == push_view(
                                    logpre,
                                    limit,
                                    mv,
                                ));
                                lemma_push_all_view_concat(base, limit, fpre.msgs, seq![mv]);
                                lemma_push_one_view(
                                    push_all_view(base, limit, fpre.msgs),
                                    limit,
                                    mv,
                                );
                                assert(fpre.msgs + seq![mv] =~= fpre.msgs.push(mv));
                                assert(log_view(w.messages.inner@) == push_all_view(
                                    base,
                                    limit,
                                    mm_step(grid, fpre, i as int).msgs,
                                ));
                            }
                        }
                    },
                    None => {
                        // A plain move: blocked terrain, colliders, or a
                        // reservation from this pass absorb it.
                        let blocked = w.is_blocked(&candidate) || contains_pos(
                            &reserved,
                            &candidate,
                        );
                        proof {
                            lemma_occupied_same(w.actors@, spre, candidate);
                            assert(blocked == (tile_blocked(grid, candidate)
                                || occupied_by_collider(spre, candidate)
                                || fpre.reserved.contains(candidate)));
                        }
                        if !blocked {
                            proof {
                                assert(!occupied_by_collider(w.actors@, candidate));
                            }
                            w.actors[i].position = Some(candidate);
                            reserved.push(candidate);
                        }
                        w.actors[i].velocity = Some(
                            Velocity { heading: vel.heading, magnitude: 0 },
                        );
                        proof {
                            assert(w.actors@ =~= s1.update(
                                i as int,
                                mm_stepped(spre[i as int], !blocked),
                            ));
                        }
                    },
                }
            }
        }
        proof {
            let f2 = mm_step(grid, fpre, i as int);
            assert(mm_fold(grid, init, i as int + 1) == f2);
            assert(w.actors@ =~= f2.actors);
            assert(reserved@ =~= f2.reserved);
            assert(log_view(w.messages.inner@) == push_all_view(
                log_view(old(w).messages.inner@),
                old(w).messages.limit as int,
                f2.msgs,
            ));
        }
        i = i + 1;
    }
}

} // verus!
