//! The secondary resolution stages: skip, pick-up, drop, the two death
//! transitions, the scheduler tick, location history and fog of war.

use crate::action::Action;
use crate::components::{Color, Name, INVENTORY_CAPACITY};
use crate::map::grid_view;
use crate::position::PreviousPosition;
use crate::resources::{Msg, State};
use crate::world::{energy_val, spec_in_fov, world_wf, Actor, Fov, GameWorld};
use vstd::prelude::*;
use vstd::string::StringExecFns;

verus! {

/// An actor the skip stage acts for.
pub open spec fn skip_ready(a: Actor) -> bool {
    &&& a.action is Some
    &&& a.action.unwrap() is Skip
    &&& a.energy is Some
}

/// Two rows that agree on everything but the energy accumulator.
pub open spec fn same_but_energy(a: Actor, b: Actor) -> bool {
    &&& b.position == a.position
    &&& b.prev_position == a.prev_position
    &&& b.velocity == a.velocity
    &&& b.living == a.living
    &&& b.power == a.power
    &&& b.player == a.player
    &&& b.ai == a.ai
    &&& b.collider == a.collider
    &&& b.inventory == a.inventory
    &&& b.item == a.item
    &&& b.name == a.name
    &&& b.visual == a.visual
    &&& b.action == a.action
    &&& (b.energy is Some <==> a.energy is Some)
}

/// The skip stage: a pending wait consumes its tick count and changes
/// nothing else.
pub fn skip_system(w: &mut GameWorld)
    requires
        world_wf(old(w)),
    ensures
        world_wf(final(w)),
        final(w).actors@.len() == old(w).actors@.len(),
        forall|i: int|
            0 <= i < old(w).actors@.len() ==> same_but_energy(
                #[trigger] old(w).actors@[i],
                final(w).actors@[i],
            ),
        forall|i: int|
            0 <= i < old(w).actors@.len() && skip_ready(#[trigger] old(w).actors@[i])
                && energy_val(old(w).actors@[i]) > 0 ==> energy_val(final(w).actors@[i])
                == energy_val(old(w).actors@[i]) - crate::action::cost_of(
                old(w).actors@[i].action.unwrap(),
            ),
        forall|i: int|
            0 <= i < old(w).actors@.len() && !(skip_ready(#[trigger] old(w).actors@[i])
                && energy_val(old(w).actors@[i]) > 0) ==> final(w).actors@[i] == old(w).actors@[i],
        final(w).map == old(w).map,
        final(w).messages == old(w).messages,
        final(w).state == old(w).state,
        final(w).input == old(w).input,
        final(w).menu == old(w).menu,
        final(w).targeting == old(w).targeting,
{
    let ghost s0 = w.actors@;
    let mut i: usize = 0;
    while i < w.actors.len()
        invariant
            world_wf(w),
            i <= s0.len(),
            w.actors@.len() == s0.len(),
            w.map == old(w).map,
            w.messages == old(w).messages,
            w.state == old(w).state,
            w.input == old(w).input,
            w.menu == old(w).menu,
            w.targeting == old(w).targeting,
            forall|j: int|
                0 <= j < s0.len() ==> same_but_energy(#[trigger] s0[j], w.actors@[j]),
            forall|j: int| i <= j < s0.len() ==> #[trigger] w.actors@[j] == s0[j],
            forall|j: int|
                0 <= j < i && skip_ready(#[trigger] s0[j]) && energy_val(s0[j]) > 0
                    ==> energy_val(w.actors@[j]) == energy_val(s0[j]) - crate::action::cost_of(
                    s0[j].action.unwrap(),
                ),
            forall|j: int|
                0 <= j < i && !(skip_ready(#[trigger] s0[j]) && energy_val(s0[j]) > 0)
                    ==> w.actors@[j] == s0[j],
        decreases s0.len() - i,
    {
        let mut ticks: u8 = 0;
        let mut ready = false;
        {
            let a = &w.actors[i];
            if a.energy.is_some() {
                if let Some(Action::Skip { ticks: t }) = &a.action {
                    ready = true;
                    ticks = *t;
                }
            }
        }
        if ready {
            let a = &mut w.actors[i];
            if let Some(e) = &mut a.energy {
                if e.can_act() {
                    e.consume(ticks);
                }
            }
        }
        i = i + 1;
    }
}

/// A monster the death transition fires for: alive, out of hit points,
/// and not the player.
pub open spec fn dead_monster(a: Actor) -> bool {
    &&& a.player is None
    &&& a.living is Some
    &&& a.living.unwrap().alive
    &&& a.living.unwrap().hp <= 0
    &&& a.name is Some
    &&& a.visual is Some
}

/// The one-time irreversible monster death transition: the alive flag
/// flips, the corpse keeps its place but loses its behavior, power,
/// collision footprint, pending action and accumulator, is renamed to its
/// remains, and is re-skinned.
pub open spec fn monster_transitioned(a: Actor, b: Actor) -> bool {
    &&& b.position == a.position
    &&& b.prev_position == a.prev_position
    &&& b.velocity == a.velocity
    &&& b.player == a.player
    &&& b.inventory == a.inventory
    &&& b.item == a.item
    &&& b.living == Some(
        crate::components::Living {
            alive: false,
            max_hp: a.living.unwrap().max_hp,
            hp: a.living.unwrap().hp,
            defense: a.living.unwrap().defense,
        },
    )
    &&& b.ai is None
    &&& b.power is None
    &&& b.collider is None
    &&& b.action is None
    &&& b.energy is None
    &&& b.name is Some
    &&& b.name.unwrap().0@ == "remains of "@ + a.name.unwrap().0@
    &&& b.visual == Some(
        crate::components::Visual {
            glyph: '%',
            color: Color::DarkRed,
            always_visible: a.visual.unwrap().always_visible,
        },
    )
}

/// The death transition is a one-way gate: an actor that has taken it is
/// no longer alive, so it can never be a candidate again — scanning a
/// second time has no additional effect.
pub proof fn lemma_death_transition_idempotent(a: Actor, b: Actor)
    requires
        monster_transitioned(a, b),
    ensures
        !dead_monster(b),
{
}

/// The death reports for the candidate rows below `upto`, in handle
/// order.
pub open spec fn death_msgs(s: Seq<Actor>, upto: int) -> Seq<(crate::resources::MsgV, Color)>
    decreases upto,
{
    if upto <= 0 {
        Seq::empty()
    } else {
        death_msgs(s, upto - 1) + (if 0 <= upto - 1 < s.len() && dead_monster(s[upto - 1]) {
            seq![
                (
                    crate::resources::MsgV::MonsterDead {
                        name: crate::resolve::name_view(s[upto - 1]),
                    },
                    Color::Orange,
                ),
            ]
        } else {
            Seq::empty()
        })
    }
}

/// The monster death stage: every alive non-player actor with hit points
/// at or below zero takes the transition; everyone else is untouched.
/// Each transition is announced exactly once, in handle order; with no
/// candidate the log is untouched.
pub fn monster_death_system(w: &mut GameWorld)
    requires
        world_wf(old(w)),
    ensures
        world_wf(final(w)),
        final(w).actors@.len() == old(w).actors@.len(),
        old(w).state == State::Game ==> forall|i: int|
            0 <= i < old(w).actors@.len() && dead_monster(#[trigger] old(w).actors@[i])
                ==> monster_transitioned(old(w).actors@[i], final(w).actors@[i]),
        forall|i: int|
            0 <= i < old(w).actors@.len() && !dead_monster(#[trigger] old(w).actors@[i])
                ==> final(w).actors@[i] == old(w).actors@[i],
        old(w).state == State::Game ==> crate::resources::log_view(final(w).messages.inner@)
            == crate::resources::push_all_view(
            crate::resources::log_view(old(w).messages.inner@),
            old(w).messages.limit as int,
            death_msgs(old(w).actors@, old(w).actors@.len() as int),
        ),
        old(w).state != State::Game ==> *final(w) == *old(w),
        final(w).map == old(w).map,
        final(w).messages.limit == old(w).messages.limit,
        final(w).state == old(w).state,
        final(w).input == old(w).input,
        final(w).menu == old(w).menu,
        final(w).targeting == old(w).targeting,
{
    if !(w.state == State::Game) {
        return ;
    }
    let ghost s0 = w.actors@;
    let ghost base = crate::resources::log_view(w.messages.inner@);
    let ghost limit = old(w).messages.limit as int;
    let mut i: usize = 0;
    while i < w.actors.len()
        invariant
            world_wf(w),
            i <= s0.len(),
            w.actors@.len() == s0.len(),
            w.state == State::Game,
            w.map == old(w).map,
            w.messages.limit == old(w).messages.limit,
            w.input == old(w).input,
            w.menu == old(w).menu,
            w.targeting == old(w).targeting,
            base == crate::resources::log_view(old(w).messages.inner@),
            limit == old(w).messages.limit as int,
            crate::resources::log_view(w.messages.inner@) == crate::resources::push_all_view(
                base,
                limit,
                death_msgs(s0, i as int),
            ),
            forall|j: int| i <= j < s0.len() ==> #[trigger] w.actors@[j] == s0[j],
            forall|j: int|
                0 <= j < i && dead_monster(#[trigger] s0[j]) ==> monster_transitioned(
                    s0[j],
                    w.actors@[j],
                ),
            forall|j: int|
                0 <= j < i && !dead_monster(#[trigger] s0[j]) ==> w.actors@[j] == s0[j],
        decreases s0.len() - i,
    {
        let ghost logpre = crate::resources::log_view(w.messages.inner@);
        let mut is_dead = false;
        {
            let a = &w.actors[i];
            if a.player.is_none() && a.name.is_some() && a.visual.is_some() {
                if let Some(l) = &a.living {
                    if l.alive && l.hp <= 0 {
                        is_dead = true;
                    }
                }
            }
        }
        if is_dead {
            let name = match &w.actors[i].name {
                Some(n) => n.clone(),
                None => Name::new(""),
            };
            proof {
                reveal_strlit("");
                assert(""@ =~= Seq::<char>::empty());
                assert(name.0@ == crate::resolve::name_view(s0[i as int]));
            }
            w.messages.push(Msg::MonsterDead { name: name.0.clone() }, Color::Orange);
            proof {
                let m = (
                    crate::resources::MsgV::MonsterDead {
                        name: crate::resolve::name_view(s0[i as int]),
                    },
                    Color::Orange,
                );
                crate::resources::lemma_push_all_view_concat(
                    base,
                    limit,
                    death_msgs(s0, i as int),
                    seq![m],
                );
                crate::resolve::lemma_push_one_view(logpre, limit, m);
                assert(death_msgs(s0, i as int) + seq![m] =~= death_msgs(s0, i as int + 1));
            }
            let a = &mut w.actors[i];
            if let Some(l) = &mut a.living {
                l.alive = false;
            }
            if let Some(v) = &mut a.visual {
                v.glyph = '%';
                v.color = Color::DarkRed;
            }
            a.ai = None;
            a.power = None;
            a.collider = None;
            a.action = None;
            a.energy = None;
            a.name = Some(Name(String::from_str("remains of ").concat(name.0.as_str())));
        } else {
            proof {
                assert(death_msgs(s0, i as int + 1) =~= death_msgs(s0, i as int));
            }
        }
        i = i + 1;
    }
}

/// The player the death transition fires for.
pub open spec fn dead_player(a: Actor) -> bool {
    &&& a.player is Some
    &&& a.living is Some
    &&& a.living.unwrap().alive
    &&& a.living.unwrap().hp <= 0
    &&& a.visual is Some
}

/// The player's death transition: cosmetic next to the monster one — the
/// alive flag flips and the corpse is re-skinned, everything else stays.
pub open spec fn player_transitioned(a: Actor, b: Actor) -> bool {
    &&& b == (Actor {
        living: Some(
            crate::components::Living {
                alive: false,
                max_hp: a.living.unwrap().max_hp,
                hp: a.living.unwrap().hp,
                defense: a.living.unwrap().defense,
            },
        ),
        visual: Some(
            crate::components::Visual {
                glyph: '%',
                color: Color::DarkRed,
                always_visible: a.visual.unwrap().always_visible,
            },
        ),
        ..a
    })
}

/// The player's death reports for the candidate rows below `upto`.
pub open spec fn player_death_msgs(s: Seq<Actor>, upto: int) -> Seq<
    (crate::resources::MsgV, Color),
>
    decreases upto,
{
    if upto <= 0 {
        Seq::empty()
    } else {
        player_death_msgs(s, upto - 1) + (if 0 <= upto - 1 < s.len() && dead_player(
            s[upto - 1],
        ) {
            seq![(crate::resources::MsgV::PlayerDead, Color::Red)]
        } else {
            Seq::empty()
        })
    }
}

/// The player death stage: the fall is announced exactly once; with no
/// candidate the log is untouched.
pub fn player_death_system(w: &mut GameWorld)
    requires
        world_wf(old(w)),
    ensures
        world_wf(final(w)),
        final(w).actors@.len() == old(w).actors@.len(),
        old(w).state == State::Game ==> forall|i: int|
            0 <= i < old(w).actors@.len() && dead_player(#[trigger] old(w).actors@[i])
                ==> player_transitioned(old(w).actors@[i], final(w).actors@[i]),
        forall|i: int|
            0 <= i < old(w).actors@.len() && !dead_player(#[trigger] old(w).actors@[i])
                ==> final(w).actors@[i] == old(w).actors@[i],
        old(w).state == State::Game ==> crate::resources::log_view(final(w).messages.inner@)
            == crate::resources::push_all_view(
            crate::resources::log_view(old(w).messages.inner@),
            old(w).messages.limit as int,
            player_death_msgs(old(w).actors@, old(w).actors@.len() as int),
        ),
        old(w).state != State::Game ==> *final(w) == *old(w),
        final(w).map == old(w).map,
        final(w).messages.limit == old(w).messages.limit,
        final(w).state == old(w).state,
        final(w).input == old(w).input,
        final(w).menu == old(w).menu,
        final(w).targeting == old(w).targeting,
{
    if !(w.state == State::Game) {
        return ;
    }
    let ghost s0 = w.actors@;
    let ghost base = crate::resources::log_view(w.messages.inner@);
    let ghost limit = old(w).messages.limit as int;
    let mut i: usize = 0;
    while i < w.actors.len()
        invariant
            world_wf(w),
            i <= s0.len(),
            w.actors@.len() == s0.len(),
            w.state == State::Game,
            w.map == old(w).map,
            w.messages.limit == old(w).messages.limit,
            w.input == old(w).input,
            w.menu == old(w).menu,
            w.targeting == old(w).targeting,
            base == crate::resources::log_view(old(w).messages.inner@),
            limit == old(w).messages.limit as int,
            crate::resources::log_view(w.messages.inner@) == crate::resources::push_all_view(
                base,
                limit,
                player_death_msgs(s0, i as int),
            ),
            forall|j: int| i <= j < s0.len() ==> #[trigger] w.actors@[j] == s0[j],
            forall|j: int|
                0 <= j < i && dead_player(#[trigger] s0[j]) ==> player_transitioned(
                    s0[j],
                    w.actors@[j],
                ),
            forall|j: int|
                0 <= j < i && !dead_player(#[trigger] s0[j]) ==> w.actors@[j] == s0[j],
        decreases s0.len() - i,
    {
        let ghost logpre = crate::resources::log_view(w.messages.inner@);
        let mut is_dead = false;
        {
            let a = &w.actors[i];
            if a.player.is_some() && a.visual.is_some() {
                if let Some(l) = &a.living {
                    if l.alive && l.hp <= 0 {
                        is_dead = true;
                    }
                }
            }
        }
        if is_dead {
            w.messages.push(Msg::PlayerDead, Color::Red);
            proof {
                let m = (crate::resources::MsgV::PlayerDead, Color::Red);
                crate::resources::lemma_push_all_view_concat(
                    base,
                    limit,
                    player_death_msgs(s0, i as int),
                    seq![m],
                );
                crate::resolve::lemma_push_one_view(logpre, limit, m);
                assert(player_death_msgs(s0, i as int) + seq![m] =~= player_death_msgs(
                    s0,
                    i as int + 1,
                ));
            }
            let a = &mut w.actors[i];
            if let Some(l) = &mut a.living {
                l.alive = false;
            }
            if let Some(v) = &mut a.visual {
                v.glyph = '%';
                v.color = Color::DarkRed;
            }
        } else {
            proof {
                assert(player_death_msgs(s0, i as int + 1) =~= player_death_msgs(
                    s0,
                    i as int,
                ));
            }
        }
        i = i + 1;
    }
}

/// Whether the scheduler advances time: only while the player lives and
/// cannot yet act.
pub open spec fn spec_should_tick(s: Seq<Actor>) -> bool {
    exists|i: int|
        0 <= i < s.len() && (#[trigger] s[i]).player is Some && s[i].energy is Some
            && energy_val(s[i]) <= 0 && s[i].living is Some && s[i].living.unwrap().alive
}

/// The scheduler tick: when the player is alive but cannot act yet, every
/// accumulator in the store gains one point; otherwise time stands still.
pub fn time_system(w: &mut GameWorld)
    requires
        world_wf(old(w)),
    ensures
        world_wf(final(w)),
        final(w).actors@.len() == old(w).actors@.len(),
        !spec_should_tick(old(w).actors@) ==> *final(w) == *old(w),
        spec_should_tick(old(w).actors@) ==> ({
            &&& forall|i: int|
                0 <= i < old(w).actors@.len() ==> same_but_energy(
                    #[trigger] old(w).actors@[i],
                    final(w).actors@[i],
                )
            &&& forall|i: int|
                0 <= i < old(w).actors@.len() && old(w).actors@[i].energy is Some
                    ==> energy_val(#[trigger] final(w).actors@[i]) == (if energy_val(
                    old(w).actors@[i],
                ) < i32::MAX {
                    energy_val(old(w).actors@[i]) + 1
                } else {
                    energy_val(old(w).actors@[i])
                })
            &&& forall|i: int|
                0 <= i < old(w).actors@.len() && old(w).actors@[i].energy is None
                    ==> #[trigger] final(w).actors@[i] == old(w).actors@[i]
        }),
        final(w).map == old(w).map,
        final(w).messages == old(w).messages,
        final(w).state == old(w).state,
        final(w).input == old(w).input,
        final(w).menu == old(w).menu,
        final(w).targeting == old(w).targeting,
{
    let mut tick = false;
    {
        match crate::world::find_player(&w.actors) {
            Some(p) => {
                let a = &w.actors[p];
                let mut can = true;
                if let Some(e) = &a.energy {
                    can = e.can_act();
                }
                let mut alive = false;
                if let Some(l) = &a.living {
                    alive = l.alive;
                }
                if a.energy.is_some() && !can && alive {
                    tick = true;
                }
            },
            None => {},
        }
    }
    proof {
        if tick {
            assert(spec_should_tick(w.actors@));
        } else {
            assert(!spec_should_tick(w.actors@)) by {
                if spec_should_tick(w.actors@) {
                    let i = choose|i: int|
                        0 <= i < w.actors@.len() && (#[trigger] w.actors@[i]).player is Some
                            && w.actors@[i].energy is Some && energy_val(w.actors@[i]) <= 0
                            && w.actors@[i].living is Some
                            && w.actors@[i].living.unwrap().alive;
                    assert(w.actors@[i].player is Some);
                }
            }
        }
    }
    if !tick {
        return ;
    }
    let ghost s0 = w.actors@;
    let mut i: usize = 0;
    while i < w.actors.len()
        invariant
            world_wf(w),
            i <= s0.len(),
            w.actors@.len() == s0.len(),
            w.map == old(w).map,
            w.messages == old(w).messages,
            w.state == old(w).state,
            w.input == old(w).input,
            w.menu == old(w).menu,
            w.targeting == old(w).targeting,
            forall|j: int| i <= j < s0.len() ==> #[trigger] w.actors@[j] == s0[j],
            forall|j: int|
                0 <= j < s0.len() ==> same_but_energy(#[trigger] s0[j], w.actors@[j]),
            forall|j: int|
                0 <= j < i && s0[j].energy is Some ==> energy_val(#[trigger] w.actors@[j])
                    == (if energy_val(s0[j]) < i32::MAX {
                    energy_val(s0[j]) + 1
                } else {
                    energy_val(s0[j])
                }),
            forall|j: int|
                0 <= j < i && s0[j].energy is None ==> #[trigger] w.actors@[j] == s0[j],
        decreases s0.len() - i,
    {
        let a = &mut w.actors[i];
        if let Some(e) = &mut a.energy {
            if e.0 < i32::MAX {
                e.gain(1);
            }
        }
        i = i + 1;
    }
}

/// Remember where every placed actor stood before the next movement pass.
pub fn location_history_system(w: &mut GameWorld)
    requires
        world_wf(old(w)),
    ensures
        world_wf(final(w)),
        final(w).actors@.len() == old(w).actors@.len(),
        old(w).state != State::Game ==> *final(w) == *old(w),
        old(w).state == State::Game ==> forall|i: int|
            0 <= i < old(w).actors@.len() ==> #[trigger] final(w).actors@[i] == (if old(w).actors@[i].position is Some && old(w).actors@[i].prev_position is Some {
                Actor {
                    prev_position: Some(
                        PreviousPosition {
                            x: old(w).actors@[i].position.unwrap().x,
                            y: old(w).actors@[i].position.unwrap().y,
                        },
                    ),
                    ..old(w).actors@[i]
                }
            } else {
                old(w).actors@[i]
            }),
        final(w).map == old(w).map,
        final(w).messages == old(w).messages,
        final(w).state == old(w).state,
        final(w).input == old(w).input,
        final(w).menu == old(w).menu,
        final(w).targeting == old(w).targeting,
{
    if !(w.state == State::Game) {
        return ;
    }
    let ghost s0 = w.actors@;
    let mut i: usize = 0;
    while i < w.actors.len()
        invariant
            world_wf(w),
            i <= s0.len(),
            w.actors@.len() == s0.len(),
            w.map == old(w).map,
            w.messages == old(w).messages,
            w.state == old(w).state,
            w.input == old(w).input,
            w.menu == old(w).menu,
            w.targeting == old(w).targeting,
            forall|j: int| i <= j < s0.len() ==> #[trigger] w.actors@[j] == s0[j],
            forall|j: int|
                0 <= j < i ==> #[trigger] w.actors@[j] == (if s0[j].position is Some
                    && s0[j].prev_position is Some {
                    Actor {
                        prev_position: Some(
                            PreviousPosition {
                                x: s0[j].position.unwrap().x,
                                y: s0[j].position.unwrap().y,
                            },
                        ),
                        ..s0[j]
                    }
                } else {
                    s0[j]
                }),
        decreases s0.len() - i,
    {
        let mut pos: Option<PreviousPosition> = None;
        {
            let a = &w.actors[i];
            if a.prev_position.is_some() {
                if let Some(p) = &a.position {
                    pos = Some(PreviousPosition { x: p.x, y: p.y });
                }
            }
        }
        if let Some(p) = pos {
            w.actors[i].prev_position = Some(p);
        }
        i = i + 1;
    }
}

/// Mark every tile the oracle currently sees as explored.
pub fn fog_of_war_system(w: &mut GameWorld, fov: &Fov)
    requires
        world_wf(old(w)),
    ensures
        world_wf(final(w)),
        final(w).actors == old(w).actors,
        old(w).state != State::Game ==> *final(w) == *old(w),
        grid_view(final(w).map.tiles).len() == grid_view(old(w).map.tiles).len(),
        forall|x: int|
            0 <= x < grid_view(old(w).map.tiles).len()
                ==> (#[trigger] grid_view(final(w).map.tiles)[x]).len() == grid_view(
                old(w).map.tiles,
            )[x].len(),
        old(w).state == State::Game ==> forall|x: int, y: int|
            0 <= x < grid_view(old(w).map.tiles).len() && 0 <= y < grid_view(
                old(w).map.tiles,
            )[x].len() ==> #[trigger] grid_view(final(w).map.tiles)[x][y] == (crate::map::Tile {
                blocked: grid_view(old(w).map.tiles)[x][y].blocked,
                block_sight: grid_view(old(w).map.tiles)[x][y].block_sight,
                explored: grid_view(old(w).map.tiles)[x][y].explored || spec_in_fov(fov, x, y),
            }),
        final(w).map.spawn_point == old(w).map.spawn_point,
        final(w).messages == old(w).messages,
        final(w).state == old(w).state,
        final(w).input == old(w).input,
        final(w).menu == old(w).menu,
        final(w).targeting == old(w).targeting,
{
    if !(w.state == State::Game) {
        return ;
    }
    let ghost g0 = old(w).map.tiles@;
    proof {
        assert(g0.len() <= 0x2000_0000) by {
            assert(crate::map::grid_view(old(w).map.tiles).len() == g0.len());
        }
        assert forall|i: int| 0 <= i < g0.len() implies (#[trigger] g0[i])@.len()
            <= 0x2000_0000 by {
            assert(crate::map::grid_view(old(w).map.tiles)[i] == g0[i]@);
            assert(crate::map::grid_view(old(w).map.tiles)[i].len() <= 0x2000_0000);
        }
    }
    let mut x: usize = 0;
    while x < w.map.tiles.len()
        invariant
            crate::world::actors_wf(w.actors@),
            w.messages.limit == old(w).messages.limit,
            crate::world::position_bounded(w.map.spawn_point),
            g0.len() <= 0x2000_0000,
            forall|i: int| 0 <= i < g0.len() ==> (#[trigger] g0[i])@.len() <= 0x2000_0000,
            x <= g0.len(),
            w.actors == old(w).actors,
            w.map.tiles@.len() == g0.len(),
            forall|i: int|
                0 <= i < g0.len() ==> (#[trigger] w.map.tiles@[i])@.len() == g0[i]@.len(),
            forall|i: int, j: int|
                0 <= i < g0.len() && 0 <= j < g0[i]@.len()
                    ==> #[trigger] w.map.tiles@[i]@[j] == (crate::map::Tile {
                    blocked: g0[i]@[j].blocked,
                    block_sight: g0[i]@[j].block_sight,
                    explored: g0[i]@[j].explored || (i < x && spec_in_fov(fov, i, j)),
                }),
            w.map.spawn_point == old(w).map.spawn_point,
            w.messages == old(w).messages,
            w.state == old(w).state,
            w.state == State::Game,
            w.input == old(w).input,
            w.menu == old(w).menu,
            w.targeting == old(w).targeting,
        decreases g0.len() - x,
    {
        let mut y: usize = 0;
        while y < w.map.tiles[x].len()
            invariant
                crate::world::actors_wf(w.actors@),
                w.messages.limit == old(w).messages.limit,
                crate::world::position_bounded(w.map.spawn_point),
                g0.len() <= 0x2000_0000,
                forall|i: int| 0 <= i < g0.len() ==> (#[trigger] g0[i])@.len() <= 0x2000_0000,
                x < g0.len(),
                y <= g0[x as int]@.len(),
                w.actors == old(w).actors,
                w.map.tiles@.len() == g0.len(),
                forall|i: int|
                    0 <= i < g0.len() ==> (#[trigger] w.map.tiles@[i])@.len() == g0[i]@.len(),
                forall|i: int, j: int|
                    0 <= i < g0.len() && 0 <= j < g0[i]@.len()
                        ==> #[trigger] w.map.tiles@[i]@[j] == (crate::map::Tile {
                        blocked: g0[i]@[j].blocked,
                        block_sight: g0[i]@[j].block_sight,
                        explored: g0[i]@[j].explored || ((i < x || (i == x && j < y))
                            && spec_in_fov(fov, i, j)),
                    }),
                w.map.spawn_point == old(w).map.spawn_point,
                w.messages == old(w).messages,
                w.state == old(w).state,
                w.state == State::Game,
                w.input == old(w).input,
                w.menu == old(w).menu,
                w.targeting == old(w).targeting,
            decreases g0[x as int]@.len() - y,
        {
            if fov.is_in_fov(x as i32, y as i32) {
                w.map.tiles[x][y].explored = true;
            }
            y = y + 1;
        }
        x = x + 1;
    }
    proof {
        assert(crate::world::map_ok(&w.map)) by {
            assert forall|i: int|
                0 <= i < crate::map::grid_view(w.map.tiles).len() implies (
            #[trigger] crate::map::grid_view(w.map.tiles)[i]).len() <= 0x2000_0000 by {
                assert(crate::map::grid_view(w.map.tiles)[i] == w.map.tiles@[i]@);
                assert(crate::map::grid_view(old(w).map.tiles)[i] == g0[i]@);
                assert(crate::map::grid_view(old(w).map.tiles)[i].len() <= 0x2000_0000);
            }
        }
    }
}


/// The frame of the inventory stages: only an actor's inventory, its
/// accumulator, and the positions of item rows may change.
pub open spec fn same_but_carry(a: Actor, b: Actor) -> bool {
    &&& b.prev_position == a.prev_position
    &&& b.velocity == a.velocity
    &&& b.living == a.living
    &&& b.power == a.power
    &&& b.player == a.player
    &&& b.ai == a.ai
    &&& b.collider == a.collider
    &&& b.item == a.item
    &&& b.name == a.name
    &&& b.visual == a.visual
    &&& b.action == a.action
    &&& (b.energy is Some <==> a.energy is Some)
    &&& (b.inventory is Some <==> a.inventory is Some)
    &&& (a.collider is Some ==> b.position == a.position)
}

/// An actor the pick-up stage acts for.
pub open spec fn pick_ready(a: Actor) -> bool {
    &&& a.action == Some(Action::PickUp)
    &&& a.inventory is Some
    &&& a.energy is Some
}

/// Whether some named item row lies on `p`.
pub open spec fn item_on_tile(s: Seq<Actor>, p: crate::position::Position) -> bool {
    exists|j: int|
        0 <= j < s.len() && (#[trigger] s[j]).item is Some && s[j].name is Some && s[j].position
            == Some(p)
}

/// The first named item row on `p`, scanning the store in handle order
/// from `from`.
pub open spec fn first_item_at(s: Seq<Actor>, p: crate::position::Position, from: int) -> Option<
    int,
>
    decreases s.len() - from,
{
    if from < 0 || from >= s.len() {
        None
    } else if s[from].item is Some && s[from].name is Some && s[from].position == Some(p) {
        Some(from)
    } else {
        first_item_at(s, p, from + 1)
    }
}

/// An actor the pick-up stage will act for: ready and standing somewhere.
pub open spec fn pick_attempting(s: Seq<Actor>, i: int) -> bool {
    &&& 0 <= i < s.len()
    &&& pick_ready(s[i])
    &&& s[i].position is Some
}

/// The exact outcome of a pass in which `i` is the only attempting
/// picker, stated against the starting store `s` and log `base`. With an
/// item underfoot, a full inventory keeps the item on the ground, posts
/// the capacity message and still pays one energy; with room and energy
/// the handle is appended, the item leaves the ground, and the pick-up
/// is reported; otherwise nothing changes.
pub open spec fn pick_sole_outcome(
    s: Seq<Actor>,
    i: int,
    base: Seq<(crate::resources::MsgV, Color)>,
    limit: int,
    s2: Seq<Actor>,
    log2: Seq<(crate::resources::MsgV, Color)>,
) -> bool {
    let pos = s[i].position.unwrap();
    match first_item_at(s, pos, 0) {
        None => s2 == s && log2 == base,
        Some(j) => {
            let full = s[i].inventory.unwrap().0@.len() >= INVENTORY_CAPACITY;
            let can = energy_val(s[i]) > 0;
            if full {
                &&& (can ==> energy_val(s2[i]) == energy_val(s[i]) - 1)
                &&& (!can ==> s2[i].energy == s[i].energy)
                &&& s2[i].inventory == s[i].inventory
                &&& s2[j] == s[j]
                &&& (forall|k: int| 0 <= k < s.len() && k != i ==> s2[k] == s[k])
                &&& log2 == crate::resources::push_view(
                    base,
                    limit,
                    (
                        crate::resources::MsgV::InventoryFull {
                            name: crate::resolve::name_view(s[j]),
                        },
                        Color::Red,
                    ),
                )
            } else if can {
                &&& energy_val(s2[i]) == energy_val(s[i]) - 1
                &&& s2[i].inventory is Some
                &&& s2[i].inventory.unwrap().0@ == s[i].inventory.unwrap().0@.push(j as usize)
                &&& s2[i].position == s[i].position
                &&& s2[j] == (Actor { position: None, ..s[j] })
                &&& (forall|k: int| 0 <= k < s.len() && k != i && k != j ==> s2[k] == s[k])
                &&& log2 == crate::resources::push_view(
                    base,
                    limit,
                    (
                        crate::resources::MsgV::PickedUp {
                            name: crate::resolve::name_view(s[j]),
                        },
                        Color::Green,
                    ),
                )
            } else {
                s2 == s && log2 == base
            }
        },
    }
}

/// The pick-up stage: an actor standing on an item takes it into its
/// inventory if there is room, paying one energy for the attempt; at
/// capacity the item stays on the ground, a message reports it, and the
/// energy is still consumed. With nothing underfoot the action is free.
/// When a single actor attempts a pick-up, its outcome is exact.
#[verifier::rlimit(100)]
pub fn pick_up_system(w: &mut GameWorld)
    requires
        world_wf(old(w)),
    ensures
        world_wf(final(w)),
        final(w).actors@.len() == old(w).actors@.len(),
        forall|i: int|
            0 <= i < old(w).actors@.len() ==> same_but_carry(
                #[trigger] old(w).actors@[i],
                final(w).actors@[i],
            ),
        forall|i: int|
            0 <= i < old(w).actors@.len() && !(pick_ready(#[trigger] old(w).actors@[i])
                && energy_val(old(w).actors@[i]) > 0) ==> final(w).actors@[i].energy == old(w).actors@[i].energy,
        forall|i: int|
            0 <= i < old(w).actors@.len() && pick_ready(#[trigger] old(w).actors@[i])
                && energy_val(old(w).actors@[i]) > 0 ==> (energy_val(final(w).actors@[i])
                == energy_val(old(w).actors@[i]) - 1 || final(w).actors@[i].energy == old(w).actors@[i].energy),
        forall|i: int|
            0 <= i < old(w).actors@.len() && pick_ready(#[trigger] old(w).actors@[i])
                && old(w).actors@[i].position is Some && !item_on_tile(
                old(w).actors@,
                old(w).actors@[i].position.unwrap(),
            ) ==> final(w).actors@[i] == old(w).actors@[i],
        forall|i: int|
            #[trigger] pick_attempting(old(w).actors@, i) && (forall|k: int|
                k != i ==> !pick_attempting(old(w).actors@, k)) ==> pick_sole_outcome(
                old(w).actors@,
                i,
                crate::resources::log_view(old(w).messages.inner@),
                old(w).messages.limit as int,
                final(w).actors@,
                crate::resources::log_view(final(w).messages.inner@),
            ),
        final(w).map == old(w).map,
        final(w).messages.limit == old(w).messages.limit,
        final(w).state == old(w).state,
        final(w).input == old(w).input,
        final(w).menu == old(w).menu,
        final(w).targeting == old(w).targeting,
{
    let ghost s0 = w.actors@;
    let ghost base = crate::resources::log_view(old(w).messages.inner@);
    let ghost limit = old(w).messages.limit as int;
    let mut i: usize = 0;
    while i < w.actors.len()
        invariant
            world_wf(w),
            i <= s0.len(),
            w.actors@.len() == s0.len(),
            w.map == old(w).map,
            w.messages.limit == old(w).messages.limit,
            w.state == old(w).state,
            w.input == old(w).input,
            w.menu == old(w).menu,
            w.targeting == old(w).targeting,
            base == crate::resources::log_view(old(w).messages.inner@),
            limit == old(w).messages.limit as int,
            forall|j: int|
                0 <= j < s0.len() ==> same_but_carry(#[trigger] s0[j], w.actors@[j]),
            forall|j: int|
                i <= j < s0.len() ==> ({
                    &&& (#[trigger] w.actors@[j]).energy == s0[j].energy
                    &&& w.actors@[j].inventory == s0[j].inventory
                }),
            forall|j: int|
                0 <= j < s0.len() && s0[j].item is Some && w.actors@[j].position != s0[
                    j].position ==> w.actors@[j].position is None,
            forall|j: int|
                0 <= j < i && !(pick_ready(#[trigger] s0[j]) && energy_val(s0[j]) > 0)
                    ==> w.actors@[j].energy == s0[j].energy,
            forall|j: int|
                0 <= j < i && pick_ready(#[trigger] s0[j]) && energy_val(s0[j]) > 0
                    ==> (energy_val(w.actors@[j]) == energy_val(s0[j]) - 1 || w.actors@[j].energy
                    == s0[j].energy),
            forall|j: int|
                0 <= j < i && pick_ready(#[trigger] s0[j]) && s0[j].position is Some
                    && !item_on_tile(s0, s0[j].position.unwrap()) ==> w.actors@[j] == s0[j],
            forall|a: int|
                #[trigger] pick_attempting(s0, a) && (forall|k: int|
                    k != a ==> !pick_attempting(s0, k)) ==> ({
                    if i <= a {
                        w.actors@ == s0 && crate::resources::log_view(w.messages.inner@)
                            == base
                    } else {
                        pick_sole_outcome(
                            s0,
                            a,
                            base,
                            limit,
                            w.actors@,
                            crate::resources::log_view(w.messages.inner@),
                        )
                    }
                }),
        decreases s0.len() - i,
    {
        let ghost spre = w.actors@;
        let ghost logpre = crate::resources::log_view(w.messages.inner@);
        let mut ready = false;
        let mut my_pos = crate::position::Position { x: 0, y: 0 };
        let mut inv_len: usize = 0;
        {
            let a = &w.actors[i];
            if a.inventory.is_some() && a.energy.is_some() && a.position.is_some() {
                if let Some(Action::PickUp) = &a.action {
                    ready = true;
                    my_pos = match &a.position {
                        Some(p) => *p,
                        None => my_pos,
                    };
                    inv_len = match &a.inventory {
                        Some(inv) => inv.0.len(),
                        None => 0,
                    };
                }
            }
        }
        if ready {
            // Find an item row sharing this tile.
            let mut found: Option<usize> = None;
            let mut j: usize = 0;
            while j < w.actors.len()
                invariant
                    j <= w.actors@.len(),
                    match found {
                        Some(f) => first_item_at(w.actors@, my_pos, 0) == Some(f as int) && f
                            < w.actors@.len() && w.actors@[f as int].item is Some
                            && w.actors@[f as int].name is Some && w.actors@[
                            f as int].position == Some(my_pos),
                        None => first_item_at(w.actors@, my_pos, 0) == first_item_at(
                            w.actors@,
                            my_pos,
                            j as int,
                        ) && forall|k: int|
                            0 <= k < j ==> !((#[trigger] w.actors@[k]).item is Some
                                && w.actors@[k].name is Some && w.actors@[k].position == Some(
                                my_pos,
                            )),
                    },
                decreases w.actors@.len() - j,
            {
                if found.is_none() {
                    let mut hit = false;
                    {
                        let a = &w.actors[j];
                        if a.item.is_some() && a.name.is_some() {
                            if let Some(q) = &a.position {
                                if q.x == my_pos.x && q.y == my_pos.y {
                                    hit = true;
                                }
                            }
                        }
                    }
                    if hit {
                        proof {
                            assert(first_item_at(w.actors@, my_pos, j as int) == Some(
                                j as int,
                            ));
                        }
                        found = Some(j);
                    } else {
                        proof {
                            assert(first_item_at(w.actors@, my_pos, j as int)
                                == first_item_at(w.actors@, my_pos, j as int + 1));
                        }
                    }
                }
                j = j + 1;
            }
            match found {
                Some(item_idx) => {
                    let item_name = match &w.actors[item_idx].name {
                        Some(n) => n.clone(),
                        None => Name::new(""),
                    };
                    proof {
                        reveal_strlit("");
                        assert(""@ =~= Seq::<char>::empty());
                        assert(item_name.0@ == crate::resolve::name_view(
                            w.actors@[item_idx as int],
                        ));
                    }
                    if inv_len >= INVENTORY_CAPACITY {
                        w.messages.push(
                            Msg::InventoryFull { name: item_name.0 },
                            Color::Red,
                        );
                        let a = &mut w.actors[i];
                        if let Some(e) = &mut a.energy {
                            if e.can_act() {
                                e.consume(1);
                            }
                        }
                        proof {
                            if energy_val(spre[i as int]) > 0 {
                                assert(w.actors@ =~= spre.update(
                                    i as int,
                                    Actor {
                                        energy: Some(
                                            crate::energy::Energy(
                                                (energy_val(spre[i as int]) - 1) as i32,
                                            ),
                                        ),
                                        ..spre[i as int]
                                    },
                                ));
                            } else {
                                assert(w.actors@ =~= spre);
                            }
                        }
                    } else {
                        let mut can = false;
                        {
                            let a = &mut w.actors[i];
                            if let Some(e) = &mut a.energy {
                                if e.can_act() {
                                    can = e.consume(1);
                                }
                            }
                        }
                        if can {
                            w.actors[item_idx].position = None;
                            w.messages.push(
                                Msg::PickedUp { name: item_name.0 },
                                Color::Green,
                            );
                            let a = &mut w.actors[i];
                            if let Some(inv) = &mut a.inventory {
                                inv.0.push(item_idx);
                            }
                        } else {
                            proof {
                                assert(w.actors@ =~= spre);
                            }
                        }
                    }
                },
                None => {},
            }
        }
        proof {
            assert forall|a: int|
                #[trigger] pick_attempting(s0, a) && (forall|k: int|
                    k != a ==> !pick_attempting(s0, k)) implies ({
                if i as int + 1 <= a {
                    w.actors@ == s0 && crate::resources::log_view(w.messages.inner@) == base
                } else {
                    pick_sole_outcome(
                        s0,
                        a,
                        base,
                        limit,
                        w.actors@,
                        crate::resources::log_view(w.messages.inner@),
                    )
                }
            }) by {
                if i as int + 1 <= a {
                    assert(!pick_attempting(s0, i as int));
                    assert(w.actors@ == spre && spre == s0);
                } else if a < i as int {
                    assert(!pick_attempting(s0, i as int));
                    if pick_attempting(spre, i as int) {
                        assert(pick_ready(spre[i as int]));
                    }
                } else {
                    assert(a == i as int);
                    assert(spre == s0 && logpre == base);
                }
            }
        }
        i = i + 1;
    }
}

/// An actor the drop stage acts for.
pub open spec fn drop_ready(a: Actor) -> bool {
    &&& a.action is Some
    &&& a.action.unwrap() is Drop
    &&& a.inventory is Some
    &&& a.energy is Some
}

/// An actor the drop stage will act for: ready and standing somewhere.
pub open spec fn drop_attempting(s: Seq<Actor>, i: int) -> bool {
    &&& 0 <= i < s.len()
    &&& drop_ready(s[i])
    &&& s[i].position is Some
}

/// The exact outcome of a pass in which `i` is the only attempting
/// dropper, stated against the starting store `s` and log `base`: a
/// valid index pays one energy, takes the handle out of the inventory
/// (order preserved), places the dropped item's row on the dropper's
/// tile, and reports the drop; an invalid index, or no energy, changes
/// nothing at all.
pub open spec fn drop_sole_outcome(
    s: Seq<Actor>,
    i: int,
    base: Seq<(crate::resources::MsgV, Color)>,
    limit: int,
    s2: Seq<Actor>,
    log2: Seq<(crate::resources::MsgV, Color)>,
) -> bool {
    let inv = s[i].inventory.unwrap().0@;
    let idx = s[i].action.unwrap()->Drop_inventory_index as int;
    if idx >= inv.len() {
        s2 == s && log2 == base
    } else if energy_val(s[i]) > 0 {
        let h = inv[idx] as int;
        &&& energy_val(s2[i]) == energy_val(s[i]) - 1
        &&& s2[i].inventory is Some
        &&& s2[i].inventory.unwrap().0@ == inv.remove(idx)
        &&& s2[i] == (Actor { energy: s2[i].energy, inventory: s2[i].inventory, ..s[i] })
        &&& (0 <= h < s.len() && h != i ==> s2[h] == (Actor {
            position: s[i].position,
            ..s[h]
        }))
        &&& (forall|k: int| 0 <= k < s.len() && k != i && k != h ==> s2[k] == s[k])
        &&& log2 == crate::resources::push_view(
            base,
            limit,
            (
                crate::resources::MsgV::Dropped {
                    name: if 0 <= h < s.len() {
                        crate::resolve::name_view(s[h])
                    } else {
                        Seq::empty()
                    },
                },
                Color::Yellow,
            ),
        )
    } else {
        s2 == s && log2 == base
    }
}

/// The drop stage: a valid inventory index puts the referenced item back
/// on the dropper's tile for one energy; an invalid index degrades to a
/// no-op for this tick.
pub fn drop_system(w: &mut GameWorld)
    requires
        world_wf(old(w)),
    ensures
        world_wf(final(w)),
        final(w).actors@.len() == old(w).actors@.len(),
        forall|i: int|
            0 <= i < old(w).actors@.len() ==> same_but_carry(
                #[trigger] old(w).actors@[i],
                final(w).actors@[i],
            ),
        forall|i: int|
            0 <= i < old(w).actors@.len() && !(drop_ready(#[trigger] old(w).actors@[i])
                && energy_val(old(w).actors@[i]) > 0
                && old(w).actors@[i].action.unwrap()->Drop_inventory_index < old(w).actors@[i].inventory.unwrap().0@.len() && old(w).actors@[i].position is Some)
                ==> final(w).actors@[i].energy == old(w).actors@[i].energy && final(w).actors@[i].inventory == old(w).actors@[i].inventory,
        forall|i: int|
            0 <= i < old(w).actors@.len() && drop_ready(#[trigger] old(w).actors@[i])
                && energy_val(old(w).actors@[i]) > 0
                && old(w).actors@[i].action.unwrap()->Drop_inventory_index < old(w).actors@[i].inventory.unwrap().0@.len() && old(w).actors@[i].position is Some
                ==> ({
                let idx = old(w).actors@[i].action.unwrap()->Drop_inventory_index as int;
                &&& energy_val(final(w).actors@[i]) == energy_val(old(w).actors@[i]) - 1
                &&& final(w).actors@[i].inventory.unwrap().0@ == old(w).actors@[i].inventory.unwrap().0@.remove(idx)
            }),
        forall|j: int|
            0 <= j < old(w).actors@.len() && old(w).actors@[j].item is Some && final(w).actors@[j].position != old(w).actors@[j].position ==> (#[trigger] final(w).actors@[j]).position is Some,
        forall|i: int|
            #[trigger] drop_attempting(old(w).actors@, i) && (forall|k: int|
                k != i ==> !drop_attempting(old(w).actors@, k)) ==> drop_sole_outcome(
                old(w).actors@,
                i,
                crate::resources::log_view(old(w).messages.inner@),
                old(w).messages.limit as int,
                final(w).actors@,
                crate::resources::log_view(final(w).messages.inner@),
            ),
        final(w).map == old(w).map,
        final(w).messages.limit == old(w).messages.limit,
        final(w).state == old(w).state,
        final(w).input == old(w).input,
        final(w).menu == old(w).menu,
        final(w).targeting == old(w).targeting,
{
    let ghost s0 = w.actors@;
    let ghost base = crate::resources::log_view(old(w).messages.inner@);
    let ghost limit = old(w).messages.limit as int;
    let mut i: usize = 0;
    while i < w.actors.len()
        invariant
            world_wf(w),
            i <= s0.len(),
            w.actors@.len() == s0.len(),
            w.map == old(w).map,
            w.messages.limit == old(w).messages.limit,
            w.state == old(w).state,
            w.input == old(w).input,
            w.menu == old(w).menu,
            w.targeting == old(w).targeting,
            base == crate::resources::log_view(old(w).messages.inner@),
            limit == old(w).messages.limit as int,
            forall|j: int|
                0 <= j < s0.len() ==> same_but_carry(#[trigger] s0[j], w.actors@[j]),
            forall|j: int|
                i <= j < s0.len() ==> ({
                    &&& (#[trigger] w.actors@[j]).energy == s0[j].energy
                    &&& w.actors@[j].inventory == s0[j].inventory
                }),
            forall|j: int|
                0 <= j < s0.len() && s0[j].item is Some && w.actors@[j].position != s0[
                    j].position ==> w.actors@[j].position is Some,
            forall|j: int|
                0 <= j < i && !(drop_ready(#[trigger] s0[j]) && energy_val(s0[j]) > 0
                    && s0[j].action.unwrap()->Drop_inventory_index < s0[
                    j].inventory.unwrap().0@.len() && s0[j].position is Some)
                    ==> w.actors@[j].energy == s0[j].energy && w.actors@[j].inventory == s0[
                    j].inventory,
            forall|j: int|
                0 <= j < i && drop_ready(#[trigger] s0[j]) && energy_val(s0[j]) > 0
                    && s0[j].action.unwrap()->Drop_inventory_index < s0[
                    j].inventory.unwrap().0@.len() && s0[j].position is Some ==> ({
                    let idx = s0[j].action.unwrap()->Drop_inventory_index as int;
                    &&& energy_val(w.actors@[j]) == energy_val(s0[j]) - 1
                    &&& w.actors@[j].inventory.unwrap().0@ == s0[
                        j].inventory.unwrap().0@.remove(idx)
                }),
            forall|a: int|
                #[trigger] drop_attempting(s0, a) && (forall|k: int|
                    k != a ==> !drop_attempting(s0, k)) ==> ({
                    if i <= a {
                        w.actors@ == s0 && crate::resources::log_view(w.messages.inner@)
                            == base
                    } else {
                        drop_sole_outcome(
                            s0,
                            a,
                            base,
                            limit,
                            w.actors@,
                            crate::resources::log_view(w.messages.inner@),
                        )
                    }
                }),
        decreases s0.len() - i,
    {
        let ghost spre = w.actors@;
        let ghost logpre = crate::resources::log_view(w.messages.inner@);
        let mut ready = false;
        let mut my_pos = crate::position::Position { x: 0, y: 0 };
        let mut idx: usize = 0;
        {
            let a = &w.actors[i];
            if a.inventory.is_some() && a.energy.is_some() && a.position.is_some() {
                if let Some(Action::Drop { inventory_index }) = &a.action {
                    ready = true;
                    idx = *inventory_index;
                    my_pos = match &a.position {
                        Some(p) => *p,
                        None => my_pos,
                    };
                }
            }
        }
        if ready {
            let mut handle: Option<usize> = None;
            {
                let a = &w.actors[i];
                if let Some(inv) = &a.inventory {
                    if idx < inv.0.len() {
                        handle = Some(inv.0[idx]);
                    }
                }
            }
            if let Some(h) = handle {
                let mut can = false;
                {
                    let a = &mut w.actors[i];
                    if let Some(e) = &mut a.energy {
                        if e.can_act() {
                            can = e.consume(1);
                        }
                    }
                }
                if can {
                    w.actors[h].position = Some(my_pos);
                    {
                        let a = &mut w.actors[i];
                        if let Some(inv) = &mut a.inventory {
                            inv.0.remove(idx);
                        }
                    }
                    let item_name = match &w.actors[h].name {
                        Some(n) => n.clone(),
                        None => Name::new(""),
                    };
                    proof {
                        reveal_strlit("");
                        assert(""@ =~= Seq::<char>::empty());
                        assert(item_name.0@ == crate::resolve::name_view(spre[h as int]));
                    }
                    w.messages.push(Msg::Dropped { name: item_name.0 }, Color::Yellow);
                } else {
                    proof {
                        assert(w.actors@ =~= spre);
                    }
                }
            }
        }
        proof {
            assert forall|a: int|
                #[trigger] drop_attempting(s0, a) && (forall|k: int|
                    k != a ==> !drop_attempting(s0, k)) implies ({
                if i as int + 1 <= a {
                    w.actors@ == s0 && crate::resources::log_view(w.messages.inner@) == base
                } else {
                    drop_sole_outcome(
                        s0,
                        a,
                        base,
                        limit,
                        w.actors@,
                        crate::resources::log_view(w.messages.inner@),
                    )
                }
            }) by {
                if i as int + 1 <= a {
                    assert(!drop_attempting(s0, i as int));
                    assert(w.actors@ == spre && spre == s0);
                } else if a < i as int {
                    assert(!drop_attempting(s0, i as int));
                } else {
                    assert(a == i as int);
                    assert(spre == s0 && logpre == base);
                    let inv = s0[a].inventory.unwrap().0@;
                    let idxs = s0[a].action.unwrap()->Drop_inventory_index as int;
                    assert(idxs == idx as int);
                    if idxs < inv.len() {
                        let h = inv[idxs] as int;
                        if energy_val(s0[a]) > 0 {
                            assert(0 <= h < s0.len() && h != a);
                            assert(w.actors@[a].inventory is Some
                                && w.actors@[a].inventory.unwrap().0@ == inv.remove(idxs));
                        } else {
                            assert(w.actors@ =~= s0);
                        }
                    } else {
                        assert(w.actors@ == s0);
                    }
                }
            }
        }
        i = i + 1;
    }
}


} // verus!
