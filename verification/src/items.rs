//! Item use: dispatching an inventory entry to its effect — healing,
//! lightning, and the two targeted effects that suspend until a target
//! arrives — and the completion of a suspended targeting.

use crate::action::Action;
use crate::components::{Ai, Color, Item, Living, Name};
use crate::position::Position;
use crate::resources::{Msg, Targeting, TargetingKind};
use crate::world::{
    energy_val, position_bounded, world_wf, Actor, Fov, GameWorld, spec_in_fov,
};
use vstd::prelude::*;

verus! {

/// What one item use attempt came to.
#[derive(Debug, Clone, Copy, PartialEq, Eq, Structural)]
pub enum UseResult {
    UsedUp,
    Cancelled,
    NotEnoughEnergy,
    Targeting,
}

pub const HEAL_AMOUNT: i32 = 4;

pub const LIGHTNING_RANGE: i32 = 5;

pub const LIGHTNING_DAMAGE: i32 = 20;

pub const CONFUSE_RANGE: i32 = 8;

pub const CONFUSE_NUM_TURNS: i32 = 10;

pub const FIREBALL_RADIUS: i32 = 3;

pub const FIREBALL_DAMAGE: i32 = 12;

/// Heal by the given amount, without going over the maximum.
pub fn heal(living: &mut Living, amount: i32)
    requires
        0 <= amount,
        old(living).hp + amount <= i32::MAX,
    ensures
        *final(living) == (Living {
            alive: old(living).alive,
            max_hp: old(living).max_hp,
            hp: (if old(living).hp + amount <= old(living).max_hp {
                old(living).hp + amount
            } else {
                old(living).max_hp as int
            }) as i32,
            defense: old(living).defense,
        }),
{
    let healed = living.hp + amount;
    living.hp = if living.max_hp < healed {
        living.max_hp
    } else {
        healed
    };
}

/// The frame of the item stages on rows that are not item rows: only the
/// accumulator, the hit points, and the carried inventory may change.
pub open spec fn same_but_use(a: Actor, b: Actor) -> bool {
    &&& b.position == a.position
    &&& b.prev_position == a.prev_position
    &&& b.velocity == a.velocity
    &&& b.power == a.power
    &&& b.player == a.player
    &&& b.ai == a.ai
    &&& b.collider == a.collider
    &&& b.item == a.item
    &&& b.name == a.name
    &&& b.visual == a.visual
    &&& b.action == a.action
    &&& (b.energy is Some <==> a.energy is Some)
    &&& (b.inventory is Some <==> a.inventory is Some)
    &&& (b.living is Some <==> a.living is Some)
    &&& (a.living is Some ==> {
        &&& b.living.unwrap().alive == a.living.unwrap().alive
        &&& b.living.unwrap().max_hp == a.living.unwrap().max_hp
        &&& b.living.unwrap().defense == a.living.unwrap().defense
    })
}

/// An actor the use stage will act for.
pub open spec fn use_attempting(s: Seq<Actor>, i: int) -> bool {
    &&& 0 <= i < s.len()
    &&& s[i].inventory is Some
    &&& s[i].action is Some
    &&& s[i].action.unwrap() is UseFromInventory
}

/// The exact outcome of a pass in which `i` is the only using actor and
/// is the player, stated against the starting store `s`, log `base` and
/// continuation `tg0`. An invalid index is free; a non-item handle is
/// reported; healing and lightning resolve at once, spending the item;
/// confusion and fireball suspend into a targeting continuation.
pub open spec fn use_sole_outcome(
    s: Seq<Actor>,
    i: int,
    fov: &Fov,
    base: Seq<(crate::resources::MsgV, Color)>,
    limit: int,
    tg0: Option<Targeting>,
    s2: Seq<Actor>,
    log2: Seq<(crate::resources::MsgV, Color)>,
    tg2: Option<Targeting>,
) -> bool {
    let inv = s[i].inventory.unwrap().0@;
    let idx = s[i].action.unwrap()->UseFromInventory_inventory_index as int;
    if idx >= inv.len() {
        s2 == s && log2 == base && tg2 == tg0
    } else {
        let h = inv[idx] as int;
        if h >= s.len() || s[h].item is None {
            let nm = if h < s.len() {
                crate::resolve::name_view(s[h])
            } else {
                Seq::empty()
            };
            &&& s2 == s
            &&& tg2 == tg0
            &&& log2 == crate::resources::push_view(
                base,
                limit,
                (crate::resources::MsgV::CannotBeUsed { name: nm }, Color::White),
            )
        } else if s[i].living is Some && s[i].energy is Some {
            let l = s[i].living.unwrap();
            match s[h].item.unwrap() {
                Item::Heal => {
                    if l.hp == l.max_hp {
                        &&& s2 == s
                        &&& tg2 == tg0
                        &&& log2 == crate::resources::push_view(
                            crate::resources::push_view(
                                base,
                                limit,
                                (crate::resources::MsgV::AlreadyFullHealth, Color::Red),
                            ),
                            limit,
                            (crate::resources::MsgV::Cancelled, Color::White),
                        )
                    } else if energy_val(s[i]) > 0 {
                        &&& s2 == s.update(
                            i,
                            Actor {
                                living: Some(
                                    Living {
                                        alive: l.alive,
                                        max_hp: l.max_hp,
                                        hp: healed_hp(l) as i32,
                                        defense: l.defense,
                                    },
                                ),
                                energy: Some(
                                    crate::energy::Energy((energy_val(s[i]) - 1) as i32),
                                ),
                                inventory: s2[i].inventory,
                                ..s[i]
                            },
                        ).update(h, Actor::empty_spec())
                        &&& s2[i].inventory is Some
                        &&& s2[i].inventory.unwrap().0@ == inv.remove(idx)
                        &&& tg2 == tg0
                        &&& log2 == crate::resources::push_view(
                            base,
                            limit,
                            (crate::resources::MsgV::WoundsFeelBetter, Color::LightViolet),
                        )
                    } else {
                        s2 == s && log2 == base && tg2 == tg0
                    }
                },
                Item::Lightning => {
                    match spec_closest_monster(s, fov, LIGHTNING_RANGE as int) {
                        None => {
                            &&& s2 == s
                            &&& tg2 == tg0
                            &&& log2 == crate::resources::push_view(
                                crate::resources::push_view(
                                    base,
                                    limit,
                                    (crate::resources::MsgV::NoEnemyInRange, Color::Red),
                                ),
                                limit,
                                (crate::resources::MsgV::Cancelled, Color::White),
                            )
                        },
                        Some(t) => {
                            if energy_val(s[i]) > 0 {
                                &&& s2 == s.update(
                                    i,
                                    Actor {
                                        energy: Some(
                                            crate::energy::Energy(
                                                (energy_val(s[i]) - 1) as i32,
                                            ),
                                        ),
                                        inventory: s2[i].inventory,
                                        ..s[i]
                                    },
                                ).update(
                                    t,
                                    damaged_row(s[t], LIGHTNING_DAMAGE as int),
                                ).update(h, Actor::empty_spec())
                                &&& s2[i].inventory is Some
                                &&& s2[i].inventory.unwrap().0@ == inv.remove(idx)
                                &&& tg2 == tg0
                                &&& log2 == crate::resources::push_view(
                                    base,
                                    limit,
                                    (
                                        crate::resources::MsgV::LightningStrikes {
                                            name: crate::resolve::name_view(s[t]),
                                            damage: LIGHTNING_DAMAGE as int,
                                        },
                                        Color::LightBlue,
                                    ),
                                )
                            } else {
                                s2 == s && log2 == base && tg2 == tg0
                            }
                        },
                    }
                },
                Item::Confuse => {
                    &&& s2 == s
                    &&& tg2 == Some(
                        Targeting {
                            used_item: inv[idx],
                            kind: TargetingKind::Monster,
                            max_range: Some(CONFUSE_RANGE as i32),
                        },
                    )
                    &&& log2 == crate::resources::push_view(
                        base,
                        limit,
                        (crate::resources::MsgV::ChooseConfuseTarget, Color::Cyan),
                    )
                },
                Item::Fireball => {
                    &&& s2 == s
                    &&& tg2 == Some(
                        Targeting {
                            used_item: inv[idx],
                            kind: TargetingKind::Tile,
                            max_range: None,
                        },
                    )
                    &&& log2 == crate::resources::push_view(
                        base,
                        limit,
                        (crate::resources::MsgV::ChooseFireballTarget, Color::Cyan),
                    )
                },
            }
        } else {
            true
        }
    }
}

/// The item-use stage: each pending use dispatches on the referenced
/// item's kind. Healing and lightning complete at once (and consume the
/// player's energy); confusion and fireball suspend into a targeting
/// continuation; a used-up item leaves the inventory and its row is
/// freed. Failed preconditions degrade to a no-op for this tick. When a
/// single actor — the player — attempts a use, its outcome is exact.
#[verifier::rlimit(100)]
pub fn use_item_system(w: &mut GameWorld, fov: &Fov)
    requires
        world_wf(old(w)),
    ensures
        world_wf(final(w)),
        final(w).actors@.len() == old(w).actors@.len(),
        forall|i: int|
            0 <= i < old(w).actors@.len() ==> energy_val(#[trigger] final(w).actors@[i])
                <= energy_val(old(w).actors@[i]),
        forall|i: int|
            0 <= i < old(w).actors@.len() && old(w).actors@[i].item is None ==> same_but_use(
                #[trigger] old(w).actors@[i],
                final(w).actors@[i],
            ),
        forall|i: int|
            0 <= i < old(w).actors@.len() && old(w).actors@[i].item is Some ==> (
            #[trigger] final(w).actors@[i] == old(w).actors@[i] || final(w).actors@[i]
                == Actor::empty_spec()),
        forall|i: int|
            #[trigger] use_attempting(old(w).actors@, i) && old(w).actors@[i].player is Some
                && (forall|k: int| k != i ==> !use_attempting(old(w).actors@, k))
                ==> use_sole_outcome(
                old(w).actors@,
                i,
                fov,
                crate::resources::log_view(old(w).messages.inner@),
                old(w).messages.limit as int,
                old(w).targeting,
                final(w).actors@,
                crate::resources::log_view(final(w).messages.inner@),
                final(w).targeting,
            ),
        final(w).map == old(w).map,
        final(w).messages.limit == old(w).messages.limit,
        final(w).state == old(w).state,
        final(w).input == old(w).input,
        final(w).menu == old(w).menu,
{
    let ghost s0 = w.actors@;
    let ghost base = crate::resources::log_view(old(w).messages.inner@);
    let ghost limit = old(w).messages.limit as int;
    let ghost tg0 = old(w).targeting;
    let mut i: usize = 0;
    while i < w.actors.len()
        invariant
            world_wf(w),
            crate::world::actors_wf(s0),
            i <= s0.len(),
            w.actors@.len() == s0.len(),
            w.map == old(w).map,
            w.messages.limit == old(w).messages.limit,
            w.state == old(w).state,
            w.input == old(w).input,
            w.menu == old(w).menu,
            base == crate::resources::log_view(old(w).messages.inner@),
            limit == old(w).messages.limit as int,
            tg0 == old(w).targeting,
            forall|j: int|
                0 <= j < s0.len() ==> energy_val(#[trigger] w.actors@[j]) <= energy_val(s0[j]),
            forall|j: int|
                0 <= j < s0.len() && s0[j].item is None ==> same_but_use(
                    #[trigger] s0[j],
                    w.actors@[j],
                ),
            forall|j: int|
                0 <= j < s0.len() && s0[j].item is Some ==> (#[trigger] w.actors@[j] == s0[j]
                    || w.actors@[j] == Actor::empty_spec()),
            forall|a: int|
                #[trigger] use_attempting(s0, a) && s0[a].player is Some && (forall|k: int|
                    k != a ==> !use_attempting(s0, k)) ==> ({
                    if i <= a {
                        w.actors@ == s0 && crate::resources::log_view(w.messages.inner@)
                            == base && w.targeting == tg0
                    } else {
                        use_sole_outcome(
                            s0,
                            a,
                            fov,
                            base,
                            limit,
                            tg0,
                            w.actors@,
                            crate::resources::log_view(w.messages.inner@),
                            w.targeting,
                        )
                    }
                }),
        decreases s0.len() - i,
    {
        let ghost spre = w.actors@;
        let ghost logpre = crate::resources::log_view(w.messages.inner@);
        let ghost tgpre = w.targeting;
        let mut ready = false;
        let mut idx: usize = 0;
        {
            let a = &w.actors[i];
            if a.inventory.is_some() {
                if let Some(Action::UseFromInventory { inventory_index }) = &a.action {
                    ready = true;
                    idx = *inventory_index;
                }
            }
        }
        if ready {
            let mut handle: Option<usize> = None;
            {
                let a = &w.actors[i];
                if let Some(inv) = &a.inventory {
                    if idx < inv.0.len() {
                        handle = Some(inv.0[idx]);
                    }
                }
            }
            if handle.is_none() {
                proof {
                    assert forall|a: int|
                        #[trigger] use_attempting(s0, a) && s0[a].player is Some && (forall|k: int|
                    k != a ==> !use_attempting(s0, k)) && a == i as int implies use_sole_outcome(
                        s0,
                        a,
                        fov,
                        base,
                        limit,
                        tg0,
                        w.actors@,
                        crate::resources::log_view(w.messages.inner@),
                        w.targeting,
                    ) by {
                        assert(spre == s0 && logpre == base && tgpre == tg0);
                        assert(s0[a].action.unwrap()->UseFromInventory_inventory_index
                            == idx);
                        assert(idx >= s0[a].inventory.unwrap().0@.len());
                    }
                }
            }
            if let Some(item_entity) = handle {
                let kind: Option<Item> = if item_entity < w.actors.len() {
                    w.actors[item_entity].item
                } else {
                    None
                };
                match kind {
                    Some(item) => {
                        let result = match item {
                            Item::Heal => cast_heal(w),
                            Item::Lightning => cast_lightning(w, fov),
                            Item::Confuse => target_confuse(item_entity, w),
                            Item::Fireball => target_fireball(item_entity, w),
                        };
                        let ghost smid = w.actors@;
                        match result {
                            UseResult::UsedUp => {
                                // Destroy after use: the entry leaves the
                                // inventory and the item row is freed.
                                {
                                    let a = &mut w.actors[i];
                                    if let Some(inv) = &mut a.inventory {
                                        if idx < inv.0.len() {
                                            inv.0.remove(idx);
                                        }
                                    }
                                }
                                proof {
                                    crate::world::lemma_inv_wf_after_remove(
                                        smid,
                                        w.actors@,
                                        i as int,
                                        idx as int,
                                    );
                                }
                                if item_entity < w.actors.len() {
                                    let ghost smid2 = w.actors@;
                                    w.actors[item_entity] = Actor::empty();
                                    proof {
                                        crate::world::lemma_inv_wf_after_delete(
                                            smid2,
                                            w.actors@,
                                            item_entity as int,
                                        );
                                    }
                                }
                            },
                            UseResult::Cancelled => {
                                w.messages.push(Msg::Cancelled, Color::White);
                            },
                            UseResult::Targeting => {},
                            UseResult::NotEnoughEnergy => {},
                        }
                        proof {
                            assert forall|a: int|
                                #[trigger] use_attempting(s0, a) && s0[a].player is Some && (forall|k: int|
                    k != a ==> !use_attempting(s0, k)) && a == i as int implies use_sole_outcome(
                                s0,
                                a,
                                fov,
                                base,
                                limit,
                                tg0,
                                w.actors@,
                                crate::resources::log_view(w.messages.inner@),
                                w.targeting,
                            ) by {
                                assert(spre == s0 && logpre == base && tgpre == tg0);
                                let inv = s0[a].inventory.unwrap().0@;
                                assert(idx < inv.len());
                                let h = inv[idx as int] as int;
                                assert(h == item_entity as int);
                                assert(h < s0.len() && s0[h].item is Some);
                                assert(h != a);
                                assert(s0[a].living is Some && s0[a].energy is Some);
                                match item {
                                    Item::Heal => {
                                        let l = s0[a].living.unwrap();
                                        if l.hp == l.max_hp {
                                            assert(w.actors@ =~= s0);
                                        } else if energy_val(s0[a]) > 0 {
                                            assert(w.actors@[a].inventory is Some
                                                && w.actors@[a].inventory.unwrap().0@
                                                == inv.remove(idx as int));
                                            assert(w.actors@ =~= s0.update(
                                                a,
                                                Actor {
                                                    living: Some(
                                                        Living {
                                                            alive: l.alive,
                                                            max_hp: l.max_hp,
                                                            hp: healed_hp(l) as i32,
                                                            defense: l.defense,
                                                        },
                                                    ),
                                                    energy: Some(
                                                        crate::energy::Energy(
                                                            (energy_val(s0[a]) - 1) as i32,
                                                        ),
                                                    ),
                                                    inventory: w.actors@[a].inventory,
                                                    ..s0[a]
                                                },
                                            ).update(h, Actor::empty_spec()));
                                        } else {
                                            assert(w.actors@ =~= s0);
                                        }
                                    },
                                    Item::Lightning => {
                                        match spec_closest_monster(
                                            s0,
                                            fov,
                                            LIGHTNING_RANGE as int,
                                        ) {
                                            None => {
                                                assert(w.actors@ =~= s0);
                                            },
                                            Some(t) => {
                                                let pc = choose|pc: int|
                                                    0 <= pc < s0.len() && (#[trigger] s0[
                                                        pc].player) is Some && s0[pc].position
                                                        is Some;
                                                lemma_closest_scan_props(
                                                    s0,
                                                    fov,
                                                    s0[pc].position.unwrap(),
                                                    0,
                                                    None,
                                                    (LIGHTNING_RANGE as int + 1) * (
                                                    LIGHTNING_RANGE as int + 1),
                                                );
                                                assert(s0[t].player is None
                                                    && s0[t].living is Some);
                                                assert(t != a && t != h);
                                                if energy_val(s0[a]) > 0 {
                                                    assert(w.actors@[a].inventory is Some
                                                        && w.actors@[a].inventory.unwrap().0@
                                                        == inv.remove(idx as int));
                                                    assert(w.actors@ =~= s0.update(
                                                        a,
                                                        Actor {
                                                            energy: Some(
                                                                crate::energy::Energy(
                                                                    (energy_val(s0[a])
                                                                        - 1) as i32,
                                                                ),
                                                            ),
                                                            inventory: w.actors@[a].inventory,
                                                            ..s0[a]
                                                        },
                                                    ).update(
                                                        t,
                                                        damaged_row(
                                                            s0[t],
                                                            LIGHTNING_DAMAGE as int,
                                                        ),
                                                    ).update(h, Actor::empty_spec()));
                                                } else {
                                                    assert(w.actors@ =~= s0);
                                                }
                                            },
                                        }
                                    },
                                    Item::Confuse => {
                                        assert(w.actors@ =~= s0);
                                    },
                                    Item::Fireball => {
                                        assert(w.actors@ =~= s0);
                                    },
                                }
                            }
                        }
                    },
                    None => {
                        let item_name = if item_entity < w.actors.len() {
                            match &w.actors[item_entity].name {
                                Some(n) => n.clone(),
                                None => Name::new(""),
                            }
                        } else {
                            Name::new("")
                        };
                        proof {
                            reveal_strlit("");
                            assert(""@ =~= Seq::<char>::empty());
                        }
                        w.messages.push(
                            Msg::CannotBeUsed { name: item_name.0 },
                            Color::White,
                        );
                        proof {
                            assert forall|a: int|
                                #[trigger] use_attempting(s0, a) && s0[a].player is Some && (forall|k: int|
                    k != a ==> !use_attempting(s0, k)) && a == i as int implies use_sole_outcome(
                                s0,
                                a,
                                fov,
                                base,
                                limit,
                                tg0,
                                w.actors@,
                                crate::resources::log_view(w.messages.inner@),
                                w.targeting,
                            ) by {
                                assert(spre == s0 && logpre == base && tgpre == tg0);
                                let inv = s0[a].inventory.unwrap().0@;
                                assert(idx < inv.len());
                                assert(inv[idx as int] == item_entity);
                                let h = inv[idx as int] as int;
                                assert(h == item_entity as int);
                                assert(h >= s0.len() || s0[h].item is None);
                                assert(w.actors@ == s0);
                                assert(item_name.0@ == (if h < s0.len() {
                                    crate::resolve::name_view(s0[h])
                                } else {
                                    Seq::<char>::empty()
                                }));
                            }
                        }
                    },
                }
            }
        }
        proof {
            assert forall|a: int|
                #[trigger] use_attempting(s0, a) && s0[a].player is Some && (forall|k: int|
                    k != a ==> !use_attempting(s0, k)) implies ({
                if i as int + 1 <= a {
                    w.actors@ == s0 && crate::resources::log_view(w.messages.inner@) == base
                        && w.targeting == tg0
                } else {
                    use_sole_outcome(
                        s0,
                        a,
                        fov,
                        base,
                        limit,
                        tg0,
                        w.actors@,
                        crate::resources::log_view(w.messages.inner@),
                        w.targeting,
                    )
                }
            }) by {
                if i as int + 1 <= a {
                    assert(!use_attempting(s0, i as int));
                    assert(w.actors@ == spre && spre == s0);
                } else if a < i as int {
                    assert(!use_attempting(s0, i as int));
                    if ready {
                        assert(use_attempting(spre, i as int));
                        assert(spre[i as int].inventory is Some);
                        if spre[i as int] == s0[i as int] {
                            assert(use_attempting(s0, i as int));
                            assert(false);
                        } else {
                            assert(s0[i as int].item is Some);
                            assert(spre[i as int] == Actor::empty_spec());
                            assert(false);
                        }
                    }
                } else {
                    assert(a == i as int);
                }
            }
        }
        i = i + 1;
    }
}

/// The hit points a wounded player comes back to: four more, capped at
/// the maximum (and at the representation ceiling).
pub open spec fn healed_hp(l: Living) -> int {
    if l.hp > i32::MAX - HEAL_AMOUNT {
        l.hp as int
    } else if l.hp + HEAL_AMOUNT <= l.max_hp {
        l.hp + HEAL_AMOUNT
    } else {
        l.max_hp as int
    }
}

/// Heal the player: cancelled at full health, otherwise one energy buys
/// four hit points back, capped at the maximum. The effect is exact:
/// only the player's row and the log change, and each branch is pinned.
pub fn cast_heal(w: &mut GameWorld) -> (r: UseResult)
    requires
        world_wf(old(w)),
    ensures
        world_wf(final(w)),
        final(w).actors@.len() == old(w).actors@.len(),
        forall|i: int|
            0 <= i < old(w).actors@.len() && (#[trigger] old(w).actors@[i]).item is Some
                ==> final(w).actors@[i] == old(w).actors@[i],
        forall|i: int|
            0 <= i < old(w).actors@.len() ==> energy_val(#[trigger] final(w).actors@[i])
                <= energy_val(old(w).actors@[i]),
        forall|i: int|
            0 <= i < old(w).actors@.len() ==> same_but_use(
                #[trigger] old(w).actors@[i],
                final(w).actors@[i],
            ) && final(w).actors@[i].inventory == old(w).actors@[i].inventory,
        forall|i: int|
            0 <= i < old(w).actors@.len() && (#[trigger] old(w).actors@[i]).player is None
                ==> final(w).actors@[i] == old(w).actors@[i],
        forall|i: int|
            0 <= i < old(w).actors@.len() && (#[trigger] old(w).actors@[i]).player is Some
                && old(w).actors@[i].living is Some && old(w).actors@[i].energy is Some
                ==> ({
                let l = old(w).actors@[i].living.unwrap();
                let base = crate::resources::log_view(old(w).messages.inner@);
                let limit = old(w).messages.limit as int;
                let log2 = crate::resources::log_view(final(w).messages.inner@);
                if l.hp == l.max_hp {
                    &&& r == UseResult::Cancelled
                    &&& final(w).actors@[i] == old(w).actors@[i]
                    &&& log2 == crate::resources::push_view(
                        base,
                        limit,
                        (crate::resources::MsgV::AlreadyFullHealth, Color::Red),
                    )
                } else if energy_val(old(w).actors@[i]) > 0 {
                    &&& r == UseResult::UsedUp
                    &&& final(w).actors@[i] == (Actor {
                        energy: Some(
                            crate::energy::Energy(
                                (energy_val(old(w).actors@[i]) - 1) as i32,
                            ),
                        ),
                        living: Some(
                            Living {
                                alive: l.alive,
                                max_hp: l.max_hp,
                                hp: healed_hp(l) as i32,
                                defense: l.defense,
                            },
                        ),
                        ..old(w).actors@[i]
                    })
                    &&& log2 == crate::resources::push_view(
                        base,
                        limit,
                        (crate::resources::MsgV::WoundsFeelBetter, Color::LightViolet),
                    )
                } else {
                    &&& r == UseResult::NotEnoughEnergy
                    &&& final(w).actors@[i] == old(w).actors@[i]
                    &&& log2 == base
                }
            }),
        (forall|i: int|
            0 <= i < old(w).actors@.len() ==> !((#[trigger] old(w).actors@[i]).player is Some
                && old(w).actors@[i].living is Some && old(w).actors@[i].energy is Some))
            ==> *final(w) == *old(w) && r == UseResult::Cancelled,
        final(w).map == old(w).map,
        final(w).messages.limit == old(w).messages.limit,
        final(w).state == old(w).state,
        final(w).input == old(w).input,
        final(w).menu == old(w).menu,
        final(w).targeting == old(w).targeting,
{
    let player = match crate::world::find_player(&w.actors) {
        Some(p) => p,
        None => {
            return UseResult::Cancelled;
        },
    };
    let mut full = false;
    let mut has_parts = false;
    {
        let a = &w.actors[player];
        if a.living.is_some() && a.energy.is_some() {
            has_parts = true;
            if let Some(l) = &a.living {
                if l.hp == l.max_hp {
                    full = true;
                }
            }
        }
    }
    if !has_parts {
        return UseResult::Cancelled;
    }
    if full {
        w.messages.push(Msg::AlreadyFullHealth, Color::Red);
        return UseResult::Cancelled;
    }
    let mut can = false;
    {
        let a = &mut w.actors[player];
        if let Some(e) = &mut a.energy {
            if e.can_act() {
                can = e.consume(1);
            }
        }
    }
    if can {
        w.messages.push(Msg::WoundsFeelBetter, Color::LightViolet);
        let a = &mut w.actors[player];
        if let Some(l) = &mut a.living {
            if l.hp <= i32::MAX - HEAL_AMOUNT {
                heal(l, HEAL_AMOUNT);
            }
        }
        proof {
            crate::world::lemma_inv_wf_preserved(old(w).actors@, w.actors@);
        }
        UseResult::UsedUp
    } else {
        proof {
            crate::world::lemma_inv_wf_preserved(old(w).actors@, w.actors@);
        }
        UseResult::NotEnoughEnergy
    }
}

/// The squared distance between two positions, as integers.
pub open spec fn dist_sq(a: Position, b: Position) -> int {
    (b.x - a.x) * (b.x - a.x) + (b.y - a.y) * (b.y - a.y)
}

/// The scan for the closest visible hostile: walk the store in handle
/// order, keeping the strictly closest alive, visible, behaving
/// non-player actor seen so far.
pub open spec fn closest_scan(
    s: Seq<Actor>,
    fov: &Fov,
    pp: Position,
    j: int,
    best: Option<int>,
    bestd: int,
) -> Option<int>
    decreases s.len() - j,
{
    if j < 0 || j >= s.len() {
        best
    } else {
        let a = s[j];
        if a.living is Some && a.living.unwrap().alive && a.ai is Some && a.player is None
            && a.position is Some && spec_in_fov(
            fov,
            a.position.unwrap().x as int,
            a.position.unwrap().y as int,
        ) && dist_sq(pp, a.position.unwrap()) < bestd {
            closest_scan(s, fov, pp, j + 1, Some(j), dist_sq(pp, a.position.unwrap()))
        } else {
            closest_scan(s, fov, pp, j + 1, best, bestd)
        }
    }
}

/// Whatever the scan keeps is an alive, behaving, non-player row.
pub proof fn lemma_closest_scan_props(
    s: Seq<Actor>,
    fov: &Fov,
    pp: Position,
    j: int,
    best: Option<int>,
    bestd: int,
)
    requires
        best matches Some(b) ==> 0 <= b < s.len() && s[b].living is Some
            && s[b].living.unwrap().alive && s[b].ai is Some && s[b].player is None,
    ensures
        closest_scan(s, fov, pp, j, best, bestd) matches Some(t) ==> 0 <= t < s.len()
            && s[t].living is Some && s[t].living.unwrap().alive && s[t].ai is Some
            && s[t].player is None,
    decreases s.len() - j,
{
    if j < 0 || j >= s.len() {
    } else {
        let a = s[j];
        if a.living is Some && a.living.unwrap().alive && a.ai is Some && a.player is None
            && a.position is Some && spec_in_fov(
            fov,
            a.position.unwrap().x as int,
            a.position.unwrap().y as int,
        ) && dist_sq(pp, a.position.unwrap()) < bestd {
            lemma_closest_scan_props(s, fov, pp, j + 1, Some(j), dist_sq(
                pp,
                a.position.unwrap(),
            ));
        } else {
            lemma_closest_scan_props(s, fov, pp, j + 1, best, bestd);
        }
    }
}

/// What the whole search returns: nothing without a placed player,
/// else the scan from the range bound.
pub open spec fn spec_closest_monster(
    s: Seq<Actor>,
    fov: &Fov,
    max_range: int,
) -> Option<int> {
    if exists|p: int|
        0 <= p < s.len() && (#[trigger] s[p].player) is Some && s[p].position is Some {
        let p = choose|p: int|
            0 <= p < s.len() && (#[trigger] s[p].player) is Some && s[p].position is Some;
        closest_scan(s, fov, s[p].position.unwrap(), 0, None, (max_range + 1) * (max_range
            + 1))
    } else {
        None
    }
}

/// The closest alive hostile within `max_range` of the player that the
/// oracle can see; the player itself is never a target.
pub fn closest_monster(max_range: i32, w: &GameWorld, fov: &Fov) -> (r: Option<usize>)
    requires
        world_wf(w),
        0 <= max_range <= 1000,
    ensures
        match r {
            Some(t) => spec_closest_monster(w.actors@, fov, max_range as int) == Some(t as int),
            None => spec_closest_monster(w.actors@, fov, max_range as int) is None,
        },
        r matches Some(t) ==> t < w.actors@.len() && w.actors@[t as int].living is Some
            && w.actors@[t as int].living.unwrap().alive && w.actors@[t as int].ai is Some
            && w.actors@[t as int].player is None,
{
    let player_pos = match crate::world::find_player_position(&w.actors) {
        Some(p) => p,
        None => {
            return None;
        },
    };
    proof {
        let pc = choose|pc: int|
            0 <= pc < w.actors@.len() && (#[trigger] w.actors@[pc].player) is Some
                && w.actors@[pc].position is Some;
        assert(w.actors@[pc].position.unwrap() == player_pos);
    }
    let mut closest: Option<usize> = None;
    let m: i64 = max_range as i64 + 1;
    proof {
        assert(1 <= m <= 1001 ==> 0 <= m * m <= 0x10_0000) by (nonlinear_arith);
    }
    let limit: i64 = m * m;
    let mut closest_dist: i64 = limit;
    let mut j: usize = 0;
    while j < w.actors.len()
        invariant
            world_wf(w),
            j <= w.actors@.len(),
            position_bounded(player_pos),
            limit == (max_range as int + 1) * (max_range as int + 1),
            closest_scan(w.actors@, fov, player_pos, 0, None, limit as int) == closest_scan(
                w.actors@,
                fov,
                player_pos,
                j as int,
                match closest {
                    Some(t) => Some(t as int),
                    None => None,
                },
                closest_dist as int,
            ),
            match closest {
                Some(t) => t < w.actors@.len() && w.actors@[t as int].living is Some
                    && w.actors@[t as int].living.unwrap().alive && w.actors@[t as int].ai
                    is Some && w.actors@[t as int].player is None,
                None => true,
            },
        decreases w.actors@.len() - j,
    {
        let ghost best0 = match closest {
            Some(t) => Some(t as int),
            None => None,
        };
        let ghost d0 = closest_dist as int;
        let a = &w.actors[j];
        let mut alive = false;
        if let Some(l) = &a.living {
            alive = l.alive;
        }
        if alive && a.ai.is_some() && a.player.is_none() {
            if let Some(pos) = &w.actors[j].position {
                if fov.is_in_fov(pos.x, pos.y) {
                    let dist = player_pos.distance_sq(pos);
                    if dist < closest_dist {
                        closest = Some(j);
                        closest_dist = dist;
                    }
                }
            }
        }
        proof {
            assert(closest_scan(w.actors@, fov, player_pos, j as int, best0, d0)
                == closest_scan(
                w.actors@,
                fov,
                player_pos,
                j as int + 1,
                match closest {
                    Some(t) => Some(t as int),
                    None => None,
                },
                closest_dist as int,
            ));
        }
        j = j + 1;
    }
    closest
}

/// A row after taking flat damage, saturating at the representation
/// floor.
pub open spec fn damaged_row(a: Actor, dmg: int) -> Actor {
    let l = a.living.unwrap();
    Actor {
        living: Some(
            Living {
                alive: l.alive,
                max_hp: l.max_hp,
                hp: (if l.hp - dmg >= i32::MIN {
                    l.hp - dmg
                } else {
                    i32::MIN as int
                }) as i32,
                defense: l.defense,
            },
        ),
        ..a
    }
}

/// A lightning bolt: strike the closest visible monster within range for
/// twenty hit points, paying one energy; with no monster in range the use
/// is cancelled. The strike, its cost, and its report are exact.
pub fn cast_lightning(w: &mut GameWorld, fov: &Fov) -> (r: UseResult)
    requires
        world_wf(old(w)),
    ensures
        world_wf(final(w)),
        final(w).actors@.len() == old(w).actors@.len(),
        forall|i: int|
            0 <= i < old(w).actors@.len() && (#[trigger] old(w).actors@[i]).item is Some
                ==> final(w).actors@[i] == old(w).actors@[i],
        forall|i: int|
            0 <= i < old(w).actors@.len() ==> energy_val(#[trigger] final(w).actors@[i])
                <= energy_val(old(w).actors@[i]),
        forall|i: int|
            0 <= i < old(w).actors@.len() ==> same_but_use(
                #[trigger] old(w).actors@[i],
                final(w).actors@[i],
            ) && final(w).actors@[i].inventory == old(w).actors@[i].inventory,
        spec_closest_monster(old(w).actors@, fov, LIGHTNING_RANGE as int) is None ==> ({
            &&& r == UseResult::Cancelled
            &&& final(w).actors@ == old(w).actors@
            &&& crate::resources::log_view(final(w).messages.inner@)
                == crate::resources::push_view(
                crate::resources::log_view(old(w).messages.inner@),
                old(w).messages.limit as int,
                (crate::resources::MsgV::NoEnemyInRange, Color::Red),
            )
        }),
        spec_closest_monster(old(w).actors@, fov, LIGHTNING_RANGE as int) is Some
            ==> (forall|p: int|
            0 <= p < old(w).actors@.len() && (#[trigger] old(w).actors@[p]).player is Some
                && old(w).actors@[p].energy is Some ==> ({
                let s = old(w).actors@;
                let t = spec_closest_monster(s, fov, LIGHTNING_RANGE as int).unwrap();
                if energy_val(s[p]) > 0 {
                    &&& r == UseResult::UsedUp
                    &&& final(w).actors@[p] == (Actor {
                        energy: Some(
                            crate::energy::Energy((energy_val(s[p]) - 1) as i32),
                        ),
                        ..s[p]
                    })
                    &&& final(w).actors@[t] == damaged_row(s[t], LIGHTNING_DAMAGE as int)
                    &&& (forall|k: int|
                        0 <= k < s.len() && k != p && k != t
                            ==> #[trigger] final(w).actors@[k] == s[k])
                    &&& crate::resources::log_view(final(w).messages.inner@)
                        == crate::resources::push_view(
                        crate::resources::log_view(old(w).messages.inner@),
                        old(w).messages.limit as int,
                        (
                            crate::resources::MsgV::LightningStrikes {
                                name: crate::resolve::name_view(s[t]),
                                damage: LIGHTNING_DAMAGE as int,
                            },
                            Color::LightBlue,
                        ),
                    )
                } else {
                    &&& r == UseResult::NotEnoughEnergy
                    &&& final(w).actors@ == old(w).actors@
                    &&& final(w).messages == old(w).messages
                }
            })),
        final(w).map == old(w).map,
        final(w).messages.limit == old(w).messages.limit,
        final(w).state == old(w).state,
        final(w).input == old(w).input,
        final(w).menu == old(w).menu,
        final(w).targeting == old(w).targeting,
{
    let monster = match closest_monster(LIGHTNING_RANGE, w, fov) {
        Some(m) => m,
        None => {
            w.messages.push(Msg::NoEnemyInRange, Color::Red);
            return UseResult::Cancelled;
        },
    };
    let player = match crate::world::find_player(&w.actors) {
        Some(p) => p,
        None => {
            return UseResult::Cancelled;
        },
    };
    let mut can = false;
    {
        let a = &mut w.actors[player];
        if let Some(e) = &mut a.energy {
            if e.can_act() {
                can = e.consume(1);
            }
        }
    }
    if can {
        let monster_name = match &w.actors[monster].name {
            Some(n) => n.clone(),
            None => Name::new(""),
        };
        proof {
            reveal_strlit("");
            assert(""@ =~= Seq::<char>::empty());
            assert(monster_name.0@ == crate::resolve::name_view(old(w).actors@[
                monster as int]));
        }
        w.messages.push(
            Msg::LightningStrikes { name: monster_name.0, damage: LIGHTNING_DAMAGE as i64 },
            Color::LightBlue,
        );
        let a = &mut w.actors[monster];
        if let Some(l) = &mut a.living {
            if l.hp >= i32::MIN + LIGHTNING_DAMAGE {
                l.hp = l.hp - LIGHTNING_DAMAGE;
            } else {
                l.hp = i32::MIN;
            }
        }
        proof {
            crate::world::lemma_inv_wf_preserved(old(w).actors@, w.actors@);
            assert forall|p: int|
                0 <= p < old(w).actors@.len() && (#[trigger] old(w).actors@[p]).player
                    is Some && old(w).actors@[p].energy is Some implies p
                == player as int by {}
            assert(w.actors@ =~= old(w).actors@.update(
                player as int,
                Actor {
                    energy: Some(
                        crate::energy::Energy(
                            (energy_val(old(w).actors@[player as int]) - 1) as i32,
                        ),
                    ),
                    ..old(w).actors@[player as int]
                },
            ).update(
                monster as int,
                damaged_row(old(w).actors@[monster as int], LIGHTNING_DAMAGE as int),
            ));
        }
        UseResult::UsedUp
    } else {
        proof {
            crate::world::lemma_inv_wf_preserved(old(w).actors@, w.actors@);
            assert(w.actors@ =~= old(w).actors@);
            assert forall|p: int|
                0 <= p < old(w).actors@.len() && (#[trigger] old(w).actors@[p]).player
                    is Some && old(w).actors@[p].energy is Some implies p
                == player as int by {}
        }
        UseResult::NotEnoughEnergy
    }
}

/// Suspend a confusion scroll into a monster-targeting continuation.
pub fn target_confuse(item_entity: usize, w: &mut GameWorld) -> (r: UseResult)
    requires
        world_wf(old(w)),
    ensures
        world_wf(final(w)),
        r == UseResult::Targeting,
        final(w).actors == old(w).actors,
        final(w).targeting == Some(
            Targeting {
                used_item: item_entity,
                kind: TargetingKind::Monster,
                max_range: Some(CONFUSE_RANGE as i32),
            },
        ),
        crate::resources::log_view(final(w).messages.inner@) == crate::resources::push_view(
            crate::resources::log_view(old(w).messages.inner@),
            old(w).messages.limit as int,
            (crate::resources::MsgV::ChooseConfuseTarget, Color::Cyan),
        ),
        final(w).map == old(w).map,
        final(w).messages.limit == old(w).messages.limit,
        final(w).state == old(w).state,
        final(w).input == old(w).input,
        final(w).menu == old(w).menu,
{
    w.targeting = Some(
        Targeting {
            used_item: item_entity,
            kind: TargetingKind::Monster,
            max_range: Some(CONFUSE_RANGE),
        },
    );
    w.messages.push(Msg::ChooseConfuseTarget, Color::Cyan);
    UseResult::Targeting
}

/// Suspend a fireball scroll into a tile-targeting continuation.
pub fn target_fireball(item_entity: usize, w: &mut GameWorld) -> (r: UseResult)
    requires
        world_wf(old(w)),
    ensures
        world_wf(final(w)),
        r == UseResult::Targeting,
        final(w).actors == old(w).actors,
        final(w).targeting == Some(
            Targeting { used_item: item_entity, kind: TargetingKind::Tile, max_range: None },
        ),
        crate::resources::log_view(final(w).messages.inner@) == crate::resources::push_view(
            crate::resources::log_view(old(w).messages.inner@),
            old(w).messages.limit as int,
            (crate::resources::MsgV::ChooseFireballTarget, Color::Cyan),
        ),
        final(w).map == old(w).map,
        final(w).messages.limit == old(w).messages.limit,
        final(w).state == old(w).state,
        final(w).input == old(w).input,
        final(w).menu == old(w).menu,
{
    w.targeting = Some(
        Targeting { used_item: item_entity, kind: TargetingKind::Tile, max_range: None },
    );
    w.messages.push(Msg::ChooseFireballTarget, Color::Cyan);
    UseResult::Targeting
}

/// The first alive behaving actor standing on `p`, scanning the store in
/// handle order from `from`.
pub open spec fn first_confusable(s: Seq<Actor>, p: Position, from: int) -> Option<int>
    decreases s.len() - from,
{
    if from < 0 || from >= s.len() {
        None
    } else if s[from].position == Some(p) && s[from].ai is Some && s[from].living is Some
        && s[from].living.unwrap().alive {
        Some(from)
    } else {
        first_confusable(s, p, from + 1)
    }
}

/// Whatever the occupant scan finds is a placed, alive, behaving row.
pub proof fn lemma_first_confusable_bounds(s: Seq<Actor>, p: Position, from: int)
    ensures
        first_confusable(s, p, from) matches Some(t) ==> from <= t < s.len() && s[t].ai
            is Some && s[t].position == Some(p) && s[t].living is Some
            && s[t].living.unwrap().alive,
    decreases s.len() - from,
{
    if from < 0 || from >= s.len() {
    } else if s[from].position == Some(p) && s[from].ai is Some && s[from].living is Some
        && s[from].living.unwrap().alive {
    } else {
        lemma_first_confusable_bounds(s, p, from + 1);
    }
}

/// Confuse the alive monster standing on `position`: its current behavior
/// is boxed up as the one to restore, and it stumbles for ten turns. The
/// installation, its report, and the untouched rest are exact.
pub fn cast_confuse(position: &Position, w: &mut GameWorld) -> (r: UseResult)
    requires
        world_wf(old(w)),
    ensures
        world_wf(final(w)),
        final(w).actors@.len() == old(w).actors@.len(),
        forall|i: int|
            0 <= i < old(w).actors@.len() && (#[trigger] old(w).actors@[i]).item is Some
                ==> final(w).actors@[i] == old(w).actors@[i],
        forall|i: int|
            0 <= i < old(w).actors@.len() ==> energy_val(#[trigger] final(w).actors@[i])
                == energy_val(old(w).actors@[i]),
        forall|i: int|
            0 <= i < old(w).actors@.len() ==> (#[trigger] final(w).actors@[i]).inventory
                == old(w).actors@[i].inventory && final(w).actors@[i].collider == old(w).actors@[i].collider,
        first_confusable(old(w).actors@, *position, 0) is None ==> ({
            &&& r == UseResult::Cancelled
            &&& final(w).actors@ == old(w).actors@
            &&& final(w).messages == old(w).messages
        }),
        first_confusable(old(w).actors@, *position, 0) matches Some(t) ==> ({
            let s = old(w).actors@;
            &&& r == UseResult::UsedUp
            &&& final(w).actors@[t].ai is Some
            &&& final(w).actors@[t].ai.unwrap() matches Ai::Confused { previous_ai, num_turns }
                && *previous_ai == s[t].ai.unwrap() && num_turns == CONFUSE_NUM_TURNS
            &&& final(w).actors@[t] == (Actor { ai: final(w).actors@[t].ai, ..s[t] })
            &&& (forall|k: int|
                0 <= k < s.len() && k != t ==> #[trigger] final(w).actors@[k] == s[k])
            &&& crate::resources::log_view(final(w).messages.inner@)
                == crate::resources::push_view(
                crate::resources::log_view(old(w).messages.inner@),
                old(w).messages.limit as int,
                (
                    crate::resources::MsgV::LooksVacant {
                        name: crate::resolve::name_view(s[t]),
                    },
                    Color::LightGreen,
                ),
            )
        }),
        final(w).map == old(w).map,
        final(w).messages.limit == old(w).messages.limit,
        final(w).state == old(w).state,
        final(w).input == old(w).input,
        final(w).menu == old(w).menu,
        final(w).targeting == old(w).targeting,
{
    let mut target: Option<usize> = None;
    let mut j: usize = 0;
    while j < w.actors.len()
        invariant
            j <= w.actors@.len(),
            match target {
                Some(t) => first_confusable(w.actors@, *position, 0) == Some(t as int) && t
                    < w.actors@.len() && w.actors@[t as int].ai is Some,
                None => first_confusable(w.actors@, *position, 0) == first_confusable(
                    w.actors@,
                    *position,
                    j as int,
                ),
            },
        decreases w.actors@.len() - j,
    {
        if target.is_none() {
            let mut hit = false;
            {
                let a = &w.actors[j];
                let mut alive = false;
                if let Some(l) = &a.living {
                    alive = l.alive;
                }
                if alive && a.ai.is_some() {
                    if let Some(q) = &a.position {
                        if q.x == position.x && q.y == position.y {
                            hit = true;
                        }
                    }
                }
            }
            if hit {
                proof {
                    assert(first_confusable(w.actors@, *position, j as int) == Some(
                        j as int,
                    ));
                }
                target = Some(j);
            } else {
                proof {
                    assert(first_confusable(w.actors@, *position, j as int)
                        == first_confusable(w.actors@, *position, j as int + 1));
                }
            }
        }
        j = j + 1;
    }
    match target {
        Some(t) => {
            let old_ai = match &w.actors[t].ai {
                Some(ai) => ai.clone(),
                None => Ai::Basic,
            };
            let monster_name = match &w.actors[t].name {
                Some(n) => n.clone(),
                None => Name::new(""),
            };
            proof {
                reveal_strlit("");
                assert(""@ =~= Seq::<char>::empty());
                assert(monster_name.0@ == crate::resolve::name_view(w.actors@[t as int]));
            }
            w.actors[t].ai = Some(
                Ai::Confused { previous_ai: Box::new(old_ai), num_turns: CONFUSE_NUM_TURNS },
            );
            proof {
                crate::world::lemma_inv_wf_preserved(old(w).actors@, w.actors@);
            }
            w.messages.push(
                Msg::LooksVacant { name: monster_name.0 },
                Color::LightGreen,
            );
            UseResult::UsedUp
        },
        None => UseResult::Cancelled,
    }
}

/// Whether the blast on `p` burns the row: alive and within the radius.
pub open spec fn fireball_hits(a: Actor, p: Position) -> bool {
    &&& a.living is Some
    &&& a.living.unwrap().alive
    &&& a.position is Some
    &&& dist_sq(p, a.position.unwrap()) <= FIREBALL_RADIUS as int * FIREBALL_RADIUS as int
}

/// The burn reports for the rows below `upto`, in handle order.
pub open spec fn burn_msgs(s: Seq<Actor>, p: Position, upto: int) -> Seq<
    (crate::resources::MsgV, Color),
>
    decreases upto,
{
    if upto <= 0 {
        Seq::empty()
    } else {
        burn_msgs(s, p, upto - 1) + (if 0 <= upto - 1 < s.len() && fireball_hits(
            s[upto - 1],
            p,
        ) {
            seq![
                (
                    crate::resources::MsgV::Burned {
                        name: crate::resolve::name_view(s[upto - 1]),
                        damage: FIREBALL_DAMAGE as int,
                    },
                    Color::Orange,
                ),
            ]
        } else {
            Seq::empty()
        })
    }
}

/// A fireball on `position`: everything alive within the blast radius,
/// the player included, is burned for twelve hit points; each burn is
/// reported in handle order after the blast announcement. The effect on
/// every row is exact.
#[verifier::rlimit(100)]
pub fn cast_fireball(position: &Position, w: &mut GameWorld) -> (r: UseResult)
    requires
        world_wf(old(w)),
        position_bounded(*position),
    ensures
        world_wf(final(w)),
        r == UseResult::UsedUp,
        final(w).actors@.len() == old(w).actors@.len(),
        forall|i: int|
            0 <= i < old(w).actors@.len() && (#[trigger] old(w).actors@[i]).item is Some
                ==> final(w).actors@[i] == old(w).actors@[i],
        forall|i: int|
            0 <= i < old(w).actors@.len() ==> energy_val(#[trigger] final(w).actors@[i])
                == energy_val(old(w).actors@[i]),
        forall|i: int|
            0 <= i < old(w).actors@.len() ==> same_but_use(
                #[trigger] old(w).actors@[i],
                final(w).actors@[i],
            ) && final(w).actors@[i].inventory == old(w).actors@[i].inventory,
        forall|i: int|
            0 <= i < old(w).actors@.len() ==> #[trigger] final(w).actors@[i] == (if fireball_hits(
                old(w).actors@[i],
                *position,
            ) {
                damaged_row(old(w).actors@[i], FIREBALL_DAMAGE as int)
            } else {
                old(w).actors@[i]
            }),
        crate::resources::log_view(final(w).messages.inner@) == crate::resources::push_all_view(
            crate::resources::push_view(
                crate::resources::log_view(old(w).messages.inner@),
                old(w).messages.limit as int,
                (
                    crate::resources::MsgV::FireballExplodes { radius: FIREBALL_RADIUS as int },
                    Color::Orange,
                ),
            ),
            old(w).messages.limit as int,
            burn_msgs(old(w).actors@, *position, old(w).actors@.len() as int),
        ),
        final(w).map == old(w).map,
        final(w).messages.limit == old(w).messages.limit,
        final(w).state == old(w).state,
        final(w).input == old(w).input,
        final(w).menu == old(w).menu,
        final(w).targeting == old(w).targeting,
{
    w.messages.push(
        Msg::FireballExplodes { radius: FIREBALL_RADIUS },
        Color::Orange,
    );
    let ghost s0 = w.actors@;
    let ghost base1 = crate::resources::log_view(w.messages.inner@);
    let ghost limit_g = old(w).messages.limit as int;
    let limit: i64 = (FIREBALL_RADIUS as i64) * (FIREBALL_RADIUS as i64);
    let mut j: usize = 0;
    while j < w.actors.len()
        invariant
            world_wf(w),
            j <= s0.len(),
            w.actors@.len() == s0.len(),
            position_bounded(*position),
            limit == FIREBALL_RADIUS as int * FIREBALL_RADIUS as int,
            limit_g == old(w).messages.limit as int,
            w.map == old(w).map,
            w.messages.limit == old(w).messages.limit,
            w.state == old(w).state,
            w.input == old(w).input,
            w.menu == old(w).menu,
            w.targeting == old(w).targeting,
            forall|i: int|
                0 <= i < s0.len() ==> energy_val(#[trigger] w.actors@[i]) == energy_val(
                    s0[i],
                ),
            forall|i: int|
                0 <= i < s0.len() ==> same_but_use(#[trigger] s0[i], w.actors@[i])
                    && w.actors@[i].inventory == s0[i].inventory,
            forall|i: int|
                0 <= i < s0.len() ==> #[trigger] w.actors@[i] == (if i < j && fireball_hits(
                    s0[i],
                    *position,
                ) {
                    damaged_row(s0[i], FIREBALL_DAMAGE as int)
                } else {
                    s0[i]
                }),
            crate::resources::log_view(w.messages.inner@) == crate::resources::push_all_view(
                base1,
                limit_g,
                burn_msgs(s0, *position, j as int),
            ),
        decreases s0.len() - j,
    {
        let ghost logpre = crate::resources::log_view(w.messages.inner@);
        let mut hit = false;
        let mut target_name = Name::new("");
        {
            let a = &w.actors[j];
            let mut alive = false;
            if let Some(l) = &a.living {
                alive = l.alive;
            }
            if alive {
                if let Some(pos) = &a.position {
                    if position.distance_sq(pos) <= limit {
                        hit = true;
                        target_name = match &a.name {
                            Some(n) => n.clone(),
                            None => Name::new(""),
                        };
                    }
                }
            }
        }
        proof {
            assert(hit == fireball_hits(s0[j as int], *position));
        }
        if hit {
            proof {
                reveal_strlit("");
                assert(""@ =~= Seq::<char>::empty());
                assert(target_name.0@ == crate::resolve::name_view(s0[j as int]));
            }
            w.messages.push(
                Msg::Burned { name: target_name.0, damage: FIREBALL_DAMAGE as i64 },
                Color::Orange,
            );
            let a = &mut w.actors[j];
            if let Some(l) = &mut a.living {
                if l.hp >= i32::MIN + FIREBALL_DAMAGE {
                    l.hp = l.hp - FIREBALL_DAMAGE;
                } else {
                    l.hp = i32::MIN;
                }
            }
            proof {
                crate::world::lemma_inv_wf_preserved(s0, w.actors@);
                let m = (
                    crate::resources::MsgV::Burned {
                        name: crate::resolve::name_view(s0[j as int]),
                        damage: FIREBALL_DAMAGE as int,
                    },
                    Color::Orange,
                );
                crate::resources::lemma_push_all_view_concat(
                    base1,
                    limit_g,
                    burn_msgs(s0, *position, j as int),
                    seq![m],
                );
                crate::resolve::lemma_push_one_view(logpre, limit_g, m);
                assert(burn_msgs(s0, *position, j as int) + seq![m] =~= burn_msgs(
                    s0,
                    *position,
                    j as int + 1,
                ));
            }
        } else {
            proof {
                assert(burn_msgs(s0, *position, j as int + 1) =~= burn_msgs(
                    s0,
                    *position,
                    j as int,
                ));
            }
        }
        j = j + 1;
    }
    UseResult::UsedUp
}

/// Whether a chosen target position lies within a continuation's range
/// of the placed player.
pub open spec fn target_in_range(s: Seq<Actor>, t: Targeting, target: Position) -> bool {
    match t.max_range {
        Option::<i32>::None => true,
        Some(mr) => {
            &&& 0 <= mr <= 1000
            &&& crate::ai_engine::the_player_pos(s) matches Some(pp) && dist_sq(pp, target)
                <= mr as int * mr as int
        },
    }
}

/// The first inventory slot holding `x`, scanning from `from`.
pub open spec fn first_occurrence(inv: Seq<usize>, x: usize, from: int) -> Option<int>
    decreases inv.len() - from,
{
    if from < 0 || from >= inv.len() {
        None
    } else if inv[from] == x {
        Some(from)
    } else {
        first_occurrence(inv, x, from + 1)
    }
}

/// An inventory after the spend takes the first occurrence of `x` out of
/// it; an absent handle leaves it alone.
pub open spec fn spent_inventory(inv: Seq<usize>, x: usize) -> Seq<usize> {
    match first_occurrence(inv, x, 0) {
        Some(k) => inv.remove(k),
        None => inv,
    }
}

/// Complete a suspended targeting with a chosen position: validate the
/// oracle's sight, the range, and (for monster targeting) the occupant;
/// apply the effect; and spend the item — it leaves the player's
/// inventory and its row is freed. An invalid choice changes nothing at
/// all, leaving the continuation in place for another try.
#[verifier::rlimit(100)]
pub fn complete_targeting(target: Position, w: &mut GameWorld, fov: &Fov)
    requires
        world_wf(old(w)),
        position_bounded(target),
    ensures
        world_wf(final(w)),
        old(w).targeting is None ==> *final(w) == *old(w),
        (old(w).targeting matches Some(t) && !(spec_in_fov(fov, target.x as int, target.y as int)
            && target_in_range(old(w).actors@, t, target))) ==> *final(w) == *old(w),
        (old(w).targeting matches Some(t) && spec_in_fov(fov, target.x as int, target.y as int)
            && target_in_range(old(w).actors@, t, target) && t.kind == TargetingKind::Monster
            && first_confusable(old(w).actors@, target, 0) is None) ==> ({
            &&& final(w).actors@ == old(w).actors@
            &&& final(w).messages == old(w).messages
            &&& final(w).targeting == old(w).targeting
        }),
        (old(w).targeting matches Some(t) && spec_in_fov(fov, target.x as int, target.y as int)
            && target_in_range(old(w).actors@, t, target) && t.kind == TargetingKind::Monster
            && first_confusable(old(w).actors@, target, 0) is Some) ==> ({
            let s = old(w).actors@;
            let t2 = first_confusable(s, target, 0).unwrap();
            let spent = old(w).targeting.unwrap().used_item as int;
            &&& final(w).targeting is None
            &&& (spent < s.len() ==> final(w).actors@[spent] == Actor::empty_spec())
            &&& (t2 != spent ==> ({
                &&& final(w).actors@[t2].ai is Some
                &&& final(w).actors@[t2].ai.unwrap() matches Ai::Confused {
                    previous_ai,
                    num_turns,
                } && *previous_ai == s[t2].ai.unwrap() && num_turns == CONFUSE_NUM_TURNS
            }))
            &&& (forall|k: int|
                0 <= k < s.len() && k != t2 && k != spent && (#[trigger] s[k]).player is None
                    ==> final(w).actors@[k] == s[k])
            &&& (forall|p: int|
                0 <= p < s.len() && (#[trigger] s[p]).player is Some && s[p].inventory
                    is Some && p != spent && p != t2 ==> ({
                    &&& final(w).actors@[p].inventory is Some
                    &&& final(w).actors@[p].inventory.unwrap().0@ == spent_inventory(
                        s[p].inventory.unwrap().0@,
                        old(w).targeting.unwrap().used_item,
                    )
                    &&& final(w).actors@[p] == (Actor {
                        inventory: final(w).actors@[p].inventory,
                        ..s[p]
                    })
                }))
            &&& crate::resources::log_view(final(w).messages.inner@)
                == crate::resources::push_view(
                crate::resources::log_view(old(w).messages.inner@),
                old(w).messages.limit as int,
                (
                    crate::resources::MsgV::LooksVacant {
                        name: crate::resolve::name_view(s[t2]),
                    },
                    Color::LightGreen,
                ),
            )
        }),
        (old(w).targeting matches Some(t) && spec_in_fov(fov, target.x as int, target.y as int)
            && target_in_range(old(w).actors@, t, target) && t.kind == TargetingKind::Tile)
            ==> ({
            let s = old(w).actors@;
            let spent = old(w).targeting.unwrap().used_item as int;
            &&& final(w).targeting is None
            &&& (spent < s.len() ==> final(w).actors@[spent] == Actor::empty_spec())
            &&& (forall|k: int|
                0 <= k < s.len() && k != spent && (#[trigger] s[k]).player is None
                    ==> final(w).actors@[k] == (if fireball_hits(s[k], target) {
                    damaged_row(s[k], FIREBALL_DAMAGE as int)
                } else {
                    s[k]
                }))
            &&& (forall|p: int|
                0 <= p < s.len() && (#[trigger] s[p]).player is Some && s[p].inventory
                    is Some && p != spent ==> ({
                    &&& final(w).actors@[p].inventory is Some
                    &&& final(w).actors@[p].inventory.unwrap().0@ == spent_inventory(
                        s[p].inventory.unwrap().0@,
                        old(w).targeting.unwrap().used_item,
                    )
                    &&& final(w).actors@[p].living == (if fireball_hits(s[p], target) {
                        damaged_row(s[p], FIREBALL_DAMAGE as int).living
                    } else {
                        s[p].living
                    })
                    &&& final(w).actors@[p] == (Actor {
                        inventory: final(w).actors@[p].inventory,
                        living: final(w).actors@[p].living,
                        ..s[p]
                    })
                }))
            &&& crate::resources::log_view(final(w).messages.inner@)
                == crate::resources::push_all_view(
                crate::resources::push_view(
                    crate::resources::log_view(old(w).messages.inner@),
                    old(w).messages.limit as int,
                    (
                        crate::resources::MsgV::FireballExplodes {
                            radius: FIREBALL_RADIUS as int,
                        },
                        Color::Orange,
                    ),
                ),
                old(w).messages.limit as int,
                burn_msgs(s, target, s.len() as int),
            )
        }),
        final(w).map == old(w).map,
        final(w).messages.limit == old(w).messages.limit,
        final(w).state == old(w).state,
        final(w).input == old(w).input,
        final(w).menu == old(w).menu,
{
    let t = match &w.targeting {
        Some(t) => *t,
        None => {
            return ;
        },
    };
    if !fov.is_in_fov(target.x, target.y) {
        return ;
    }
    if let Some(max_range) = t.max_range {
        let player_pos = match crate::world::find_player_position(&w.actors) {
            Some(p) => p,
            None => {
                return ;
            },
        };
        proof {
            let pc = choose|pc: int|
                0 <= pc < w.actors@.len() && (#[trigger] w.actors@[pc].player) is Some
                    && w.actors@[pc].position is Some;
            assert(crate::ai_engine::the_player_pos(w.actors@) == Some(player_pos));
        }
        if 0 <= max_range && max_range <= 1000 {
            let m: i64 = max_range as i64;
            proof {
                assert(0 <= m <= 1000 ==> 0 <= m * m <= 0x10_0000) by (nonlinear_arith);
            }
            let limit: i64 = m * m;
            proof {
                let k = choose|k: int|
                    0 <= k < w.actors@.len() && (#[trigger] w.actors@[k]).player is Some
                        && w.actors@[k].position == Some(player_pos);
                assert(position_bounded(w.actors@[k].position.unwrap()));
            }
            if player_pos.distance_sq(&target) > limit {
                return ;
            }
        } else {
            return ;
        }
    }
    let result = match t.kind {
        TargetingKind::Monster => cast_confuse(&target, w),
        TargetingKind::Tile => cast_fireball(&target, w),
    };
    let ghost post_cast = w.actors@;
    match result {
        UseResult::UsedUp => {
            // Spend the item: the first matching entry leaves the
            // player's inventory and the item row is freed.
            let item_entity = t.used_item;
            match crate::world::find_player(&w.actors) {
                Some(p) => {
                    let mut at: Option<usize> = None;
                    {
                        let a = &w.actors[p];
                        if let Some(inv) = &a.inventory {
                            let mut k: usize = 0;
                            while k < inv.0.len()
                                invariant
                                    k <= inv.0@.len(),
                                    match at {
                                        Some(f) => first_occurrence(
                                            inv.0@,
                                            item_entity,
                                            0,
                                        ) == Some(f as int) && f < inv.0@.len(),
                                        None => first_occurrence(inv.0@, item_entity, 0)
                                            == first_occurrence(
                                            inv.0@,
                                            item_entity,
                                            k as int,
                                        ),
                                    },
                                decreases inv.0@.len() - k,
                            {
                                if at.is_none() {
                                    if inv.0[k] == item_entity {
                                        proof {
                                            assert(first_occurrence(
                                                inv.0@,
                                                item_entity,
                                                k as int,
                                            ) == Some(k as int));
                                        }
                                        at = Some(k);
                                    } else {
                                        proof {
                                            assert(first_occurrence(
                                                inv.0@,
                                                item_entity,
                                                k as int,
                                            ) == first_occurrence(
                                                inv.0@,
                                                item_entity,
                                                k as int + 1,
                                            ));
                                        }
                                    }
                                }
                                k = k + 1;
                            }
                        }
                    }
                    if let Some(k) = at {
                        let ghost mid = w.actors@;
                        let mut removed = false;
                        {
                            let a = &mut w.actors[p];
                            if let Some(inv) = &mut a.inventory {
                                if k < inv.0.len() {
                                    inv.0.remove(k);
                                    removed = true;
                                }
                            }
                        }
                        proof {
                            if removed {
                                crate::world::lemma_inv_wf_after_remove(
                                    mid,
                                    w.actors@,
                                    p as int,
                                    k as int,
                                );
                            }
                            assert(w.actors@ =~= post_cast.update(
                                p as int,
                                Actor {
                                    inventory: w.actors@[p as int].inventory,
                                    ..post_cast[p as int]
                                },
                            ));
                            assert(w.actors@[p as int].inventory is Some
                                && w.actors@[p as int].inventory.unwrap().0@
                                == spent_inventory(
                                post_cast[p as int].inventory.unwrap().0@,
                                item_entity,
                            ));
                        }
                    } else {
                        proof {
                            assert(w.actors@ =~= post_cast);
                        }
                    }
                },
                None => {},
            }
            let ghost post_spend = w.actors@;
            if item_entity < w.actors.len() {
                let ghost mid2 = w.actors@;
                w.actors[item_entity] = Actor::empty();
                proof {
                    crate::world::lemma_inv_wf_after_delete(
                        mid2,
                        w.actors@,
                        item_entity as int,
                    );
                    assert(w.actors@ =~= post_spend.update(
                        item_entity as int,
                        Actor::empty_spec(),
                    ));
                }
            }
            proof {
                if t.kind == TargetingKind::Monster && first_confusable(
                    old(w).actors@,
                    target,
                    0,
                ) is Some {
                    lemma_first_confusable_bounds(old(w).actors@, target, 0);
                    let t2 = first_confusable(old(w).actors@, target, 0).unwrap();
                    assert(0 <= t2 < old(w).actors@.len());
                    assert(post_cast[t2].ai is Some);
                    assert(post_spend[t2].ai == post_cast[t2].ai);
                    if t2 != item_entity as int {
                        assert(w.actors@[t2].ai == post_spend[t2].ai);
                    }
                }
            }
            w.targeting = None;
        },
        _ => {},
    }
}

} // verus!
