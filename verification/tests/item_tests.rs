//! Tests for the action model, player input translation, the item
//! effects, targeting, and the drop stage.

use tombs::{
    cast_heal, complete_targeting, drop_system, player_ai, use_item_system, Action, Actor, Ai,
    Collider, Color, Energy, Fov, GameMap, GameWorld, Heading, InputAction, Inventory, Item,
    Living, Msg, Name, Player, Position, Power, State, Targeting, TargetingKind, Velocity,
    Visual, CONFUSE_NUM_TURNS,
};

fn full_fov() -> Fov {
    let mut cols = Vec::new();
    for _ in 0..80 {
        let mut col = Vec::new();
        for _ in 0..43 {
            col.push(true);
        }
        cols.push(col);
    }
    Fov { visible: cols }
}

fn world_with_player(hp: i32) -> GameWorld {
    let mut w = GameWorld::new();
    w.map = GameMap::new_simple();
    w.state = State::Game;
    w.actors.push(Actor {
        position: Some(Position { x: 25, y: 20 }),
        prev_position: None,
        velocity: Some(Velocity::new()),
        living: Some(Living { alive: true, max_hp: 30, hp, defense: 2 }),
        power: Some(Power(5)),
        energy: Some(Energy(1)),
        ai: Some(Ai::Player),
        player: Some(Player::new()),
        collider: Some(Collider::new()),
        inventory: Some(Inventory::new()),
        item: None,
        name: Some(Name::new("player")),
        visual: Some(Visual { glyph: '@', color: Color::White, always_visible: false }),
        action: Some(Action::WaitForInput),
    });
    w
}

fn monster_at(x: i32, y: i32) -> Actor {
    Actor {
        position: Some(Position { x, y }),
        prev_position: None,
        velocity: Some(Velocity::new()),
        living: Some(Living { alive: true, max_hp: 10, hp: 10, defense: 0 }),
        power: Some(Power(3)),
        energy: Some(Energy(0)),
        ai: Some(Ai::Basic),
        player: None,
        collider: Some(Collider::new()),
        inventory: None,
        item: None,
        name: Some(Name::new("orc")),
        visual: Some(Visual { glyph: 'o', color: Color::Green, always_visible: false }),
        action: Some(Action::noop()),
    }
}

fn carried_item(kind: Item, label: &str) -> Actor {
    Actor {
        position: None,
        prev_position: None,
        velocity: None,
        living: None,
        power: None,
        energy: None,
        ai: None,
        player: None,
        collider: None,
        inventory: None,
        item: Some(kind),
        name: Some(Name::new(label)),
        visual: None,
        action: None,
    }
}

/// The action cost table.
#[test]
fn energy_cost_table() {
    assert_eq!(Action::Skip { ticks: 4 }.energy_cost(), 4);
    assert_eq!(Action::WaitForInput.energy_cost(), 0);
    assert_eq!(
        Action::MoveOrMelee {
            velocity: Velocity { heading: Heading::East, magnitude: 2 },
            attack_player: false,
            attack_monsters: true,
        }
        .energy_cost(),
        2
    );
    assert_eq!(Action::PickUp.energy_cost(), 1);
    assert_eq!(Action::Drop { inventory_index: 3 }.energy_cost(), 1);
    assert_eq!(Action::UseFromInventory { inventory_index: 0 }.energy_cost(), 1);
    assert_eq!(Action::noop(), Action::Skip { ticks: 0 });
}

/// Player pass-through translates directional input into a unit
/// move-or-melee against monsters, hands the inventory commands through,
/// waits on everything else, and consumes the input exactly once.
#[test]
fn player_input_translation() {
    let mut input = InputAction::MoveNorth;
    let a = player_ai(&mut input);
    assert_eq!(
        a,
        Action::MoveOrMelee {
            velocity: Velocity { heading: Heading::North, magnitude: 1 },
            attack_player: false,
            attack_monsters: true,
        }
    );
    assert_eq!(input, InputAction::Noop);

    let mut input = InputAction::PickUp;
    assert_eq!(player_ai(&mut input), Action::PickUp);

    let mut input = InputAction::Drop(2);
    assert_eq!(player_ai(&mut input), Action::Drop { inventory_index: 2 });

    let mut input = InputAction::Exit;
    assert_eq!(player_ai(&mut input), Action::WaitForInput);

    // Idempotent on repeat calls with no new input.
    let mut input = InputAction::Noop;
    assert_eq!(player_ai(&mut input), Action::WaitForInput);
    assert_eq!(input, InputAction::Noop);
}

/// Healing at full health is cancelled without cost; a wounded player
/// pays one energy and comes back four points, capped at the maximum.
#[test]
fn heal_rules() {
    let mut w = world_with_player(30);
    assert_eq!(cast_heal(&mut w), tombs::UseResult::Cancelled);
    assert!(matches!(w.messages.inner.last().unwrap().0, Msg::AlreadyFullHealth));
    assert_eq!(w.actors[0].energy, Some(Energy(1)));

    let mut w2 = world_with_player(28);
    assert_eq!(cast_heal(&mut w2), tombs::UseResult::UsedUp);
    assert_eq!(w2.actors[0].living.as_ref().unwrap().hp, 30);
    assert_eq!(w2.actors[0].energy, Some(Energy(0)));

    let mut w3 = world_with_player(10);
    assert_eq!(cast_heal(&mut w3), tombs::UseResult::UsedUp);
    assert_eq!(w3.actors[0].living.as_ref().unwrap().hp, 14);
}

/// Using a healing potion from the inventory spends the item: the entry
/// leaves the inventory and its row is freed.
#[test]
fn used_potion_is_destroyed() {
    let mut w = world_with_player(10);
    let item_row = w.actors.len();
    w.actors.push(carried_item(Item::Heal, "healing potion"));
    w.actors[0].inventory = Some(Inventory(vec![item_row]));
    w.actors[0].action = Some(Action::UseFromInventory { inventory_index: 0 });
    let fov = full_fov();
    use_item_system(&mut w, &fov);
    assert_eq!(w.actors[0].living.as_ref().unwrap().hp, 14);
    assert_eq!(w.actors[0].inventory.as_ref().unwrap().0.len(), 0);
    assert!(w.actors[item_row].item.is_none());
    assert!(w.actors[item_row].name.is_none());
}

/// Lightning strikes the closest visible monster for twenty hit points;
/// with nobody in range the scroll is not spent.
#[test]
fn lightning_hits_closest_monster() {
    let mut w = world_with_player(30);
    w.actors.push(monster_at(25, 22));
    w.actors.push(monster_at(25, 24));
    let item_row = w.actors.len();
    w.actors.push(carried_item(Item::Lightning, "scroll of lightning bolt"));
    w.actors[0].inventory = Some(Inventory(vec![item_row]));
    w.actors[0].action = Some(Action::UseFromInventory { inventory_index: 0 });
    let fov = full_fov();
    use_item_system(&mut w, &fov);
    assert_eq!(w.actors[1].living.as_ref().unwrap().hp, -10);
    assert_eq!(w.actors[2].living.as_ref().unwrap().hp, 10);
    assert_eq!(w.actors[0].inventory.as_ref().unwrap().0.len(), 0);

    // No monster in range: cancelled, nothing spent.
    let mut w2 = world_with_player(30);
    let far = monster_at(50, 40);
    w2.actors.push(far);
    let row2 = w2.actors.len();
    w2.actors.push(carried_item(Item::Lightning, "scroll of lightning bolt"));
    w2.actors[0].inventory = Some(Inventory(vec![row2]));
    w2.actors[0].action = Some(Action::UseFromInventory { inventory_index: 0 });
    use_item_system(&mut w2, &fov);
    assert_eq!(w2.actors[0].inventory.as_ref().unwrap().0.len(), 1);
    assert!(w2
        .messages
        .inner
        .iter()
        .any(|(m, _)| matches!(m, Msg::NoEnemyInRange)));
}

/// A confusion scroll suspends into targeting; completing the targeting
/// on a monster installs the confused behavior that owns the previous
/// one, and spends the scroll.
#[test]
fn confuse_suspends_then_installs() {
    let mut w = world_with_player(30);
    w.actors.push(monster_at(25, 22));
    let item_row = w.actors.len();
    w.actors.push(carried_item(Item::Confuse, "scroll of confusion"));
    w.actors[0].inventory = Some(Inventory(vec![item_row]));
    w.actors[0].action = Some(Action::UseFromInventory { inventory_index: 0 });
    let fov = full_fov();
    use_item_system(&mut w, &fov);
    // Suspended: the scroll is still carried, the continuation is set.
    assert_eq!(
        w.targeting,
        Some(Targeting {
            used_item: item_row,
            kind: TargetingKind::Monster,
            max_range: Some(8),
        })
    );
    assert_eq!(w.actors[0].inventory.as_ref().unwrap().0.len(), 1);

    complete_targeting(Position { x: 25, y: 22 }, &mut w, &fov);
    assert_eq!(
        w.actors[1].ai,
        Some(Ai::Confused {
            previous_ai: Box::new(Ai::Basic),
            num_turns: CONFUSE_NUM_TURNS,
        })
    );
    assert_eq!(w.targeting, None);
    assert_eq!(w.actors[0].inventory.as_ref().unwrap().0.len(), 0);
    assert!(w.actors[item_row].item.is_none());
}

/// A cancelled targeting (clicking out of range) leaves the continuation
/// and the world untouched.
#[test]
fn targeting_out_of_range_changes_nothing() {
    let mut w = world_with_player(30);
    w.actors.push(monster_at(25, 22));
    let item_row = w.actors.len();
    w.actors.push(carried_item(Item::Confuse, "scroll of confusion"));
    w.actors[0].inventory = Some(Inventory(vec![item_row]));
    w.targeting = Some(Targeting {
        used_item: item_row,
        kind: TargetingKind::Monster,
        max_range: Some(8),
    });
    let fov = full_fov();
    // Eleven tiles away: beyond the confusion range of eight.
    complete_targeting(Position { x: 36, y: 20 }, &mut w, &fov);
    assert!(w.targeting.is_some());
    assert_eq!(w.actors[1].ai, Some(Ai::Basic));
}

/// A fireball burns everything alive within its radius, the player
/// included.
#[test]
fn fireball_burns_the_area() {
    let mut w = world_with_player(30);
    w.actors.push(monster_at(25, 22));
    w.actors.push(monster_at(30, 30));
    let item_row = w.actors.len();
    w.actors.push(carried_item(Item::Fireball, "scroll of fireball"));
    w.actors[0].inventory = Some(Inventory(vec![item_row]));
    w.targeting = Some(Targeting {
        used_item: item_row,
        kind: TargetingKind::Tile,
        max_range: None,
    });
    let fov = full_fov();
    complete_targeting(Position { x: 25, y: 21 }, &mut w, &fov);
    // The player (one tile off) and the near monster burn; the far one
    // does not.
    assert_eq!(w.actors[0].living.as_ref().unwrap().hp, 18);
    assert_eq!(w.actors[1].living.as_ref().unwrap().hp, -2);
    assert_eq!(w.actors[2].living.as_ref().unwrap().hp, 10);
    assert_eq!(w.targeting, None);
}

/// Dropping a carried item puts it back on the dropper's tile for one
/// energy; an invalid index changes nothing.
#[test]
fn drop_places_item_on_tile() {
    let mut w = world_with_player(30);
    let item_row = w.actors.len();
    w.actors.push(carried_item(Item::Heal, "healing potion"));
    w.actors[0].inventory = Some(Inventory(vec![item_row]));
    w.actors[0].action = Some(Action::Drop { inventory_index: 0 });
    drop_system(&mut w);
    assert_eq!(w.actors[item_row].position, Some(Position { x: 25, y: 20 }));
    assert_eq!(w.actors[0].inventory.as_ref().unwrap().0.len(), 0);
    assert_eq!(w.actors[0].energy, Some(Energy(0)));
    assert!(matches!(w.messages.inner.last().unwrap().0, Msg::Dropped { .. }));

    // An invalid index degrades to a complete no-op: nothing moves, no
    // energy is spent, and no message is posted.
    let mut w2 = world_with_player(30);
    let row2 = w2.actors.len();
    w2.actors.push(carried_item(Item::Heal, "healing potion"));
    w2.actors[0].inventory = Some(Inventory(vec![row2]));
    w2.actors[0].action = Some(Action::Drop { inventory_index: 9 });
    let log_before = w2.messages.inner.len();
    drop_system(&mut w2);
    assert_eq!(w2.actors[row2].position, None);
    assert_eq!(w2.actors[0].energy, Some(Energy(1)));
    assert_eq!(w2.messages.inner.len(), log_before);
}
