//! Tests for the movement vector, the death transitions, the message
//! log, menus, map generation, and the save round trip.

use tombs::{
    check_world, generate_map, main_menu, menu_system, monster_death_system, new_game,
    player_death_system, restore, snapshot, Action, Actor, Ai, Collider, Color, Energy,
    GameMap, GameWorld, Heading, InputAction, Inventory, Item, Living, MenuKind, Messages, Msg,
    Name, Player, Position, PreviousPosition, Power, State, Velocity, Visual,
};

/// The movement vector never comes back diagonal: whatever the deltas,
/// one axis of the step is zero, and the magnitude is one exactly when
/// the target is elsewhere.
#[test]
fn move_towards_is_never_diagonal() {
    let origin = Position { x: 10, y: 10 };
    let targets = [
        (10, 10),
        (10, 15),
        (15, 10),
        (3, 2),
        (11, 19),
        (19, 11),
        (-5, 10),
        (10, -5),
        (-7, -9),
        (13, 13),
    ];
    for (tx, ty) in targets {
        let v = origin.move_towards(&Position { x: tx, y: ty });
        // A velocity is a heading plus a magnitude, so both axes can
        // never be non-zero at once; check the magnitude rule too.
        if tx == 10 && ty == 10 {
            assert_eq!(v.magnitude, 0);
        } else {
            assert_eq!(v.magnitude, 1);
        }
    }
}

/// On a perfect diagonal the fair coin keeps exactly one axis: the step
/// is one tile East or one tile South, never both.
#[test]
fn move_towards_breaks_diagonal_ties() {
    let origin = Position { x: 10, y: 10 };
    for _ in 0..20 {
        let v = origin.move_towards(&Position { x: 13, y: 13 });
        assert_eq!(v.magnitude, 1);
        assert!(v.heading == Heading::East || v.heading == Heading::South);
    }
}

/// Letter keys name menu rows; anything else is no choice.
#[test]
fn menu_letters_name_rows() {
    assert_eq!(tombs::menu_letter_choice('a', 3), Some(0));
    assert_eq!(tombs::menu_letter_choice('c', 3), Some(2));
    assert_eq!(tombs::menu_letter_choice('B', 3), Some(1));
    assert_eq!(tombs::menu_letter_choice('z', 3), None);
    assert_eq!(tombs::menu_letter_choice('7', 3), None);
    assert_eq!(tombs::menu_letter_choice('!', 3), None);
}

/// On a dominant axis the step is deterministic.
#[test]
fn move_towards_follows_dominant_axis() {
    let origin = Position { x: 10, y: 10 };
    let v = origin.move_towards(&Position { x: 30, y: 11 });
    assert_eq!(v, Velocity { heading: Heading::East, magnitude: 1 });
    let v2 = origin.move_towards(&Position { x: 9, y: -20 });
    assert_eq!(v2, Velocity { heading: Heading::North, magnitude: 1 });
}

fn monster_with_hp(hp: i32) -> Actor {
    Actor {
        position: Some(Position { x: 4, y: 4 }),
        prev_position: None,
        velocity: Some(Velocity::new()),
        living: Some(Living { alive: true, max_hp: 10, hp, defense: 0 }),
        power: Some(Power(3)),
        energy: Some(Energy(0)),
        ai: Some(Ai::Basic),
        player: None,
        collider: Some(Collider::new()),
        inventory: None,
        item: None,
        name: Some(Name::new("orc")),
        visual: Some(Visual { glyph: 'o', color: Color::Green, always_visible: false }),
        action: Some(Action::noop()),
    }
}

/// The monster death transition fires once and is a no-op afterwards:
/// the corpse keeps its place, loses its behavior, power, collider,
/// action and accumulator, and is renamed to its remains.
#[test]
fn monster_death_fires_once() {
    let mut w = GameWorld::new();
    w.state = State::Game;
    w.actors.push(monster_with_hp(0));
    monster_death_system(&mut w);
    let corpse = w.actors[0].clone();
    assert!(!corpse.living.as_ref().unwrap().alive);
    assert!(corpse.ai.is_none());
    assert!(corpse.power.is_none());
    assert!(corpse.collider.is_none());
    assert!(corpse.action.is_none());
    assert!(corpse.energy.is_none());
    assert_eq!(corpse.name.as_ref().unwrap().0, "remains of orc");
    assert_eq!(corpse.visual.as_ref().unwrap().glyph, '%');
    assert_eq!(corpse.position, Some(Position { x: 4, y: 4 }));
    let messages_after_one = w.messages.inner.len();
    // Applying the scan again changes nothing: the alive flag is
    // already down.
    monster_death_system(&mut w);
    assert_eq!(w.actors[0], corpse);
    assert_eq!(w.messages.inner.len(), messages_after_one);
}

/// The player's death transition is cosmetic: the flag flips and the
/// glyph changes, everything else stays; and it too fires only once.
#[test]
fn player_death_fires_once() {
    let mut w = GameWorld::new();
    w.state = State::Game;
    let mut p = monster_with_hp(-1);
    p.player = Some(Player::new());
    p.inventory = Some(Inventory::new());
    w.actors.push(p);
    player_death_system(&mut w);
    assert!(!w.actors[0].living.as_ref().unwrap().alive);
    assert!(w.actors[0].energy.is_some());
    assert!(w.actors[0].action.is_some());
    assert_eq!(w.actors[0].visual.as_ref().unwrap().glyph, '%');
    let after = w.actors[0].clone();
    player_death_system(&mut w);
    assert_eq!(w.actors[0], after);
}

/// The message log evicts its oldest entries at capacity.
#[test]
fn message_log_evicts_oldest() {
    let mut m = Messages::new(2);
    m.push(Msg::Welcome, Color::Red);
    m.push(Msg::PlayerDead, Color::Red);
    m.push(Msg::Cancelled, Color::White);
    assert_eq!(m.inner.len(), 2);
    assert!(matches!(m.inner[0].0, Msg::PlayerDead));
    assert!(matches!(m.inner[1].0, Msg::Cancelled));
    m.clear();
    assert_eq!(m.inner.len(), 0);
}

/// The main menu opens with its three rows and a choice maps to the
/// matching game operation.
#[test]
fn main_menu_round_trip() {
    let mut w = GameWorld::new();
    main_menu(&mut w);
    let menu = w.menu.as_ref().unwrap();
    assert_eq!(menu.kind, MenuKind::Main);
    assert_eq!(menu.items.len(), 3);
    assert_eq!(menu.items[0], "Play a new game");
    assert_eq!(w.state, State::MainMenu);
    w.input = InputAction::MenuChoice(0);
    menu_system(&mut w);
    assert_eq!(w.input, InputAction::NewGame);
    assert!(w.menu.is_none());
}

/// An inventory menu choice becomes the matching use-from-inventory
/// token.
#[test]
fn inventory_menu_choice_becomes_use() {
    let mut w = GameWorld::new();
    let mut p = monster_with_hp(10);
    p.player = Some(Player::new());
    p.inventory = Some(Inventory::new());
    w.actors.push(p);
    w.input = InputAction::OpenInventoryMenu;
    menu_system(&mut w);
    let menu = w.menu.as_ref().unwrap();
    assert_eq!(menu.kind, MenuKind::Inventory);
    assert_eq!(menu.items[0], "Inventory is empty.");
    w.input = InputAction::MenuChoice(4);
    menu_system(&mut w);
    assert_eq!(w.input, InputAction::UseFromInventory(4));
}

/// The world check decides well-formedness exactly: a healthy store
/// passes, and each kind of damage is caught.
#[test]
fn check_world_rejects_damage() {
    // Healthy: one monster.
    let mut w = GameWorld::new();
    w.actors.push(monster_with_hp(10));
    assert!(check_world(&w));

    // Two players.
    let mut w2 = GameWorld::new();
    let mut p = monster_with_hp(10);
    p.player = Some(Player::new());
    p.inventory = Some(Inventory::new());
    w2.actors.push(p.clone());
    let mut q = p.clone();
    q.position = Some(Position { x: 9, y: 9 });
    w2.actors.push(q);
    assert!(!check_world(&w2));

    // An item row that blocks a tile.
    let mut w3 = GameWorld::new();
    w3.actors.push(Actor {
        position: Some(Position { x: 1, y: 1 }),
        prev_position: None,
        velocity: None,
        living: None,
        power: None,
        energy: None,
        ai: None,
        player: None,
        collider: Some(Collider::new()),
        inventory: None,
        item: Some(Item::Heal),
        name: Some(Name::new("healing potion")),
        visual: None,
        action: None,
    });
    assert!(!check_world(&w3));

    // Two colliders on one tile.
    let mut w4 = GameWorld::new();
    w4.actors.push(monster_with_hp(10));
    w4.actors.push(monster_with_hp(10));
    assert!(!check_world(&w4));
}

/// The fixed test level: carved rooms are floor, the wall mass stays.
#[test]
fn simple_map_carves_rooms() {
    let m = GameMap::new_simple();
    assert_eq!(m.tiles.len(), 80);
    assert_eq!(m.tiles[0].len(), 43);
    assert_eq!(m.spawn_point, Position { x: 25, y: 23 });
    // Inside the first room.
    assert!(!m.tiles[25][20].blocked);
    // The border wall.
    assert!(m.tiles[0][0].blocked);
    // On the tunnel.
    assert!(!m.tiles[40][23].blocked);
}

/// A generated level passes the full well-formedness check, keeps every
/// new collider off the spawn point, and spawns no player.
#[test]
fn generated_level_is_well_formed() {
    let mut w = GameWorld::new();
    w.state = State::Game;
    generate_map(&mut w);
    assert!(check_world(&w));
    let spawn = w.map.spawn_point;
    assert!(spawn.x >= 0 && spawn.x < 80 && spawn.y >= 0 && spawn.y < 43);
    for a in &w.actors {
        assert!(a.player.is_none());
        if a.collider.is_some() {
            assert_ne!(a.position, Some(spawn));
        }
    }
}

/// A fresh game is fully playable: well-formed, in play, with a live
/// player at the spawn point.
#[test]
fn new_game_is_ready_to_play() {
    let mut w = GameWorld::new();
    new_game(&mut w);
    assert!(check_world(&w));
    assert_eq!(w.state, State::Game);
    let player = w
        .actors
        .iter()
        .find(|a| a.player.is_some())
        .expect("the fresh game has a player");
    assert!(player.living.as_ref().unwrap().alive);
    assert_eq!(player.position, Some(w.map.spawn_point));
    assert!(matches!(w.messages.inner.last().unwrap().0, Msg::Welcome));
}

/// Round trip through the persistence boundary: the restored attribute
/// tables equal the originals, transient velocity and action aside, and
/// inventory handles still resolve.
#[test]
fn save_round_trip_restores_tables() {
    let mut w = GameWorld::new();
    new_game(&mut w);
    // Give the player a carried item so a cross-reference must survive.
    let item_row = w.actors.len();
    w.actors.push(Actor {
        position: None,
        prev_position: None,
        velocity: None,
        living: None,
        power: None,
        energy: None,
        ai: None,
        player: None,
        collider: None,
        inventory: None,
        item: Some(Item::Confuse),
        name: Some(Name::new("scroll of confusion")),
        visual: None,
        action: None,
    });
    let player_idx = w.actors.iter().position(|a| a.player.is_some()).unwrap();
    w.actors[player_idx].inventory = Some(Inventory(vec![item_row]));

    let data = snapshot(&w);
    let restored = restore(&data);

    assert_eq!(restored.actors.len(), w.actors.len());
    for (a, b) in w.actors.iter().zip(restored.actors.iter()) {
        assert_eq!(a.position, b.position);
        assert_eq!(a.prev_position, b.prev_position);
        assert_eq!(a.living, b.living);
        assert_eq!(a.power, b.power);
        assert_eq!(a.energy, b.energy);
        assert_eq!(a.ai, b.ai);
        assert_eq!(a.player, b.player);
        assert_eq!(a.collider, b.collider);
        assert_eq!(a.item, b.item);
        assert_eq!(a.name, b.name);
        assert_eq!(a.visual, b.visual);
        assert_eq!(a.inventory, b.inventory);
    }
    assert_eq!(restored.map.tiles, w.map.tiles);
    assert_eq!(restored.map.spawn_point, w.map.spawn_point);
    assert_eq!(restored.state, State::Loaded);
    // The loaded world is ready for the scheduler once checked.
    assert!(check_world(&restored));
}
