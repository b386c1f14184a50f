//! Scenario tests for the turn engine: the energy deficit rule, basic
//! pursuit, melee resolution, confusion expiry, and the inventory
//! capacity rule.

use tombs::{
    ai_system, move_and_melee_system, pick_up_system, run_ai, run_simulate, skip_system,
    time_system, Action, Actor, Ai, Collider, Color, Energy, Fov, GameMap, GameWorld, Heading,
    InputAction, Inventory, Item, Living, Msg, Name, Player, Position, PreviousPosition, Power,
    State, Velocity, Visual, INVENTORY_CAPACITY,
};

fn full_fov() -> Fov {
    let mut cols = Vec::new();
    for _ in 0..80 {
        let mut col = Vec::new();
        for _ in 0..43 {
            col.push(true);
        }
        cols.push(col);
    }
    Fov { visible: cols }
}

fn base_world() -> GameWorld {
    let mut w = GameWorld::new();
    w.map = GameMap::new_simple();
    w.state = State::Game;
    w
}

fn creature(x: i32, y: i32, name: &str, ai: Ai, hp: i32, defense: i32, power: i32) -> Actor {
    Actor {
        position: Some(Position { x, y }),
        prev_position: Some(PreviousPosition { x: -1, y: -1 }),
        velocity: Some(Velocity::new()),
        living: Some(Living { alive: true, max_hp: hp, hp, defense }),
        power: Some(Power(power)),
        energy: Some(Energy(0)),
        ai: Some(ai),
        player: None,
        collider: Some(Collider::new()),
        inventory: None,
        item: None,
        name: Some(Name::new(name)),
        visual: Some(Visual { glyph: 'm', color: Color::Green, always_visible: false }),
        action: Some(Action::noop()),
    }
}

fn player_at(x: i32, y: i32) -> Actor {
    let mut a = creature(x, y, "player", Ai::Player, 30, 2, 5);
    a.player = Some(Player::new());
    a.inventory = Some(Inventory::new());
    a.action = Some(Action::WaitForInput);
    a
}

/// An actor with one point of energy that commits to a three-tick wait
/// ends at minus two, and cannot act again until the per-tick gain
/// raises it above zero three ticks later.
#[test]
fn skip_builds_deficit_of_two() {
    let mut e = Energy::new();
    e.gain(1);
    assert!(e.can_act());
    assert!(e.consume(3));
    assert_eq!(e, Energy(-2));
    assert!(!e.can_act());
    for _ in 0..2 {
        e.gain(1);
        assert!(!e.can_act());
    }
    e.gain(1);
    assert!(e.can_act());
}

/// The skip stage applies the same rule through the store.
#[test]
fn skip_stage_consumes_ticks() {
    let mut w = base_world();
    let mut m = creature(5, 5, "orc", Ai::Basic, 10, 0, 3);
    m.energy = Some(Energy(1));
    m.action = Some(Action::Skip { ticks: 3 });
    w.actors.push(m);
    skip_system(&mut w);
    assert_eq!(w.actors[0].energy, Some(Energy(-2)));
}

/// A basic-pursuit monster two tiles north of the player steps one tile
/// toward it: from (5, 3) toward (5, 5) the candidate destination is
/// (5, 4), heading South with magnitude one.
#[test]
fn basic_ai_steps_toward_player() {
    let from = Position { x: 5, y: 3 };
    let to = Position { x: 5, y: 5 };
    let v = from.move_towards(&to);
    assert_eq!(v, Velocity { heading: Heading::South, magnitude: 1 });
    let candidate = from.add_velocity(&v);
    assert_eq!(candidate, Position { x: 5, y: 4 });
}

/// The same step falls out of a whole tick through the engine: the
/// monster's decision and the move stage put it on (5, 4).
#[test]
fn one_tick_moves_monster_adjacent() {
    let mut w = base_world();
    w.actors.push(player_at(25, 20));
    let mut m = creature(25, 18, "orc", Ai::Basic, 10, 0, 3);
    m.energy = Some(Energy(1));
    w.actors.push(m);
    let fov = full_fov();
    ai_system(&mut w, &fov);
    move_and_melee_system(&mut w);
    assert_eq!(w.actors[1].position, Some(Position { x: 25, y: 19 }));
}

/// Attack resolution: power five against defense two takes three hit
/// points and reports it; power two against defense five has no effect.
#[test]
fn melee_damage_and_no_effect() {
    let mut w = base_world();
    let mut attacker = creature(25, 20, "orc", Ai::Basic, 10, 0, 5);
    attacker.energy = Some(Energy(1));
    attacker.action = Some(Action::MoveOrMelee {
        velocity: Velocity { heading: Heading::South, magnitude: 1 },
        attack_player: true,
        attack_monsters: true,
    });
    w.actors.push(attacker);
    let defender = creature(25, 21, "troll", Ai::Basic, 10, 2, 1);
    w.actors.push(defender);
    move_and_melee_system(&mut w);
    assert_eq!(w.actors[1].living.as_ref().unwrap().hp, 7);
    // The attacker stays put: melee never relocates.
    assert_eq!(w.actors[0].position, Some(Position { x: 25, y: 20 }));
    let (last, _) = w.messages.inner.last().unwrap();
    match last {
        Msg::Attack { damage, .. } => assert_eq!(*damage, 3),
        other => panic!("expected an attack message, got {:?}", other),
    }

    // Now the weak attacker against a tough defender.
    let mut w2 = base_world();
    let mut weak = creature(25, 20, "orc", Ai::Basic, 10, 0, 2);
    weak.energy = Some(Energy(1));
    weak.action = Some(Action::MoveOrMelee {
        velocity: Velocity { heading: Heading::South, magnitude: 1 },
        attack_player: true,
        attack_monsters: true,
    });
    w2.actors.push(weak);
    let tough = creature(25, 21, "troll", Ai::Basic, 10, 5, 1);
    w2.actors.push(tough);
    move_and_melee_system(&mut w2);
    assert_eq!(w2.actors[1].living.as_ref().unwrap().hp, 10);
    let (last2, _) = w2.messages.inner.last().unwrap();
    assert!(matches!(last2, Msg::NoEffect { .. }));
}

/// Confusion with one turn remaining reverts to the previous behavior
/// and immediately produces that behavior's decision in the same call,
/// announcing the recovery.
#[test]
fn confusion_expiry_decides_with_restored_behavior() {
    let mut msgs = tombs::Messages::new(5);
    let mut input = InputAction::Noop;
    let ai = Ai::Confused { previous_ai: Box::new(Ai::Basic), num_turns: 1 };
    let name = Name::new("orc");
    let (action, new_ai) = run_ai(
        ai,
        Position { x: 5, y: 3 },
        Some(Position { x: 5, y: 5 }),
        &name,
        &mut input,
        &mut msgs,
    );
    assert_eq!(new_ai, Ai::Basic);
    match action {
        Action::MoveOrMelee { velocity, attack_player, attack_monsters } => {
            // Basic pursuit's gates, not confusion's.
            assert!(attack_player);
            assert!(!attack_monsters);
            assert_eq!(velocity, Velocity { heading: Heading::South, magnitude: 1 });
        },
        other => panic!("expected a pursuit decision, got {:?}", other),
    }
    let (msg, color) = msgs.inner.last().unwrap();
    assert_eq!(*color, Color::Red);
    match msg {
        Msg::NoLongerConfused { name } => assert_eq!(name, "orc"),
        other => panic!("expected the recovery message, got {:?}", other),
    }
}

/// Confusion with turns left keeps stumbling: a unit move that may hit
/// anyone, with the counter decremented.
#[test]
fn confusion_keeps_stumbling() {
    let mut msgs = tombs::Messages::new(5);
    let mut input = InputAction::Noop;
    let ai = Ai::Confused { previous_ai: Box::new(Ai::Basic), num_turns: 3 };
    let name = Name::new("orc");
    let (action, new_ai) = run_ai(
        ai,
        Position { x: 5, y: 3 },
        Some(Position { x: 5, y: 5 }),
        &name,
        &mut input,
        &mut msgs,
    );
    assert_eq!(new_ai, Ai::Confused { previous_ai: Box::new(Ai::Basic), num_turns: 2 });
    match action {
        Action::MoveOrMelee { velocity, attack_player, attack_monsters } => {
            assert!(attack_player);
            assert!(attack_monsters);
            assert_eq!(velocity.magnitude, 1);
        },
        other => panic!("expected a stumble, got {:?}", other),
    }
}

/// A full inventory refuses the pick-up: the item stays on the ground,
/// the capacity message is posted, and the energy is still consumed.
#[test]
fn pick_up_at_capacity_keeps_item_and_consumes() {
    let mut w = base_world();
    let mut p = player_at(25, 20);
    p.energy = Some(Energy(1));
    p.action = Some(Action::PickUp);
    w.actors.push(p);
    // Fill the inventory with twenty-six carried items.
    let mut handles = Vec::new();
    for _ in 0..INVENTORY_CAPACITY {
        let idx = w.actors.len();
        w.actors.push(Actor {
            position: None,
            prev_position: None,
            velocity: None,
            living: None,
            power: None,
            energy: None,
            ai: None,
            player: None,
            collider: None,
            inventory: None,
            item: Some(Item::Heal),
            name: Some(Name::new("healing potion")),
            visual: None,
            action: None,
        });
        handles.push(idx);
    }
    w.actors[0].inventory = Some(Inventory(handles));
    // One more potion on the player's tile.
    let ground = w.actors.len();
    w.actors.push(Actor {
        position: Some(Position { x: 25, y: 20 }),
        prev_position: None,
        velocity: None,
        living: None,
        power: None,
        energy: None,
        ai: None,
        player: None,
        collider: None,
        inventory: None,
        item: Some(Item::Heal),
        name: Some(Name::new("healing potion")),
        visual: None,
        action: None,
    });
    pick_up_system(&mut w);
    // The item stays on the ground.
    assert_eq!(w.actors[ground].position, Some(Position { x: 25, y: 20 }));
    // The inventory did not grow.
    assert_eq!(w.actors[0].inventory.as_ref().unwrap().0.len(), INVENTORY_CAPACITY);
    // The capacity message was posted.
    let (last, _) = w.messages.inner.last().unwrap();
    assert!(matches!(last, Msg::InventoryFull { .. }));
    // The energy was still consumed.
    assert_eq!(w.actors[0].energy, Some(Energy(0)));
}

/// The simulate phase drains every monster to zero or below and stalls
/// cleanly at the waiting player.
#[test]
fn simulate_drains_monsters_and_stalls_at_player() {
    let mut w = base_world();
    let mut p = player_at(25, 20);
    p.energy = Some(Energy(0));
    w.actors.push(p);
    let mut m = creature(27, 22, "orc", Ai::Basic, 10, 0, 3);
    m.energy = Some(Energy(3));
    w.actors.push(m);
    let fov = full_fov();
    run_simulate(&mut w, &fov);
    assert!(!tombs::sim_should_run(&w));
    let e = match w.actors[1].energy {
        Some(Energy(v)) => v,
        None => 0,
    };
    assert!(e <= 0);
}

/// The scheduler only ticks while the player is alive and out of energy,
/// and then everyone gains one point.
#[test]
fn tick_raises_everyone_by_one() {
    let mut w = base_world();
    let mut p = player_at(25, 20);
    p.energy = Some(Energy(0));
    w.actors.push(p);
    let mut m = creature(27, 22, "orc", Ai::Basic, 10, 0, 3);
    m.energy = Some(Energy(-2));
    w.actors.push(m);
    time_system(&mut w);
    assert_eq!(w.actors[0].energy, Some(Energy(1)));
    assert_eq!(w.actors[1].energy, Some(Energy(-1)));
    // With the player now able to act, time stands still.
    time_system(&mut w);
    assert_eq!(w.actors[0].energy, Some(Energy(1)));
    assert_eq!(w.actors[1].energy, Some(Energy(-1)));
}
