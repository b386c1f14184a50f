//! Turn engine for a grid-based dungeon crawler: an energy-based scheduler,
//! a closed action model with integer costs, per-actor behavior state
//! machines, and a staged action-resolution pipeline over a sparse actor
//! store.

mod action;
mod ai_engine;
mod components;
mod dispatcher;
mod energy;
mod game;
mod items;
mod map;
mod menu_sys;
mod mapgen;
mod persist;
mod position;
mod resolve;
mod resources;
mod rng;
mod stages;
mod velocity;
mod world;

pub use action::{cost_of, Action};
pub use ai_engine::{
    ai_processed, ai_system, basic_ai, basic_decided, confused_decided, monster_action_ok,
    monster_actions_wf,
    player_action_of, player_ai, player_consumed, player_move_or_melee, pursuit_step, run_ai,
    the_player_pos,
};
pub use components::{
    is_monster_ai, is_player_ai, Ai, Alive, Collider, Color, Fighter, Inventory, InventoryData, Item, Living,
    Name, Player, Power, Visual, INVENTORY_CAPACITY,
};
pub use dispatcher::{
    decided_rank, input_rank, pos_energy, scheduler_consistent, sim_entity_ready, sim_measure,
    entries_rel, entry_rel, sim_progress, sim_should_run, spec_sim_should_run,
    monster_actions_pos, build_dispatcher,
    run_intake, run_present, run_simulate, run_simulate_pass, Entry, MetaDispatcher, RunWhile,
    StageGroup,
};
pub use energy::Energy;
pub use game::{check_world, exited, get_action, lemma_ai_rooted, main_menu, new_game, next_level};
pub use mapgen::{
    create_h_tunnel, create_room, create_v_tunnel, generate_map, in_room_interior,
    place_objects, placed_actor_ok, room_ok, Rect, MAX_ROOMS, MAX_ROOM_ITEMS,
    MAX_ROOM_MONSTERS, ROOM_MAX_SIZE, ROOM_MIN_SIZE,
};
pub use menu_sys::{
    handle_main_menu_choice, main_menu_choice, menu_letter_choice, menu_rows_list_inventory,
    menu_system, INVENTORY_WIDTH,
};
pub use persist::{
    lemma_actor_round_trip, lemma_store_round_trip, persistent_eq, restore, restored_matches,
    saved_matches, snapshot, SaveData, SavedActor,
};
pub use position::{sgn, step_toward, Position, PreviousPosition};
pub use resolve::{
    apply_melee, first_alive_at, lemma_push_one_view, melee_damage, mm_candidate, mm_fold,
    mm_paid, mm_step, mm_stepped, mm_strike_msg, mm_struck, mom_ready, move_and_melee_system,
    name_view, MmOutcome,
};
pub use resources::{
    evicted, log_view, msg_view, push_all_view, push_view, MsgV, lemma_push_all_view_concat, InputAction, Menu, MenuKind, Messages, Msg, State, Targeting, TargetingKind,
};
pub use items::{
    burn_msgs, cast_confuse, cast_fireball, cast_heal, cast_lightning, closest_monster,
    closest_scan, complete_targeting, damaged_row, dist_sq, fireball_hits, first_confusable,
    first_occurrence, heal, healed_hp, lemma_closest_scan_props, lemma_first_confusable_bounds,
    same_but_use, spec_closest_monster, spent_inventory,
    target_confuse, target_fireball, target_in_range, use_attempting, use_item_system,
    use_sole_outcome,
    UseResult, CONFUSE_NUM_TURNS, CONFUSE_RANGE, FIREBALL_DAMAGE, FIREBALL_RADIUS, HEAL_AMOUNT,
    LIGHTNING_DAMAGE, LIGHTNING_RANGE,
};
pub use map::{grid_view, in_bounds, tile_blocked, GameMap, Tile, Tiles, MAP_HEIGHT, MAP_WIDTH};
pub use stages::{
    death_msgs, drop_attempting, drop_ready, drop_sole_outcome, drop_system, first_item_at,
    item_on_tile, pick_attempting, pick_ready, pick_sole_outcome, pick_up_system,
    player_death_msgs, same_but_carry, dead_monster, dead_player, fog_of_war_system, lemma_death_transition_idempotent,
    location_history_system, monster_death_system, monster_transitioned, player_death_system,
    player_transitioned, same_but_energy, skip_ready, skip_system, spec_should_tick,
    time_system,
};
pub use velocity::{displacement, Heading, Velocity};
pub use world::{
    actors_wf, creature_wf, end_game, find_player, find_player_position, inv_wf, item_wf,
    energy_val, lemma_push_preserves_wf, map_ok, monster_ai_wf, occupied_by_collider,
    player_ai_wf, player_is_alive, player_wf, players_unique, position_bounded, same_but_brain,
    same_but_combat, world_wf, CalculateBlockedMapExt, CalculateBlockedWorldExt,
    positions_distinct, spawn_player, spec_in_fov, spec_player_alive, welcome_message, Actor,
    Fov, GameWorld,
};
