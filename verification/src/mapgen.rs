//! Dungeon generation: rectangular rooms joined by tunnels, populated
//! with monsters and items. The engine treats the result as a producer of
//! a tile grid and a spawn list.

use crate::action::Action;
use crate::components::{Ai, Collider, Color, Item, Living, Name, Power, Visual};
use crate::energy::Energy;
use crate::map::{grid_view, GameMap, Tile, Tiles, MAP_HEIGHT, MAP_WIDTH};
use crate::position::Position;
use crate::rng::{coin_flip, rand_range};
use crate::velocity::Velocity;
use crate::world::{
    lemma_push_preserves_wf, world_wf, Actor, CalculateBlockedWorldExt, GameWorld,
};
use vstd::prelude::*;

verus! {

pub const ROOM_MAX_SIZE: i32 = 10;

pub const ROOM_MIN_SIZE: i32 = 6;

pub const MAX_ROOMS: i32 = 30;

pub const MAX_ROOM_MONSTERS: i32 = 3;

pub const MAX_ROOM_ITEMS: i32 = 2;

/// A rectangle of tiles, corners inclusive.
#[derive(Clone, Copy, Debug, PartialEq, Eq, Structural)]
pub struct Rect {
    pub x1: i32,
    pub y1: i32,
    pub x2: i32,
    pub y2: i32,
}

impl Rect {
    pub fn new(x: i32, y: i32, w: i32, h: i32) -> (r: Rect)
        requires
            0 <= x,
            0 <= y,
            0 <= w,
            0 <= h,
            x + w <= i32::MAX,
            y + h <= i32::MAX,
        ensures
            r.x1 == x && r.y1 == y && r.x2 == x + w && r.y2 == y + h,
    {
        Rect { x1: x, y1: y, x2: x + w, y2: y + h }
    }

    /// The center tile of the rectangle.
    pub fn center(&self) -> (r: (i32, i32))
        requires
            0 <= self.x1 <= self.x2,
            0 <= self.y1 <= self.y2,
        ensures
            r.0 == (self.x1 + self.x2) / 2,
            r.1 == (self.y1 + self.y2) / 2,
            self.x1 <= r.0 <= self.x2,
            self.y1 <= r.1 <= self.y2,
    {
        let center_x = (self.x1 / 2) + (self.x2 / 2) + (self.x1 % 2 + self.x2 % 2) / 2;
        proof {
            assert(center_x == (self.x1 + self.x2) / 2) by (nonlinear_arith)
                requires
                    0 <= self.x1 <= self.x2 < 0x8000_0000,
                    center_x == (self.x1 / 2) + (self.x2 / 2) + (self.x1 % 2 + self.x2 % 2) / 2,
            ;
        }
        let center_y = (self.y1 / 2) + (self.y2 / 2) + (self.y1 % 2 + self.y2 % 2) / 2;
        proof {
            assert(center_y == (self.y1 + self.y2) / 2) by (nonlinear_arith)
                requires
                    0 <= self.y1 <= self.y2 < 0x8000_0000,
                    center_y == (self.y1 / 2) + (self.y2 / 2) + (self.y1 % 2 + self.y2 % 2) / 2,
            ;
        }
        (center_x, center_y)
    }

    /// Whether two rectangles touch or overlap.
    pub fn intersects_with(&self, other: &Rect) -> (r: bool)
        ensures
            r == (self.x1 <= other.x2 && self.x2 >= other.x1 && self.y1 <= other.y2 && self.y2
                >= other.y1),
    {
        (self.x1 <= other.x2) && (self.x2 >= other.x1) && (self.y1 <= other.y2) && (self.y2
            >= other.y1)
    }
}

/// Whether `(x, y)` lies strictly inside `room` (rooms keep their one-tile
/// wall border).
pub open spec fn in_room_interior(room: Rect, x: int, y: int) -> bool {
    room.x1 < x < room.x2 && room.y1 < y < room.y2
}

/// Carve the interior of `room` out of the wall mass.
pub fn create_room(room: Rect, map: &mut Tiles)
    requires
        0 <= room.x1 <= room.x2,
        0 <= room.y1 <= room.y2,
        room.x1 < i32::MAX,
        room.y1 < i32::MAX,
        room.x2 <= old(map)@.len(),
        forall|i: int| room.x1 < i < room.x2 ==> room.y2 <= (#[trigger] old(map)@[i])@.len(),
    ensures
        final(map)@.len() == old(map)@.len(),
        forall|i: int|
            0 <= i < old(map)@.len() ==> (#[trigger] final(map)@[i])@.len()
                == old(map)@[i]@.len(),
        forall|i: int, j: int|
            0 <= i < old(map)@.len() && 0 <= j < old(map)@[i]@.len()
                ==> #[trigger] final(map)@[i]@[j] == (if in_room_interior(room, i, j) {
                Tile { blocked: false, block_sight: false, explored: false }
            } else {
                old(map)@[i]@[j]
            }),
{
    let mut x = room.x1 + 1;
    while x < room.x2
        invariant
            room.x1 + 1 <= x,
            x <= room.x2 || x == room.x1 + 1,
            0 <= room.x1 <= room.x2,
            0 <= room.y1 <= room.y2,
            room.y1 < i32::MAX,
            room.x2 <= map@.len(),
            forall|i: int| room.x1 < i < room.x2 ==> room.y2 <= (#[trigger] old(map)@[i])@.len(),
            map@.len() == old(map)@.len(),
            forall|i: int|
                0 <= i < old(map)@.len() ==> (#[trigger] map@[i])@.len() == old(map)@[i]@.len(),
            forall|i: int, j: int|
                0 <= i < old(map)@.len() && 0 <= j < old(map)@[i]@.len()
                    ==> #[trigger] map@[i]@[j] == (if in_room_interior(room, i, j) && i < x {
                    Tile { blocked: false, block_sight: false, explored: false }
                } else {
                    old(map)@[i]@[j]
                }),
        decreases room.x2 - x,
    {
        let mut y = room.y1 + 1;
        while y < room.y2
            invariant
                0 <= room.x1,
                room.x1 + 1 <= x < room.x2,
                room.y1 + 1 <= y,
                y <= room.y2 || y == room.y1 + 1,
                0 <= room.y1 <= room.y2,
                room.x2 <= map@.len(),
                forall|i: int|
                    room.x1 < i < room.x2 ==> room.y2 <= (#[trigger] old(map)@[i])@.len(),
                map@.len() == old(map)@.len(),
                forall|i: int|
                    0 <= i < old(map)@.len() ==> (#[trigger] map@[i])@.len()
                        == old(map)@[i]@.len(),
                forall|i: int, j: int|
                    0 <= i < old(map)@.len() && 0 <= j < old(map)@[i]@.len()
                        ==> #[trigger] map@[i]@[j] == (if in_room_interior(room, i, j) && (i < x
                        || (i == x && j < y)) {
                        Tile { blocked: false, block_sight: false, explored: false }
                    } else {
                        old(map)@[i]@[j]
                    }),
            decreases room.y2 - y,
        {
            let xi = x as usize;
            let yi = y as usize;
            map[xi][yi] = Tile::floor();
            y = y + 1;
        }
        x = x + 1;
    }
}

/// Carve a horizontal tunnel across `[min(x1, x2), max(x1, x2)]` at row
/// `y`.
pub fn create_h_tunnel(x1: i32, x2: i32, y: i32, map: &mut Tiles)
    requires
        0 <= x1 < i32::MAX,
        0 <= x2 < i32::MAX,
        0 <= y,
        x1 < old(map)@.len(),
        x2 < old(map)@.len(),
        forall|i: int|
            vstd::math::min(x1 as int, x2 as int) <= i <= vstd::math::max(x1 as int, x2 as int)
                ==> y < (#[trigger] old(map)@[i])@.len(),
    ensures
        final(map)@.len() == old(map)@.len(),
        forall|i: int|
            0 <= i < old(map)@.len() ==> (#[trigger] final(map)@[i])@.len()
                == old(map)@[i]@.len(),
        forall|i: int, j: int|
            0 <= i < old(map)@.len() && 0 <= j < old(map)@[i]@.len()
                ==> #[trigger] final(map)@[i]@[j] == (if vstd::math::min(x1 as int, x2 as int)
                <= i <= vstd::math::max(x1 as int, x2 as int) && j == y {
                Tile { blocked: false, block_sight: false, explored: false }
            } else {
                old(map)@[i]@[j]
            }),
{
    let lo = if x1 < x2 {
        x1
    } else {
        x2
    };
    let hi = if x1 < x2 {
        x2
    } else {
        x1
    };
    let mut x = lo;
    while x <= hi
        invariant
            lo == vstd::math::min(x1 as int, x2 as int),
            hi == vstd::math::max(x1 as int, x2 as int),
            hi < i32::MAX,
            0 <= lo <= x,
            x <= hi + 1,
            0 <= y,
            hi < map@.len(),
            forall|i: int| lo <= i <= hi ==> y < (#[trigger] old(map)@[i])@.len(),
            map@.len() == old(map)@.len(),
            forall|i: int|
                0 <= i < old(map)@.len() ==> (#[trigger] map@[i])@.len() == old(map)@[i]@.len(),
            forall|i: int, j: int|
                0 <= i < old(map)@.len() && 0 <= j < old(map)@[i]@.len()
                    ==> #[trigger] map@[i]@[j] == (if lo <= i < x && j == y {
                    Tile { blocked: false, block_sight: false, explored: false }
                } else {
                    old(map)@[i]@[j]
                }),
        decreases hi + 1 - x,
    {
        let xi = x as usize;
        let yi = y as usize;
        map[xi][yi] = Tile::floor();
        x = x + 1;
    }
}

/// Carve a vertical tunnel across `[min(y1, y2), max(y1, y2)]` at column
/// `x`.
pub fn create_v_tunnel(y1: i32, y2: i32, x: i32, map: &mut Tiles)
    requires
        0 <= y1 < i32::MAX,
        0 <= y2 < i32::MAX,
        0 <= x,
        x < old(map)@.len(),
        vstd::math::max(y1 as int, y2 as int) < old(map)@[x as int]@.len(),
    ensures
        final(map)@.len() == old(map)@.len(),
        forall|i: int|
            0 <= i < old(map)@.len() ==> (#[trigger] final(map)@[i])@.len()
                == old(map)@[i]@.len(),
        forall|i: int, j: int|
            0 <= i < old(map)@.len() && 0 <= j < old(map)@[i]@.len()
                ==> #[trigger] final(map)@[i]@[j] == (if i == x && vstd::math::min(
                y1 as int,
                y2 as int,
            ) <= j <= vstd::math::max(y1 as int, y2 as int) {
                Tile { blocked: false, block_sight: false, explored: false }
            } else {
                old(map)@[i]@[j]
            }),
{
    let lo = if y1 < y2 {
        y1
    } else {
        y2
    };
    let hi = if y1 < y2 {
        y2
    } else {
        y1
    };
    let mut y = lo;
    while y <= hi
        invariant
            lo == vstd::math::min(y1 as int, y2 as int),
            hi == vstd::math::max(y1 as int, y2 as int),
            hi < i32::MAX,
            0 <= lo <= y,
            y <= hi + 1,
            0 <= x < map@.len(),
            hi < map@[x as int]@.len(),
            map@.len() == old(map)@.len(),
            forall|i: int|
                0 <= i < old(map)@.len() ==> (#[trigger] map@[i])@.len() == old(map)@[i]@.len(),
            forall|i: int, j: int|
                0 <= i < old(map)@.len() && 0 <= j < old(map)@[i]@.len()
                    ==> #[trigger] map@[i]@[j] == (if i == x && lo <= j < y {
                    Tile { blocked: false, block_sight: false, explored: false }
                } else {
                    old(map)@[i]@[j]
                }),
        decreases hi + 1 - y,
    {
        let xi = x as usize;
        let yi = y as usize;
        map[xi][yi] = Tile::floor();
        y = y + 1;
    }
}

/// What a freshly placed monster or item row may look like: never the
/// player, never an inventory holder, and never a collider on `forbid`.
pub open spec fn placed_actor_ok(a: Actor, forbid: Position) -> bool {
    &&& a.player is None
    &&& a.inventory is None
    &&& (a.collider is Some ==> a.position is Some && a.position.unwrap() != forbid)
}

/// Populate one room with a random handful of monsters and items, keeping
/// every spot that is blocked — and the tile `forbid`, reserved for the
/// player's spawn — free of new colliders.
pub fn place_objects(room: Rect, forbid: Position, w: &mut GameWorld)
    requires
        world_wf(old(w)),
        0 <= room.x1,
        0 <= room.y1,
        room.x1 + 1 < room.x2,
        room.y1 + 1 < room.y2,
        room.x2 <= 0x2000_0000,
        room.y2 <= 0x2000_0000,
    ensures
        world_wf(final(w)),
        final(w).actors@.len() >= old(w).actors@.len(),
        forall|j: int|
            0 <= j < old(w).actors@.len() ==> final(w).actors@[j] == old(w).actors@[j],
        forall|j: int|
            old(w).actors@.len() <= j < final(w).actors@.len() ==> placed_actor_ok(
                #[trigger] final(w).actors@[j],
                forbid,
            ),
        final(w).map == old(w).map,
        final(w).messages == old(w).messages,
        final(w).state == old(w).state,
        final(w).input == old(w).input,
        final(w).menu == old(w).menu,
        final(w).targeting == old(w).targeting,
{
    let num_monsters = rand_range(0, MAX_ROOM_MONSTERS + 1);
    let mut m: i32 = 0;
    while m < num_monsters
        invariant
            world_wf(w),
            0 <= room.x1,
            0 <= room.y1,
            room.x1 + 1 < room.x2,
            room.y1 + 1 < room.y2,
            room.x2 <= 0x2000_0000,
            room.y2 <= 0x2000_0000,
            w.actors@.len() >= old(w).actors@.len(),
            forall|j: int| 0 <= j < old(w).actors@.len() ==> w.actors@[j] == old(w).actors@[j],
            forall|j: int|
                old(w).actors@.len() <= j < w.actors@.len() ==> placed_actor_ok(
                    #[trigger] w.actors@[j],
                    forbid,
                ),
            w.map == old(w).map,
            w.messages == old(w).messages,
            w.state == old(w).state,
            w.input == old(w).input,
            w.menu == old(w).menu,
            w.targeting == old(w).targeting,
        decreases num_monsters - m,
    {
        let x = rand_range(room.x1 + 1, room.x2);
        let y = rand_range(room.y1 + 1, room.y2);
        let position = Position { x, y };
        let blocked = w.is_blocked(&position);
        if !blocked && !(position.x == forbid.x && position.y == forbid.y) {
            let actor = if rand_range(0, 100) < 80 {
                Actor {
                    position: Some(position),
                    prev_position: None,
                    velocity: Some(Velocity::new()),
                    living: Some(Living { alive: true, max_hp: 10, hp: 10, defense: 0 }),
                    power: Some(Power(3)),
                    energy: Some(Energy::new()),
                    ai: Some(Ai::Basic),
                    player: None,
                    collider: Some(Collider::new()),
                    inventory: None,
                    item: None,
                    name: Some(Name::new("orc")),
                    visual: Some(
                        Visual {
                            glyph: 'o',
                            color: Color::DesaturatedGreen,
                            always_visible: false,
                        },
                    ),
                    action: Some(Action::noop()),
                }
            } else {
                Actor {
                    position: Some(position),
                    prev_position: None,
                    velocity: Some(Velocity::new()),
                    living: Some(Living { alive: true, max_hp: 16, hp: 16, defense: 1 }),
                    power: Some(Power(4)),
                    energy: Some(Energy::new()),
                    ai: Some(Ai::Basic),
                    player: None,
                    collider: Some(Collider::new()),
                    inventory: None,
                    item: None,
                    name: Some(Name::new("troll")),
                    visual: Some(
                        Visual { glyph: 'T', color: Color::DarkerGreen, always_visible: false },
                    ),
                    action: Some(Action::noop()),
                }
            };
            proof {
                lemma_push_preserves_wf(w.actors@, actor);
            }
            w.actors.push(actor);
        }
        m = m + 1;
    }
    let num_items = rand_range(0, MAX_ROOM_ITEMS + 1);
    let mut it: i32 = 0;
    while it < num_items
        invariant
            world_wf(w),
            0 <= room.x1,
            0 <= room.y1,
            room.x1 + 1 < room.x2,
            room.y1 + 1 < room.y2,
            room.x2 <= 0x2000_0000,
            room.y2 <= 0x2000_0000,
            w.actors@.len() >= old(w).actors@.len(),
            forall|j: int| 0 <= j < old(w).actors@.len() ==> w.actors@[j] == old(w).actors@[j],
            forall|j: int|
                old(w).actors@.len() <= j < w.actors@.len() ==> placed_actor_ok(
                    #[trigger] w.actors@[j],
                    forbid,
                ),
            w.map == old(w).map,
            w.messages == old(w).messages,
            w.state == old(w).state,
            w.input == old(w).input,
            w.menu == old(w).menu,
            w.targeting == old(w).targeting,
        decreases num_items - it,
    {
        let x = rand_range(room.x1 + 1, room.x2);
        let y = rand_range(room.y1 + 1, room.y2);
        let position = Position { x, y };
        let blocked = w.is_blocked(&position);
        if !blocked {
            let dice = rand_range(0, 100);
            let (kind, glyph, color, label): (Item, char, Color, &str) = if dice < 70 {
                (Item::Heal, '!', Color::Violet, "healing potion")
            } else if dice < 80 {
                (Item::Lightning, '#', Color::LightYellow, "scroll of lightning bolt")
            } else if dice < 90 {
                (Item::Confuse, '#', Color::LightBlue, "scroll of confusion")
            } else {
                (Item::Fireball, '#', Color::DarkRed, "scroll of fireball")
            };
            let actor = Actor {
                position: Some(position),
                prev_position: None,
                velocity: None,
                living: None,
                power: None,
                energy: None,
                ai: None,
                player: None,
                collider: None,
                inventory: None,
                item: Some(kind),
                name: Some(Name::new(label)),
                visual: Some(Visual { glyph, color, always_visible: false }),
                action: None,
            };
            proof {
                lemma_push_preserves_wf(w.actors@, actor);
            }
            w.actors.push(actor);
        }
        it = it + 1;
    }
}

/// A room kept by the generator: inside the map with a wall border and
/// wide enough to place objects in.
pub open spec fn room_ok(r: Rect) -> bool {
    &&& 0 <= r.x1
    &&& r.x1 + 2 <= r.x2
    &&& r.x2 <= MAP_WIDTH - 1
    &&& 0 <= r.y1
    &&& r.y1 + 2 <= r.y2
    &&& r.y2 <= MAP_HEIGHT - 1
}

/// Generate a fresh level: random non-overlapping rooms joined by
/// tunnels, monsters and items placed on free floor, stairs in the last
/// room, and the spawn point at the center of the first. New actors are
/// never the player, and no new collider stands on the spawn point.
pub fn generate_map(w: &mut GameWorld)
    requires
        world_wf(old(w)),
    ensures
        world_wf(final(w)),
        final(w).actors@.len() >= old(w).actors@.len(),
        forall|j: int|
            0 <= j < old(w).actors@.len() ==> final(w).actors@[j] == old(w).actors@[j],
        forall|j: int|
            old(w).actors@.len() <= j < final(w).actors@.len() ==> placed_actor_ok(
                #[trigger] final(w).actors@[j],
                final(w).map.spawn_point,
            ),
        grid_view(final(w).map.tiles).len() == MAP_WIDTH,
        forall|i: int|
            0 <= i < MAP_WIDTH ==> (#[trigger] grid_view(final(w).map.tiles)[i]).len()
                == MAP_HEIGHT,
        0 <= final(w).map.spawn_point.x < MAP_WIDTH,
        0 <= final(w).map.spawn_point.y < MAP_HEIGHT,
        final(w).messages == old(w).messages,
        final(w).state == old(w).state,
        final(w).input == old(w).input,
        final(w).menu == old(w).menu,
        final(w).targeting == old(w).targeting,
{
    // Start from solid wall.
    let mut tiles: Tiles = Vec::new();
    let mut cx: i32 = 0;
    while cx < MAP_WIDTH
        invariant
            0 <= cx <= MAP_WIDTH,
            tiles@.len() == cx,
            forall|i: int| 0 <= i < cx ==> (#[trigger] tiles@[i])@.len() == MAP_HEIGHT,
        decreases MAP_WIDTH - cx,
    {
        let mut col: Vec<Tile> = Vec::new();
        let mut cy: i32 = 0;
        while cy < MAP_HEIGHT
            invariant
                0 <= cy <= MAP_HEIGHT,
                col@.len() == cy,
            decreases MAP_HEIGHT - cy,
        {
            col.push(Tile::wall());
            cy = cy + 1;
        }
        tiles.push(col);
        cx = cx + 1;
    }
    // Carve random rooms, connecting each to the previous one.
    let mut rooms: Vec<Rect> = Vec::new();
    let mut attempt: i32 = 0;
    while attempt < MAX_ROOMS
        invariant
            0 <= attempt <= MAX_ROOMS,
            attempt >= 1 ==> rooms@.len() >= 1,
            forall|k: int| 0 <= k < rooms@.len() ==> room_ok(#[trigger] rooms@[k]),
            tiles@.len() == MAP_WIDTH,
            forall|i: int|
                0 <= i < MAP_WIDTH ==> (#[trigger] tiles@[i])@.len() == MAP_HEIGHT,
        decreases MAX_ROOMS - attempt,
    {
        let rw = rand_range(ROOM_MIN_SIZE, ROOM_MAX_SIZE + 1);
        let rh = rand_range(ROOM_MIN_SIZE, ROOM_MAX_SIZE + 1);
        let x = rand_range(0, MAP_WIDTH - rw);
        let y = rand_range(0, MAP_HEIGHT - rh);
        let new_room = Rect::new(x, y, rw, rh);
        let mut failed = false;
        let mut k: usize = 0;
        while k < rooms.len()
            invariant
                forall|j: int| 0 <= j < rooms@.len() ==> room_ok(#[trigger] rooms@[j]),
                rooms@.len() == 0 ==> !failed,
            decreases rooms@.len() - k,
        {
            if new_room.intersects_with(&rooms[k]) {
                failed = true;
            }
            k = k + 1;
        }
        if !failed {
            create_room(new_room, &mut tiles);
            if rooms.len() > 0 {
                let prev = rooms[rooms.len() - 1];
                let (prev_x, prev_y) = prev.center();
                let (new_x, new_y) = new_room.center();
                if coin_flip() {
                    // first move horizontally, then vertically
                    create_h_tunnel(prev_x, new_x, prev_y, &mut tiles);
                    create_v_tunnel(prev_y, new_y, new_x, &mut tiles);
                } else {
                    // first move vertically, then horizontally
                    create_v_tunnel(prev_y, new_y, prev_x, &mut tiles);
                    create_h_tunnel(prev_x, new_x, new_y, &mut tiles);
                }
            }
            rooms.push(new_room);
        }
        attempt = attempt + 1;
    }
    // The player starts at the center of the first room.
    let first = rooms[0];
    let (sx, sy) = first.center();
    let spawn = Position { x: sx, y: sy };
    w.map = GameMap { tiles, spawn_point: spawn };
    // Populate every room, keeping the spawn tile free.
    let ghost entry_len = w.actors@.len();
    let mut r: usize = 0;
    while r < rooms.len()
        invariant
            world_wf(w),
            forall|k: int| 0 <= k < rooms@.len() ==> room_ok(#[trigger] rooms@[k]),
            w.actors@.len() >= entry_len,
            entry_len == old(w).actors@.len(),
            forall|j: int| 0 <= j < entry_len ==> w.actors@[j] == old(w).actors@[j],
            forall|j: int|
                entry_len <= j < w.actors@.len() ==> placed_actor_ok(
                    #[trigger] w.actors@[j],
                    spawn,
                ),
            w.map.spawn_point == spawn,
            grid_view(w.map.tiles).len() == MAP_WIDTH,
            forall|i: int|
                0 <= i < MAP_WIDTH ==> (#[trigger] grid_view(w.map.tiles)[i]).len()
                    == MAP_HEIGHT,
            0 <= spawn.x < MAP_WIDTH,
            0 <= spawn.y < MAP_HEIGHT,
            w.messages == old(w).messages,
            w.state == old(w).state,
            w.input == old(w).input,
            w.menu == old(w).menu,
            w.targeting == old(w).targeting,
        decreases rooms@.len() - r,
    {
        let room = rooms[r];
        place_objects(room, spawn, w);
        r = r + 1;
    }
    // Stairs down at the center of the last room.
    let last = rooms[rooms.len() - 1];
    let (lx, ly) = last.center();
    let stairs = Actor {
        position: Some(Position { x: lx, y: ly }),
        prev_position: None,
        velocity: None,
        living: None,
        power: None,
        energy: None,
        ai: None,
        player: None,
        collider: None,
        inventory: None,
        item: None,
        name: Some(Name::new("stairs")),
        visual: Some(Visual { glyph: '>', color: Color::White, always_visible: true }),
        action: None,
    };
    proof {
        lemma_push_preserves_wf(w.actors@, stairs);
    }
    w.actors.push(stairs);
}


impl GameMap {
    /// A small fixed test level: two carved rooms joined by one tunnel,
    /// with the spawn point inside the tunnel.
    pub fn new_simple() -> (r: GameMap)
        ensures
            r.tiles@.len() == MAP_WIDTH,
            forall|i: int|
                0 <= i < MAP_WIDTH ==> (#[trigger] r.tiles@[i])@.len() == MAP_HEIGHT,
            r.spawn_point == (Position { x: 25, y: 23 }),
            crate::world::map_ok(&r),
    {
        let mut tiles: Tiles = Vec::new();
        let mut cx: i32 = 0;
        while cx < MAP_WIDTH
            invariant
                0 <= cx <= MAP_WIDTH,
                tiles@.len() == cx,
                forall|i: int| 0 <= i < cx ==> (#[trigger] tiles@[i])@.len() == MAP_HEIGHT,
            decreases MAP_WIDTH - cx,
        {
            let mut col: Vec<Tile> = Vec::new();
            let mut cy: i32 = 0;
            while cy < MAP_HEIGHT
                invariant
                    0 <= cy <= MAP_HEIGHT,
                    col@.len() == cy,
                decreases MAP_HEIGHT - cy,
            {
                col.push(Tile::wall());
                cy = cy + 1;
            }
            tiles.push(col);
            cx = cx + 1;
        }
        // Carve out a couple of rooms and join them.
        create_room(Rect::new(20, 15, 10, 15), &mut tiles);
        create_room(Rect::new(50, 15, 10, 15), &mut tiles);
        create_h_tunnel(25, 55, 23, &mut tiles);
        let r = GameMap { tiles, spawn_point: Position { x: 25, y: 23 } };
        proof {
            assert forall|i: int|
                0 <= i < MAP_WIDTH implies (#[trigger] grid_view(r.tiles)[i]).len()
                == MAP_HEIGHT by {
                assert(grid_view(r.tiles)[i] == r.tiles@[i]@);
            }
        }
        r
    }

    /// Generate a fresh random level into the world.
    pub fn new_random(w: &mut GameWorld)
        requires
            crate::world::world_wf(old(w)),
        ensures
            crate::world::world_wf(final(w)),
            final(w).actors@.len() >= old(w).actors@.len(),
            forall|j: int|
                0 <= j < old(w).actors@.len() ==> final(w).actors@[j] == old(w).actors@[j],
            final(w).state == old(w).state,
    {
        generate_map(w)
    }
}


} // verus!
