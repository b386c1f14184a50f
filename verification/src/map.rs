//! The tile grid: terrain the engine reads but never mutates, except for
//! the fog-of-war exploration flags.

use crate::position::Position;
use vstd::prelude::*;

verus! {

pub const MAP_WIDTH: i32 = 80;

pub const MAP_HEIGHT: i32 = 43;

/// One terrain cell.
#[derive(Clone, Copy, Debug, PartialEq, Eq, Structural)]
pub struct Tile {
    pub blocked: bool,
    pub block_sight: bool,
    pub explored: bool,
}

impl Tile {
    /// Walkable, transparent, unexplored.
    pub fn floor() -> (r: Tile)
        ensures
            r == (Tile { blocked: false, block_sight: false, explored: false }),
    {
        Tile { blocked: false, block_sight: false, explored: false }
    }

    /// Impassable and opaque.
    pub fn wall() -> (r: Tile)
        ensures
            r == (Tile { blocked: true, block_sight: true, explored: false }),
    {
        Tile { blocked: true, block_sight: true, explored: false }
    }
}

pub type Tiles = Vec<Vec<Tile>>;

/// The current level's terrain, in column-major tile columns, plus the
/// player's spawn point.
#[derive(Clone, Debug, PartialEq, Eq)]
pub struct GameMap {
    pub tiles: Tiles,
    pub spawn_point: Position,
}

/// Whether a position names a tile of the grid.
pub open spec fn in_bounds(tiles: Seq<Seq<Tile>>, p: Position) -> bool {
    &&& 0 <= p.x < tiles.len()
    &&& 0 <= p.y < tiles[p.x as int].len()
}

/// Whether terrain blocks the position: walls do, and so does the void
/// beyond the grid's edge.
pub open spec fn tile_blocked(tiles: Seq<Seq<Tile>>, p: Position) -> bool {
    if in_bounds(tiles, p) {
        tiles[p.x as int][p.y as int].blocked
    } else {
        true
    }
}

/// The view of a tile grid as a sequence of tile columns.
pub open spec fn grid_view(tiles: Tiles) -> Seq<Seq<Tile>> {
    tiles@.map_values(|col: Vec<Tile>| col@)
}

impl GameMap {
    /// A placeholder map holding no terrain; replaced before play.
    pub fn empty() -> (r: GameMap)
        ensures
            r.spawn_point == (Position { x: 0, y: 0 }),
            grid_view(r.tiles).len() == 1,
            grid_view(r.tiles)[0].len() == 0,
    {
        let mut tiles: Tiles = Vec::new();
        tiles.push(Vec::new());
        GameMap { tiles, spawn_point: Position { x: 0, y: 0 } }
    }

    /// Whether terrain blocks movement onto `pos`.
    pub fn tile_is_blocked(&self, pos: &Position) -> (r: bool)
        ensures
            r == tile_blocked(grid_view(self.tiles), *pos),
    {
        if pos.x < 0 || pos.y < 0 {
            return true;
        }
        let x = pos.x as usize;
        let y = pos.y as usize;
        if x >= self.tiles.len() {
            return true;
        }
        let column = &self.tiles[x];
        if y >= column.len() {
            return true;
        }
        column[y].blocked
    }

    /// Read the tile under `pos`.
    pub fn tile(&self, pos: &Position) -> (r: Tile)
        requires
            in_bounds(grid_view(self.tiles), *pos),
        ensures
            r == grid_view(self.tiles)[pos.x as int][pos.y as int],
    {
        self.tiles[pos.x as usize][pos.y as usize]
    }
}

} // verus!
