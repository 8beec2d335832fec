use vstd::prelude::*;
use vstd::std_specs::convert::FromSpecImpl;

use crate::component::direction::Direction;
use crate::constants::TILE_SIZE;

verus! {

/// A point of the world. `x` grows to the right and `y` grows upwards, so the
/// rows of a region, which are counted downwards, lie at `y <= 0`.
#[derive(PartialEq, Eq, Structural, Copy, Clone, Debug)]
pub struct Position {
    pub x: i32,
    pub y: i32,
}

/// The row and column of a tile within a region.
#[derive(PartialEq, Eq, Structural, Copy, Clone, Debug)]
pub struct TileCoords {
    pub row: usize,
    pub col: usize,
}

/// `value` brought into the range of a coordinate.
pub open spec fn saturated(value: int) -> int {
    if value < i32::MIN {
        i32::MIN as int
    } else if value > i32::MAX {
        i32::MAX as int
    } else {
        value
    }
}

/// The column of the tile that covers the points at `x`, for `x >= 0`.
pub open spec fn column_of(x: int) -> int {
    x / (TILE_SIZE as int)
}

/// The row of the tile that covers the points at `y`, for `y <= 0`.
pub open spec fn row_of(y: int) -> int {
    (-y) / (TILE_SIZE as int)
}

/// Whether terrain can exist at the point: at `x >= 0` and `y <= 0`.
pub open spec fn in_terrain_quadrant(x: int, y: int) -> bool {
    x >= 0 && y <= 0
}

/// Brings `value` into the range of a coordinate.
pub fn saturate(value: i64) -> (coordinate: i32)
    ensures
        coordinate == saturated(value as int),
{
    if value < i32::MIN as i64 {
        i32::MIN
    } else if value > i32::MAX as i64 {
        i32::MAX
    } else {
        value as i32
    }
}

impl Position {
    /// The point `distance` steps from this one in the given direction, or
    /// the nearest point to it that coordinates can express.
    pub open spec fn moved(&self, direction: Direction, distance: int) -> Position {
        match direction {
            Direction::Up => Position { x: self.x, y: saturated(self.y + distance) as i32 },
            Direction::Down => Position { x: self.x, y: saturated(self.y - distance) as i32 },
            Direction::Left => Position { x: saturated(self.x - distance) as i32, y: self.y },
            Direction::Right => Position { x: saturated(self.x + distance) as i32, y: self.y },
        }
    }

    /// Computes the point `distance` steps from this one in the given
    /// direction.
    pub fn step(&self, direction: Direction, distance: i64) -> (reached: Position)
        requires
            -0x1_0000_0000 <= distance <= 0x1_0000_0000,
        ensures
            reached == self.moved(direction, distance as int),
    {
        match direction {
            Direction::Up => Position { x: self.x, y: saturate(self.y as i64 + distance) },
            Direction::Down => Position { x: self.x, y: saturate(self.y as i64 - distance) },
            Direction::Left => Position { x: saturate(self.x as i64 - distance), y: self.y },
            Direction::Right => Position { x: saturate(self.x as i64 + distance), y: self.y },
        }
    }

    /// The tile that covers this point, if the point lies where terrain can
    /// exist.
    pub open spec fn tile(&self) -> Option<TileCoords> {
        if self.x < 0 || self.y > 0 {
            None
        } else {
            Some(
                TileCoords {
                    row: row_of(self.y as int) as usize,
                    col: column_of(self.x as int) as usize,
                },
            )
        }
    }
}

impl TileCoords {
    /// The point at which something placed on this tile stands: the corner
    /// of the tile nearest the origin, or the nearest point to it that
    /// coordinates can express.
    pub open spec fn anchor(&self) -> Position {
        Position {
            x: saturated(self.col * TILE_SIZE) as i32,
            y: saturated(-(self.row * TILE_SIZE)) as i32,
        }
    }
}

impl From<TileCoords> for Position {
    fn from(tile_coords: TileCoords) -> (position: Position) {
        let limit: usize = (i32::MAX / TILE_SIZE) as usize;
        let x: i32 = if tile_coords.col <= limit {
            tile_coords.col as i32 * TILE_SIZE
        } else {
            i32::MAX
        };
        let y: i32 = if tile_coords.row <= limit {
            -(tile_coords.row as i32 * TILE_SIZE)
        } else {
            i32::MIN
        };
        Position { x, y }
    }
}

impl FromSpecImpl<TileCoords> for Position {
    open spec fn obeys_from_spec() -> bool {
        true
    }

    open spec fn from_spec(tile_coords: TileCoords) -> Position {
        tile_coords.anchor()
    }
}

impl From<Position> for Option<TileCoords> {
    fn from(position: Position) -> (tile_coords: Option<TileCoords>) {
        if position.x < 0 || position.y > 0 {
            None
        } else {
            let row: i64 = -(position.y as i64) / (TILE_SIZE as i64);
            let col: i64 = position.x as i64 / (TILE_SIZE as i64);
            Some(TileCoords { row: row as usize, col: col as usize })
        }
    }
}

impl FromSpecImpl<Position> for Option<TileCoords> {
    open spec fn obeys_from_spec() -> bool {
        true
    }

    open spec fn from_spec(position: Position) -> Option<TileCoords> {
        position.tile()
    }
}

/// A tile's anchor lies on the tile itself, as long as coordinates can
/// express it.
pub proof fn lemma_anchor_lies_on_tile(tile_coords: TileCoords)
    requires
        tile_coords.row * TILE_SIZE <= i32::MAX,
        tile_coords.col * TILE_SIZE <= i32::MAX,
    ensures
        tile_coords.anchor().tile() == Some(tile_coords),
{
}

/// Every point where terrain can exist lies within the bounds of its tile:
/// at most one tile size to the right of and below the tile's anchor.
pub proof fn lemma_tile_covers_point(position: Position)
    requires
        position.x >= 0,
        position.y <= 0,
    ensures
        position.tile() matches Some(tile_coords) && {
            &&& tile_coords.col * TILE_SIZE <= position.x < (tile_coords.col + 1) * TILE_SIZE
            &&& -(tile_coords.row + 1) * TILE_SIZE < position.y <= -(tile_coords.row * TILE_SIZE)
        },
{
}

} // verus!
