use vstd::prelude::*;

use crate::component::position::{column_of, in_terrain_quadrant, row_of, Position, TileCoords};
use crate::component::terrain::Terrain;
use crate::constants::{MAX_REGION_SPAN, TILE_SIZE};
use crate::resource::entrance::Entrance;
use crate::resource::exit::Exit;

verus! {

/// A set of tiles representing a game region, with links to other regions.
pub struct Region {
    row_count: usize,
    col_count: usize,
    tiles: Vec<Terrain>,
    entrances: Vec<Entrance>,
    exits: Vec<Exit>,
}

/// Resource for accessing the currently active region.
pub struct CurrentRegion {
    region: Option<Region>,
}

/// Whether the exit at `index` is the first of `exits` that lies on the
/// tile.
pub open spec fn is_first_exit_at(exits: Seq<Exit>, tile_coords: TileCoords, index: int) -> bool {
    &&& 0 <= index < exits.len()
    &&& exits[index].location == tile_coords
    &&& forall|earlier: int| 0 <= earlier < index ==> (#[trigger] exits[earlier]).location != tile_coords
}

/// Whether any of `exits` lies on the tile.
pub open spec fn has_exit_at(exits: Seq<Exit>, tile_coords: TileCoords) -> bool {
    exists|index: int| 0 <= index < exits.len() && (#[trigger] exits[index]).location == tile_coords
}

/// The place of the tile at `row` and `col` in a row-major list of the tiles
/// of a grid that is `col_count` tiles wide.
pub open spec fn tile_index(row: int, col: int, col_count: int) -> int {
    row * col_count + col
}

impl Region {
    /// The number of rows of tiles.
    pub closed spec fn rows(&self) -> int {
        self.row_count as int
    }

    /// The number of columns of tiles.
    pub closed spec fn cols(&self) -> int {
        self.col_count as int
    }

    /// The terrain of every tile, row by row.
    pub closed spec fn tiles(&self) -> Seq<Terrain> {
        self.tiles@
    }

    /// The entrances into this region.
    pub closed spec fn spec_entrances(&self) -> Seq<Entrance> {
        self.entrances@
    }

    /// The exits from this region.
    pub closed spec fn spec_exits(&self) -> Seq<Exit> {
        self.exits@
    }

    /// The grid is complete and small enough for coordinates to reach all
    /// of it.
    pub open spec fn wf(&self) -> bool {
        &&& 0 <= self.rows() <= MAX_REGION_SPAN
        &&& 0 < self.cols() <= MAX_REGION_SPAN
        &&& self.rows() * self.cols() <= self.tiles().len()
    }

    /// The terrain of the tile at `row` and `col`, if the grid has such a
    /// tile.
    pub open spec fn terrain_at(&self, row: int, col: int) -> Option<Terrain> {
        if 0 <= row < self.rows() && 0 <= col < self.cols() {
            Some(self.tiles()[tile_index(row, col, self.cols())])
        } else {
            None
        }
    }

    /// The terrain that covers the point, if any does.
    pub open spec fn terrain_over(&self, x: int, y: int) -> Option<Terrain> {
        if in_terrain_quadrant(x, y) {
            self.terrain_at(row_of(y), column_of(x))
        } else {
            None
        }
    }

    /// Whether the point lies on a tile that blocks movement. Where there
    /// is no terrain, nothing blocks.
    pub open spec fn blocks(&self, x: int, y: int) -> bool {
        match self.terrain_over(x, y) {
            Some(terrain) => terrain.blocks_movement(),
            None => false,
        }
    }

    /// Lays out `terrain` row by row in a grid that is `col_count` tiles
    /// wide. Tiles that do not fill a whole row are left out of the grid.
    pub fn new(
        col_count: usize,
        terrain: Vec<Terrain>,
        entrances: Vec<Entrance>,
        exits: Vec<Exit>,
    ) -> (region: Region)
        requires
            0 < col_count <= MAX_REGION_SPAN,
            terrain.len() / col_count <= MAX_REGION_SPAN,
        ensures
            region.wf(),
            region.cols() == col_count,
            region.rows() == terrain.len() / col_count,
            region.tiles() == terrain@,
            region.spec_entrances() == entrances@,
            region.spec_exits() == exits@,
    {
        let row_count: usize = terrain.len() / col_count;
        proof {
            vstd::arithmetic::div_mod::lemma_fundamental_div_mod(
                terrain.len() as int,
                col_count as int,
            );
            vstd::arithmetic::mul::lemma_mul_is_commutative(row_count as int, col_count as int);
        }
        Region { row_count, col_count, tiles: terrain, entrances, exits }
    }

    /// The entrances into this region.
    pub fn entrances(&self) -> (entrances: &Vec<Entrance>)
        ensures
            entrances@ == self.spec_entrances(),
    {
        &self.entrances
    }

    /// The exits from this region.
    pub fn exits(&self) -> (exits: &Vec<Exit>)
        ensures
            exits@ == self.spec_exits(),
    {
        &self.exits
    }

    /// Finds the first exit that lies on the given tile.
    pub fn exit_at(&self, tile_coords: TileCoords) -> (found: Option<usize>)
        ensures
            found.is_some() == has_exit_at(self.spec_exits(), tile_coords),
            found matches Some(index) ==> is_first_exit_at(
                self.spec_exits(),
                tile_coords,
                index as int,
            ),
    {
        let mut index: usize = 0;
        while index < self.exits.len()
            invariant
                index <= self.exits@.len(),
                forall|earlier: int|
                    0 <= earlier < index ==> (#[trigger] self.exits@[earlier]).location
                        != tile_coords,
            decreases self.exits@.len() - index,
        {
            if self.exits[index].location == tile_coords {
                return Some(index);
            }
            index = index + 1;
        }
        None
    }

    /// The number of rows of tiles.
    pub fn row_count(&self) -> (row_count: usize)
        ensures
            row_count == self.rows(),
    {
        self.row_count
    }

    /// The number of columns of tiles.
    pub fn col_count(&self) -> (col_count: usize)
        ensures
            col_count == self.cols(),
    {
        self.col_count
    }

    /// Gets the terrain at the given `row` and `col`, if any.
    pub fn terrain_at_tile_coords(&self, tile_coords: TileCoords) -> (terrain: Option<Terrain>)
        requires
            self.wf(),
        ensures
            terrain == self.terrain_at(tile_coords.row as int, tile_coords.col as int),
    {
        // Ensure coordinates are in bounds.
        if tile_coords.row >= self.row_count || tile_coords.col >= self.col_count {
            return None;
        }
        proof {
            lemma_tile_index_is_in_bounds(
                tile_coords.row as int,
                tile_coords.col as int,
                self.row_count as int,
                self.col_count as int,
            );
            assert(tile_coords.row * self.col_count <= 50_000 * 50_000) by (nonlinear_arith)
                requires
                    tile_coords.row <= 50_000,
                    self.col_count <= 50_000,
            ;
        }
        // Compute index.
        let index: usize = tile_coords.row * self.col_count + tile_coords.col;
        // Get terrain.
        Some(self.tiles[index])
    }

    /// Gets the terrain at the given (`x`, `y`) coordinates, if any.
    pub fn terrain_at_position(&self, position: Position) -> (terrain: Option<Terrain>)
        requires
            self.wf(),
        ensures
            terrain == self.terrain_over(position.x as int, position.y as int),
    {
        let tile_coords: Option<TileCoords> = Option::from(position);
        match tile_coords {
            Some(tile_coords) => self.terrain_at_tile_coords(tile_coords),
            None => None,
        }
    }

    /// Determines whether the tile that covers the point blocks movement.
    /// The point may lie beyond the reach of coordinates, where nothing does.
    pub fn is_wall(&self, x: i64, y: i64) -> (blocked: bool)
        requires
            self.wf(),
        ensures
            blocked == self.blocks(x as int, y as int),
    {
        if x < 0 || y > 0 || x > i32::MAX as i64 || y < i32::MIN as i64 {
            proof {
                if in_terrain_quadrant(x as int, y as int) {
                    assert(column_of(x as int) >= self.cols() || row_of(y as int) >= self.rows());
                }
            }
            return false;
        }
        match self.terrain_at_position(Position { x: x as i32, y: y as i32 }) {
            Some(terrain) => terrain.blocks_movement(),
            None => false,
        }
    }
}

impl CurrentRegion {
    /// The region that is active, if one was set.
    pub closed spec fn current(&self) -> Option<Region> {
        self.region
    }

    /// Creates an empty current region.
    pub fn new() -> (holder: CurrentRegion)
        ensures
            holder.current().is_none(),
    {
        CurrentRegion { region: None }
    }

    /// Tells whether no region was set.
    pub fn is_empty(&self) -> (empty: bool)
        ensures
            empty == self.current().is_none(),
    {
        self.region.is_none()
    }

    /// Sets the current region.
    pub fn set(&mut self, region: Region)
        ensures
            final(self).current() == Some(region),
    {
        self.region = Some(region);
    }

    /// Gets a reference to the current region.
    pub fn get(&self) -> (region: &Region)
        requires
            self.current().is_some(),
        ensures
            Some(*region) == self.current(),
    {
        self.region.as_ref().unwrap()
    }
}

impl Default for CurrentRegion {
    fn default() -> (holder: CurrentRegion)
        ensures
            holder.current().is_none(),
    {
        CurrentRegion::new()
    }
}

/// A tile within the grid has its place within the list of tiles.
pub proof fn lemma_tile_index_is_in_bounds(row: int, col: int, row_count: int, col_count: int)
    requires
        0 <= row < row_count,
        0 <= col < col_count,
    ensures
        0 <= tile_index(row, col, col_count) < row_count * col_count,
        0 <= row * col_count <= row_count * col_count,
{
    assert(0 <= row * col_count && row * col_count + col < row_count * col_count
        && row * col_count <= row_count * col_count) by (nonlinear_arith)
        requires
            0 <= row < row_count,
            0 <= col < col_count,
    ;
}

/// Two different tiles of the grid have different places in the list of
/// tiles.
pub proof fn lemma_tile_index_is_injective(
    first_row: int,
    first_col: int,
    second_row: int,
    second_col: int,
    col_count: int,
)
    requires
        0 <= first_col < col_count,
        0 <= second_col < col_count,
        tile_index(first_row, first_col, col_count) == tile_index(
            second_row,
            second_col,
            col_count,
        ),
    ensures
        first_row == second_row,
        first_col == second_col,
{
    assert(first_row == second_row) by (nonlinear_arith)
        requires
            0 <= first_col < col_count,
            0 <= second_col < col_count,
            first_row * col_count + first_col == second_row * col_count + second_col,
    ;
    assert(first_col == second_col) by (nonlinear_arith)
        requires
            first_row == second_row,
            first_row * col_count + first_col == second_row * col_count + second_col,
    ;
}

/// Beyond the grid, and anywhere outside the quadrant that terrain can
/// cover, nothing blocks movement.
pub proof fn lemma_nothing_blocks_outside_the_grid(region: Region, x: int, y: int)
    requires
        region.wf(),
        x < 0 || y > 0 || x >= region.cols() * TILE_SIZE || y <= -(region.rows() * TILE_SIZE),
    ensures
        !region.blocks(x, y),
{
    if in_terrain_quadrant(x, y) {
        if x >= region.cols() * TILE_SIZE {
            assert(column_of(x) >= region.cols());
        } else {
            assert(row_of(y) >= region.rows());
        }
    }
}

} // verus!
