use adventure_sim::component::collider::RectangleCollider;
use adventure_sim::component::{ArrowAttack, Direction, Faction, Position, Terrain, TileCoords};
use adventure_sim::constants::{HALF_TILE, MAX_REGION_SPAN, TILE_SIZE, UNIT};
use adventure_sim::resource::{CurrentRegion, Entrance, Exit, Region};
use adventure_sim::system::static_collision_detection::{all_bodies_fit, Pushed};
use adventure_sim::system::terrain_response::{overlaps_wall, push_out_of_terrain, push_toward};
use adventure_sim::system::{Collision, StaticCollisionDetection};
use adventure_sim::world::{Entity, World};

/// Lays out a region from rows of characters: `#` is a wall, `~` is ocean
/// and anything else is floor.
fn region_of(rows: &[&str]) -> Region {
    let col_count = rows[0].len();
    let mut terrain: Vec<Terrain> = Vec::new();
    for row in rows {
        for tile in row.chars() {
            terrain.push(match tile {
                '#' => Terrain::Wall,
                '~' => Terrain::Ocean,
                _ => Terrain::Floor,
            });
        }
    }
    Region::new(col_count, terrain, Vec::new(), Vec::new())
}

fn rect(half_width: i32, half_height: i32) -> RectangleCollider {
    RectangleCollider { half_width, half_height }
}

/// A position in world units.
fn at(x: i32, y: i32) -> Position {
    Position { x: x * UNIT, y: y * UNIT }
}

fn body() -> RectangleCollider {
    rect(HALF_TILE, HALF_TILE)
}

#[test]
fn region_is_laid_out_row_by_row() {
    let terrain = vec![
        Terrain::Floor,
        Terrain::Wall,
        Terrain::Grass,
        Terrain::Forest,
        Terrain::Stone,
        Terrain::Mountain,
        Terrain::Snow,
    ];
    let region = Region::new(3, terrain, Vec::new(), Vec::new());
    assert_eq!(region.col_count(), 3);
    // The seventh tile does not fill a row.
    assert_eq!(region.row_count(), 2);
    assert_eq!(region.terrain_at_tile_coords(TileCoords { row: 0, col: 0 }), Some(Terrain::Floor));
    assert_eq!(region.terrain_at_tile_coords(TileCoords { row: 0, col: 2 }), Some(Terrain::Grass));
    assert_eq!(region.terrain_at_tile_coords(TileCoords { row: 1, col: 0 }), Some(Terrain::Forest));
    assert_eq!(
        region.terrain_at_tile_coords(TileCoords { row: 1, col: 2 }),
        Some(Terrain::Mountain)
    );
    assert_eq!(region.terrain_at_tile_coords(TileCoords { row: 2, col: 0 }), None);
    assert_eq!(region.terrain_at_tile_coords(TileCoords { row: 0, col: 3 }), None);
    assert_eq!(region.terrain_at_tile_coords(TileCoords { row: usize::MAX, col: usize::MAX }), None);
}

#[test]
fn terrain_is_found_by_position() {
    let region = region_of(&[".#", "~."]);
    assert_eq!(region.terrain_at_position(at(0, 0)), Some(Terrain::Floor));
    assert_eq!(region.terrain_at_position(at(39, -39)), Some(Terrain::Floor));
    assert_eq!(region.terrain_at_position(at(40, -39)), Some(Terrain::Wall));
    assert_eq!(region.terrain_at_position(at(39, -40)), Some(Terrain::Ocean));
    assert_eq!(
        region.terrain_at_position(Position { x: TILE_SIZE - 1, y: -TILE_SIZE + 1 }),
        Some(Terrain::Floor)
    );
    assert_eq!(region.terrain_at_position(at(79, -79)), Some(Terrain::Floor));
    // Outside the region there is no terrain.
    assert_eq!(region.terrain_at_position(at(80, 0)), None);
    assert_eq!(region.terrain_at_position(at(0, -80)), None);
    assert_eq!(region.terrain_at_position(Position { x: -1, y: 0 }), None);
    assert_eq!(region.terrain_at_position(Position { x: 0, y: 1 }), None);
    assert_eq!(region.terrain_at_position(Position { x: i32::MAX, y: i32::MIN }), None);
}

#[test]
fn walls_are_told_from_open_ground() {
    let region = region_of(&[".#", "~."]);
    assert!(!region.is_wall(0, 0));
    assert!(region.is_wall(40_000, 0));
    assert!(region.is_wall(79_999, -39_999));
    assert!(region.is_wall(0, -40_000));
    assert!(!region.is_wall(40_000, -40_000));
    // Nothing blocks where there is no terrain.
    assert!(!region.is_wall(80_000, 0));
    assert!(!region.is_wall(-1, 0));
    assert!(!region.is_wall(40_000, 1));
    assert!(!region.is_wall(i64::MAX, i64::MIN));
    assert!(!region.is_wall(i64::MIN, i64::MAX));
}

#[test]
fn region_of_the_largest_width_can_be_walked() {
    let mut terrain: Vec<Terrain> = Vec::new();
    for _ in 0..MAX_REGION_SPAN {
        terrain.push(Terrain::Wall);
    }
    let region = Region::new(MAX_REGION_SPAN, terrain, Vec::new(), Vec::new());
    assert_eq!(region.row_count(), 1);
    let last = (MAX_REGION_SPAN as i64) * (TILE_SIZE as i64);
    assert!(region.is_wall(last - 1, 0));
    assert!(!region.is_wall(last, 0));
    // A body in the last tile is pushed out to the right, beyond the region.
    let inside = Position { x: last as i32 - HALF_TILE, y: -HALF_TILE };
    let resolved = push_out_of_terrain(&region, &body(), inside);
    assert_eq!(resolved, Position { x: last as i32 + HALF_TILE, y: HALF_TILE });
    assert!(!overlaps_wall(&region, &body(), resolved));
}

#[test]
fn entrances_and_exits_are_kept() {
    let entrances = vec![
        Entrance { location: TileCoords { row: 1, col: 1 }, direction: Direction::Up },
        Entrance { location: TileCoords { row: 0, col: 1 }, direction: Direction::Left },
    ];
    let exits = vec![
        Exit {
            location: TileCoords { row: 1, col: 0 },
            target_region: String::from("cave.ron"),
            target_entrance_idx: 1,
        },
        Exit {
            location: TileCoords { row: 1, col: 0 },
            target_region: String::from("lake.ron"),
            target_entrance_idx: 0,
        },
    ];
    let region = Region::new(2, vec![Terrain::Floor; 4], entrances.clone(), exits.clone());
    assert_eq!(region.entrances(), &entrances);
    assert_eq!(region.exits(), &exits);
    assert_eq!(region.exit_at(TileCoords { row: 1, col: 0 }), Some(0));
    assert_eq!(region.exit_at(TileCoords { row: 0, col: 1 }), None);
    let mut current = CurrentRegion::new();
    assert!(current.is_empty());
    current.set(region);
    assert!(!current.is_empty());
    assert_eq!(current.get().exits()[1].target_region, "lake.ron");
    assert!(CurrentRegion::default().is_empty());
}

#[test]
fn body_that_touches_no_wall_stays() {
    let region = region_of(&["....", ".#..", "....", "...."]);
    // Resting against the wall tile from each side.
    for position in [at(20, -60), at(100, -60), at(60, -20), at(60, -100), at(140, -140)] {
        assert!(!overlaps_wall(&region, &body(), position));
        assert_eq!(push_out_of_terrain(&region, &body(), position), position);
    }
    // Outside the region.
    for position in [at(-500, 500), at(500, -500), at(60, 60)] {
        assert_eq!(push_out_of_terrain(&region, &body(), position), position);
    }
}

#[test]
fn wall_to_the_north_pushes_south() {
    // The wall tile spans x from 80 to 120 and y from -80 up to -40.
    let region = region_of(&["....", "..#.", "....", "...."]);
    // The hero stands right below it, five units into the wall.
    let hero = at(100, -95);
    assert!(overlaps_wall(&region, &body(), hero));
    let resolved = push_out_of_terrain(&region, &body(), hero);
    assert_eq!(resolved, at(100, -100));
    assert!(resolved.y <= -100 * UNIT);
    assert!(!overlaps_wall(&region, &body(), resolved));
    // A hero that only rests against the wall is left alone.
    assert_eq!(push_out_of_terrain(&region, &body(), at(100, -100)), at(100, -100));
    assert_eq!(push_out_of_terrain(&region, &body(), at(100, -130)), at(100, -130));
}

#[test]
fn blocked_edges_are_pushed_out_fully() {
    let region = region_of(&[".....", ".###.", ".#.#.", ".###.", "....."]);
    // In the middle of the ring of walls a body can rest.
    assert_eq!(push_out_of_terrain(&region, &body(), at(100, -100)), at(100, -100));
    // Bottom edge in the wall below: up.
    assert_eq!(push_out_of_terrain(&region, &body(), at(100, -107)), at(100, -100));
    // Top edge in the wall above: down.
    assert_eq!(push_out_of_terrain(&region, &body(), at(100, -93)), at(100, -100));
    // Left edge in the wall: right.
    assert_eq!(push_out_of_terrain(&region, &body(), at(91, -100)), at(100, -100));
    // Right edge in the wall: left.
    assert_eq!(push_out_of_terrain(&region, &body(), at(112, -100)), at(100, -100));
    // Two edges at once: both are seen to.
    assert_eq!(push_out_of_terrain(&region, &body(), at(91, -107)), at(100, -100));
    assert_eq!(push_out_of_terrain(&region, &body(), at(112, -93)), at(100, -100));
    // By a single step.
    let one_step_in = Position { x: 100 * UNIT, y: -100 * UNIT - 1 };
    assert_eq!(push_out_of_terrain(&region, &body(), one_step_in), at(100, -100));
}

#[test]
fn small_body_inside_a_wall_is_pushed_up_and_right() {
    let region = region_of(&["...", ".#.", "..."]);
    // All four corners lie in the one wall tile: the bottom edge goes
    // first, then the left.
    let small = rect(5 * UNIT, 5 * UNIT);
    assert_eq!(push_out_of_terrain(&region, &small, at(50, -70)), at(85, -35));
    assert!(!overlaps_wall(&region, &small, at(85, -35)));
}

#[test]
fn single_corner_takes_the_least_push() {
    let region = region_of(&["....", ".#..", "....", "...."]);
    // Top-left corner of the body in the wall, three units deep across and
    // eight units deep down: pushed right.
    assert_eq!(push_out_of_terrain(&region, &body(), at(97, -92)), at(100, -92));
    // Eight deep across and three deep down: pushed down.
    assert_eq!(push_out_of_terrain(&region, &body(), at(92, -97)), at(92, -100));
    // Top-right corner of the body in the wall.
    assert_eq!(push_out_of_terrain(&region, &body(), at(23, -92)), at(20, -92));
    assert_eq!(push_out_of_terrain(&region, &body(), at(28, -97)), at(28, -100));
    // Bottom-left corner of the body in the wall.
    assert_eq!(push_out_of_terrain(&region, &body(), at(97, -28)), at(100, -28));
    assert_eq!(push_out_of_terrain(&region, &body(), at(92, -23)), at(92, -20));
    // Bottom-right corner of the body in the wall.
    assert_eq!(push_out_of_terrain(&region, &body(), at(23, -28)), at(20, -28));
    assert_eq!(push_out_of_terrain(&region, &body(), at(28, -23)), at(28, -20));
}

#[test]
fn single_corner_ties_go_to_the_vertical_push() {
    let region = region_of(&["....", ".#..", "....", "...."]);
    // Five deep both ways, at each corner.
    assert_eq!(push_out_of_terrain(&region, &body(), at(95, -95)), at(95, -100));
    assert_eq!(push_out_of_terrain(&region, &body(), at(25, -95)), at(25, -100));
    assert_eq!(push_out_of_terrain(&region, &body(), at(95, -25)), at(95, -20));
    assert_eq!(push_out_of_terrain(&region, &body(), at(25, -25)), at(25, -20));
}

#[test]
fn opposite_corners_are_weighed_against_each_other() {
    // Walls at the bottom left and the top right of the body.
    let region = region_of(&["..#.", ".#..", "....", "...."]);
    // Bottom-left corner: 3 up or 33 right. Top-right corner: 37 down or 7 left.
    let resolved = push_out_of_terrain(&region, &body(), at(67, -23));
    assert_eq!(resolved, at(67, -20));
    // The right edge is still in the wall: a second pass moves the body
    // again.
    assert!(overlaps_wall(&region, &body(), resolved));
    assert_eq!(push_out_of_terrain(&region, &body(), resolved), at(60, -20));
    assert!(!overlaps_wall(&region, &body(), at(60, -20)));
    // The other way round, the push to the left is the least although the
    // bottom-left corner is weighed first.
    // Bottom-left corner: 10 up or 37 right. Top-right corner: 30 down or 3 left.
    assert_eq!(push_out_of_terrain(&region, &body(), at(63, -30)), at(60, -30));
}

#[test]
fn resolving_twice_changes_nothing_more() {
    let region = region_of(&[".....", ".###.", ".#.#.", ".###.", "....."]);
    let starts = [
        at(100, -107),
        at(100, -93),
        at(91, -100),
        at(112, -100),
        at(91, -107),
        at(20, -25),
        at(25, -20),
        at(180, -175),
        at(100, -100),
        at(33, -187),
    ];
    for start in starts {
        let once = push_out_of_terrain(&region, &body(), start);
        let twice = push_out_of_terrain(&region, &body(), once);
        assert_eq!(twice, once);
        assert!(!overlaps_wall(&region, &body(), once));
    }
}

#[test]
fn body_without_area_touches_nothing() {
    let region = region_of(&["##", "##"]);
    for collider in [rect(0, 0), rect(0, HALF_TILE), rect(HALF_TILE, 0), rect(-5, -5)] {
        assert!(!overlaps_wall(&region, &collider, at(20, -20)));
        assert_eq!(push_out_of_terrain(&region, &collider, at(20, -20)), at(20, -20));
    }
    assert!(overlaps_wall(&region, &rect(1, 1), at(20, -20)));
}

#[test]
fn pushes_reach_the_next_boundary() {
    let collider = body();
    let start = at(97, -92);
    assert_eq!(push_toward(&collider, start, Direction::Right), (3 * UNIT as i64, at(100, -92)));
    assert_eq!(push_toward(&collider, start, Direction::Left), (37 * UNIT as i64, at(60, -92)));
    assert_eq!(push_toward(&collider, start, Direction::Up), (32 * UNIT as i64, at(97, -60)));
    assert_eq!(push_toward(&collider, start, Direction::Down), (8 * UNIT as i64, at(97, -100)));
}

#[test]
fn large_rectangles_are_sampled_across() {
    let region = region_of(&[".....", ".....", "..#..", ".....", "....."]);
    // The wall tile lies in the middle of a rectangle that spans the region;
    // none of its corners is near it.
    let large = rect(90 * UNIT, 90 * UNIT);
    assert!(overlaps_wall(&region, &large, at(100, -100)));
    // Wide and flat, above the wall tile.
    assert!(!overlaps_wall(&region, &rect(90 * UNIT, 10 * UNIT), at(100, -70)));
    assert!(overlaps_wall(&region, &rect(90 * UNIT, 10 * UNIT), at(100, -71)));
    // Narrow and tall, left of the wall tile.
    assert!(!overlaps_wall(&region, &rect(10 * UNIT, 90 * UNIT), at(70, -100)));
    assert!(overlaps_wall(&region, &rect(10 * UNIT, 90 * UNIT), at(71, -100)));
    // Reaching far beyond the region on all sides.
    assert!(overlaps_wall(&region, &rect(i32::MAX, 30_000), Position { x: 0, y: -100 * UNIT }));
    assert!(!overlaps_wall(&region, &rect(i32::MAX, 30_000), Position { x: 0, y: -150 * UNIT }));
    // The last sample lies on the far edge.
    assert!(overlaps_wall(&region, &rect(50 * UNIT, 50 * UNIT), at(31, -31)));
    assert!(!overlaps_wall(&region, &rect(50 * UNIT, 50 * UNIT), at(30, -30)));
}

fn character(x: i32, y: i32, collider: RectangleCollider) -> Entity {
    let mut entity = Entity::new();
    entity.faction = Some(Faction::Enemy);
    entity.position = Some(at(x, y));
    entity.rectangle_collider = Some(collider);
    entity
}

#[test]
fn static_collisions_push_characters_and_break_arrows() {
    let region = region_of(&["....", ".#..", "....", "...."]);
    let mut world = World::new();
    let walker = world.spawn(character(97, -92, body()));
    let resting = world.spawn(character(140, -140, body()));
    // Something that is no character overlaps the wall and stays.
    let mut prop = Entity::new();
    prop.position = Some(at(60, -60));
    prop.rectangle_collider = Some(body());
    let prop = world.spawn(prop);
    // An arrow in the wall, and one that has not reached it.
    let mut arrow = Entity::new();
    arrow.arrow_attack = Some(ArrowAttack::new(Faction::Enemy));
    arrow.position = Some(at(30, -60));
    arrow.rectangle_collider = Some(ArrowAttack::compute_collider(&Direction::Right));
    let mut flying = Entity::new();
    flying.arrow_attack = Some(ArrowAttack::new(Faction::Enemy));
    flying.position = Some(at(20, -60));
    flying.rectangle_collider = Some(ArrowAttack::compute_collider(&Direction::Right));
    let arrow = world.spawn(arrow);
    let flying = world.spawn(flying);

    assert!(all_bodies_fit(&world, Pushed::Characters));
    StaticCollisionDetection.run(&mut world, &region);

    assert_eq!(world.get(walker).unwrap().position, Some(at(100, -92)));
    assert_eq!(world.get(resting).unwrap().position, Some(at(140, -140)));
    assert_eq!(world.get(prop).unwrap().position, Some(at(60, -60)));
    assert!(!world.is_alive(arrow));
    assert!(world.is_alive(flying));
    assert_eq!(world.len(), 4);

    // A second pass changes nothing.
    StaticCollisionDetection.run(&mut world, &region);
    assert_eq!(world.get(walker).unwrap().position, Some(at(100, -92)));
    assert_eq!(world.len(), 4);
}

#[test]
fn oversized_bodies_are_found_out() {
    let mut world = World::new();
    world.spawn(character(0, 0, body()));
    assert!(all_bodies_fit(&world, Pushed::Characters));
    assert!(all_bodies_fit(&world, Pushed::Everything));
    let mut prop = Entity::new();
    prop.position = Some(at(60, -60));
    prop.rectangle_collider = Some(rect(HALF_TILE + 1, 5));
    world.spawn(prop);
    assert!(all_bodies_fit(&world, Pushed::Characters));
    assert!(!all_bodies_fit(&world, Pushed::Everything));
    world.spawn(character(0, 0, rect(5, HALF_TILE + 1)));
    assert!(!all_bodies_fit(&world, Pushed::Characters));
}

#[test]
fn collision_pushes_every_body() {
    let region = region_of(&["....", ".#..", "....", "...."]);
    let mut world = World::new();
    let mut prop = Entity::new();
    prop.position = Some(at(97, -92));
    prop.rectangle_collider = Some(body());
    let prop = world.spawn(prop);
    let mut ghost = Entity::new();
    ghost.position = Some(at(60, -60));
    let ghost = world.spawn(ghost);
    Collision.run(&mut world, &region);
    assert_eq!(world.get(prop).unwrap().position, Some(at(100, -92)));
    assert_eq!(world.get(ghost).unwrap().position, Some(at(60, -60)));
}
