use adventure_sim::component::behavior::Wander;
use adventure_sim::component::collider::RectangleCollider;
use adventure_sim::component::removal::{TiedToEntity, TiedToRegion};
use adventure_sim::component::{
    Direction, Enemy, Faction, Heart, Hero, HeroState, Position, Shield, Terrain, TileCoords,
    Velocity,
};
use adventure_sim::constants::{
    ENEMY_BASE_HEALTH, HALF_TILE, HERO_BASE_HEALTH, HERO_ORTHOGONAL_SPEED, MAX_ARROW_DELAY,
    MAX_REGION_SPAN, MIN_ARROW_DELAY, THRUST_FRAMES, TILE_SIZE, UNIT,
};
use adventure_sim::input_bindings::Input;
use adventure_sim::resource::{EnemyData, Entrance, Exit, RegionData};
use adventure_sim::state::spawning::{
    draw_spawn_rolls, place_at_entrance, populate, spawn_enemy, spawn_heart, spawn_hero,
    unload_region, SpawnRoll,
};
use adventure_sim::state::{Fault, Playing};
use adventure_sim::system::enemy_control::EnemyRoll;
use adventure_sim::system::travel::Departure;
use adventure_sim::system::Travel;
use adventure_sim::world::{Entity, World};

fn at(x: i32, y: i32) -> Position {
    Position { x: x * UNIT, y: y * UNIT }
}

fn tile(row: usize, col: usize) -> TileCoords {
    TileCoords { row, col }
}

/// A region of four by four tiles with walls all around, an entrance in
/// each of two corners and an exit in the third.
fn courtyard() -> RegionData {
    let rows = ["####", "#..#", "#..#", "####"];
    let mut terrain: Vec<Terrain> = Vec::new();
    for row in rows {
        for tile in row.chars() {
            terrain.push(if tile == '#' { Terrain::Wall } else { Terrain::Floor });
        }
    }
    RegionData {
        col_count: 4,
        terrain,
        entrances: vec![
            Entrance { location: tile(1, 1), direction: Direction::Right },
            Entrance { location: tile(2, 2), direction: Direction::Up },
        ],
        exits: vec![Exit {
            location: tile(2, 1),
            target_region: String::from("cellar.ron"),
            target_entrance_idx: 1,
        }],
        enemies: vec![EnemyData { location: tile(1, 2) }],
        heart_locations: vec![tile(2, 2)],
    }
}

fn still() -> Vec<SpawnRoll> {
    vec![SpawnRoll { heading: None, delay: 250 }]
}

#[test]
fn hero_is_created_with_its_shield() {
    let mut world = World::new();
    world.spawn(Entity::new());
    let hero_id = spawn_hero(&mut world, at(100, -100), Direction::Left);
    assert_eq!(hero_id, 1);
    assert_eq!(world.len(), 3);
    let hero = world.get(hero_id).unwrap();
    assert_eq!(hero.hero, Some(Hero { state: HeroState::FreelyMoving }));
    assert_eq!(hero.faction, Some(Faction::Ally));
    assert_eq!(hero.health.unwrap().current(), HERO_BASE_HEALTH);
    assert_eq!(hero.health.unwrap().max(), 20);
    assert_eq!(hero.position, Some(at(100, -100)));
    assert_eq!(hero.velocity, Some(Velocity::default()));
    assert_eq!(hero.direction, Some(Direction::Left));
    assert_eq!(
        hero.rectangle_collider,
        Some(RectangleCollider { half_width: HALF_TILE, half_height: HALF_TILE })
    );
    assert!(hero.tied_to_region.is_none());
    let shield = world.get(hero_id + 1).unwrap();
    assert_eq!(shield.shield, Some(Shield::new(hero_id)));
    assert_eq!(shield.tied_to_entity, Some(TiedToEntity(hero_id)));
    assert_eq!(shield.position, Some(at(74, -100)));
    assert_eq!(shield.direction, Some(Direction::Left));
    assert_eq!(shield.rectangle_collider, Some(Shield::compute_collider(&Direction::Left)));
    assert!(shield.tied_to_region.is_none());
}

#[test]
fn enemies_and_hearts_are_created_on_their_tiles() {
    let mut world = World::new();
    let roll = SpawnRoll { heading: Some(Direction::Up), delay: 180 };
    let enemy_id = spawn_enemy(&mut world, tile(3, 5), &roll);
    let heart_id = spawn_heart(&mut world, tile(0, 7));
    let enemy = world.get(enemy_id).unwrap();
    assert_eq!(enemy.enemy, Some(Enemy));
    assert_eq!(enemy.tied_to_region, Some(TiedToRegion));
    assert_eq!(enemy.faction, Some(Faction::Enemy));
    assert_eq!(enemy.health.unwrap().current(), ENEMY_BASE_HEALTH);
    assert_eq!(enemy.health.unwrap().max(), 3);
    assert_eq!(enemy.wander, Some(Wander { direction: Some(Direction::Up) }));
    assert_eq!(enemy.shoot_arrows.unwrap().delay(), 180);
    assert_eq!(enemy.position, Some(at(200, -120)));
    assert_eq!(enemy.velocity, Some(Velocity::default()));
    assert_eq!(enemy.direction, Some(Direction::Down));
    assert_eq!(
        enemy.rectangle_collider,
        Some(RectangleCollider { half_width: 20 * UNIT, half_height: 20 * UNIT })
    );
    let heart = world.get(heart_id).unwrap();
    assert_eq!(heart.heart, Some(Heart));
    assert_eq!(heart.tied_to_region, Some(TiedToRegion));
    assert_eq!(heart.position, Some(at(280, 0)));
    assert_eq!(heart.direction, Some(Direction::Down));
    assert_eq!(
        heart.rectangle_collider,
        Some(RectangleCollider { half_width: 13 * UNIT, half_height: 12 * UNIT })
    );
    assert!(heart.health.is_none());
    assert!(heart.velocity.is_none());
}

#[test]
fn region_is_populated_and_unloaded() {
    let mut world = World::new();
    let hero_id = spawn_hero(&mut world, at(0, 0), Direction::Down);
    let enemies = vec![EnemyData { location: tile(1, 1) }, EnemyData { location: tile(2, 2) }];
    let hearts = vec![tile(3, 3), tile(4, 4), tile(5, 5)];
    let rolls = vec![
        SpawnRoll { heading: None, delay: 150 },
        SpawnRoll { heading: Some(Direction::Left), delay: 299 },
    ];
    populate(&mut world, &enemies, &hearts, &rolls);
    assert_eq!(world.len(), 7);
    assert_eq!(world.entity(2).position, Some(at(40, -40)));
    assert_eq!(world.entity(2).wander, Some(Wander { direction: None }));
    assert_eq!(world.entity(3).position, Some(at(80, -80)));
    assert_eq!(world.entity(3).shoot_arrows.unwrap().delay(), 299);
    assert_eq!(world.entity(4).position, Some(at(120, -120)));
    assert_eq!(world.entity(6).position, Some(at(200, -200)));
    assert!(world.entity(6).heart.is_some());

    unload_region(&mut world);
    assert_eq!(world.len(), 2);
    assert!(world.is_alive(hero_id));
    assert!(world.is_alive(hero_id + 1));
    unload_region(&mut world);
    assert_eq!(world.len(), 2);
}

#[test]
fn spawn_rolls_are_drawn_from_their_ranges() {
    let rolls = draw_spawn_rolls(2_000);
    assert_eq!(rolls.len(), 2_000);
    let mut standing = 0;
    let mut heading = 0;
    for roll in rolls.iter() {
        assert!(MIN_ARROW_DELAY <= roll.delay && roll.delay < MAX_ARROW_DELAY);
        match roll.heading {
            Some(_) => heading += 1,
            None => standing += 1,
        }
    }
    assert!(standing > 500);
    assert!(heading > 500);
}

#[test]
fn entity_is_placed_at_an_entrance() {
    let mut world = World::new();
    let hero_id = spawn_hero(&mut world, at(0, 0), Direction::Down);
    let entrance = Entrance { location: tile(7, 3), direction: Direction::Right };
    place_at_entrance(&mut world, hero_id, &entrance);
    let hero = world.get(hero_id).unwrap();
    assert_eq!(hero.position, Some(at(120, -280)));
    assert_eq!(hero.direction, Some(Direction::Right));
    // The shield catches up when the attacks are updated.
    assert_eq!(world.get(hero_id + 1).unwrap().position, Some(at(0, -26)));
}

#[test]
fn travel_finds_the_hero_on_an_exit() {
    let mut playing = Playing::new();
    playing.load_region_with(courtyard(), &still()).unwrap();
    let hero_id = playing.create_hero().unwrap();
    let region = playing.current_region().get();
    assert_eq!(Travel.run(playing.entities(), region), None);
    playing.place_at_entrance(hero_id, 0).unwrap();
    let region = playing.current_region().get();
    assert_eq!(Travel.run(playing.entities(), region), None);
}

#[test]
fn travel_takes_the_first_hero_and_the_first_exit() {
    let mut data = courtyard();
    data.exits.push(Exit {
        location: tile(2, 1),
        target_region: String::from("attic.ron"),
        target_entrance_idx: 0,
    });
    data.exits.push(Exit {
        location: tile(1, 1),
        target_region: String::from("attic.ron"),
        target_entrance_idx: 0,
    });
    let region = adventure_sim::resource::Region::new(
        data.col_count,
        data.terrain,
        data.entrances,
        data.exits,
    );
    let mut world = World::new();
    // An enemy on an exit does not travel.
    spawn_enemy(&mut world, tile(2, 1), &SpawnRoll { heading: None, delay: 200 });
    let mut off = Entity::new();
    off.hero = Some(Hero { state: HeroState::FreelyMoving });
    off.position = Some(at(100, -100));
    world.spawn(off);
    let mut on = Entity::new();
    on.hero = Some(Hero { state: HeroState::FreelyMoving });
    on.position = Some(Position { x: 2 * TILE_SIZE - 1, y: -3 * TILE_SIZE + 1 });
    let on = world.spawn(on);
    let mut also_on = Entity::new();
    also_on.hero = Some(Hero { state: HeroState::FreelyMoving });
    also_on.position = Some(at(50, -50));
    world.spawn(also_on);
    assert_eq!(Travel.run(&world, &region), Some(Departure { hero_id: on, exit_index: 0 }));
    world.delete(on);
    assert_eq!(Travel.run(&world, &region), Some(Departure { hero_id: on + 1, exit_index: 2 }));
}

#[test]
fn game_starts_empty() {
    let mut playing = Playing::new();
    assert_eq!(playing.entities().len(), 0);
    assert!(playing.current_region().is_empty());
    assert_eq!(playing.fixed_update(&Input::idle()), Err(Fault::NoRegion));
    assert_eq!(playing.place_at_entrance(0, 0), Err(Fault::NoRegion));
    assert_eq!(
        playing.take_exit(&Departure { hero_id: 0, exit_index: 0 }, courtyard()),
        Err(Fault::NoRegion)
    );
    assert_eq!(playing.create_hero(), Ok(0));
    let hero = playing.entities().get(0).unwrap();
    assert_eq!(hero.position, Some(Position { x: 30 * TILE_SIZE, y: -30 * TILE_SIZE }));
    assert_eq!(hero.direction, Some(Direction::Down));
    assert_eq!(playing.entities().len(), 2);
}

#[test]
fn malformed_regions_are_refused() {
    let mut playing = Playing::new();
    let mut empty = courtyard();
    empty.col_count = 0;
    assert_eq!(playing.load_region_with(empty, &still()), Err(Fault::MalformedRegion));
    let mut wide = courtyard();
    wide.col_count = MAX_REGION_SPAN + 1;
    assert_eq!(playing.load_region_with(wide, &still()), Err(Fault::MalformedRegion));
    let mut tall = courtyard();
    tall.col_count = 1;
    tall.terrain = vec![Terrain::Floor; MAX_REGION_SPAN + 1];
    assert_eq!(playing.load_region(tall), Err(Fault::MalformedRegion));
    assert!(playing.current_region().is_empty());
    assert_eq!(playing.entities().len(), 0);
    let mut high = courtyard();
    high.col_count = 1;
    high.terrain = vec![Terrain::Floor; MAX_REGION_SPAN];
    assert_eq!(playing.load_region(high), Ok(()));
    assert_eq!(playing.current_region().get().row_count(), MAX_REGION_SPAN);
}

#[test]
fn region_is_loaded_with_its_entities() {
    let mut playing = Playing::new();
    assert_eq!(playing.load_region_with(courtyard(), &still()), Ok(()));
    let region = playing.current_region().get();
    assert_eq!(region.col_count(), 4);
    assert_eq!(region.row_count(), 4);
    assert_eq!(region.entrances().len(), 2);
    assert_eq!(region.exits()[0].target_region, "cellar.ron");
    assert_eq!(region.terrain_at_tile_coords(tile(1, 1)), Some(Terrain::Floor));
    assert_eq!(region.terrain_at_tile_coords(tile(0, 1)), Some(Terrain::Wall));
    assert_eq!(playing.entities().len(), 2);
    assert!(playing.entities().entity(0).enemy.is_some());
    assert_eq!(playing.entities().entity(0).position, Some(at(80, -40)));
    assert_eq!(playing.entities().entity(0).shoot_arrows.unwrap().delay(), 250);
    assert!(playing.entities().entity(1).heart.is_some());
    assert_eq!(playing.entities().entity(1).position, Some(at(80, -80)));
    // Loading by chance gives the same entities, with delays of its own.
    let mut other = Playing::new();
    assert_eq!(other.load_region(courtyard()), Ok(()));
    assert_eq!(other.entities().len(), 2);
    let delay = other.entities().entity(0).shoot_arrows.unwrap().delay();
    assert!(MIN_ARROW_DELAY <= delay && delay < MAX_ARROW_DELAY);
}

#[test]
fn placing_reports_what_is_missing() {
    let mut playing = Playing::new();
    playing.load_region_with(courtyard(), &still()).unwrap();
    let hero_id = playing.create_hero().unwrap();
    assert_eq!(playing.place_at_entrance(hero_id, 2), Err(Fault::NoSuchEntrance));
    assert_eq!(playing.place_at_entrance(99, 1), Err(Fault::NoSuchEntity));
    assert_eq!(playing.place_at_entrance(99, 2), Err(Fault::NoSuchEntrance));
    assert_eq!(playing.place_at_entrance(hero_id, 1), Ok(()));
    let hero = playing.entities().get(hero_id).unwrap();
    assert_eq!(hero.position, Some(at(80, -80)));
    assert_eq!(hero.direction, Some(Direction::Up));
}

fn walking(up: bool, down: bool, left: bool, right: bool) -> Input {
    let mut input = Input::idle();
    input.up = up;
    input.down = down;
    input.left = left;
    input.right = right;
    input
}

#[test]
fn tick_runs_every_phase_in_order() {
    let mut playing = Playing::new();
    let mut data = courtyard();
    data.enemies.clear();
    data.heart_locations.clear();
    playing.load_region_with(data, &Vec::new()).unwrap();
    let hero_id = playing.create_hero().unwrap();
    let shield_id = hero_id + 1;
    playing.place_at_entrance(hero_id, 1).unwrap();
    // The hero stands at (80, -80): the corner where the four inner tiles
    // meet. It walks up by five units a tick until the wall stops it.
    for tick in 1..=4 {
        assert_eq!(playing.fixed_update(&walking(true, false, false, false)), Ok(None));
        let hero = playing.entities().get(hero_id).unwrap();
        assert_eq!(hero.position, Some(at(80, -80 + 5 * tick)));
        assert_eq!(hero.velocity, Some(Velocity { x: 0, y: HERO_ORTHOGONAL_SPEED }));
        assert_eq!(hero.direction, Some(Direction::Up));
        // The shield is put in front of the hero at the end of the tick.
        let shield = playing.entities().get(shield_id).unwrap();
        assert_eq!(shield.position, Some(at(80, -54 + 5 * tick)));
        assert_eq!(shield.direction, Some(Direction::Up));
    }
    for _ in 0..3 {
        assert_eq!(playing.fixed_update(&walking(true, false, false, false)), Ok(None));
        let hero = playing.entities().get(hero_id).unwrap();
        assert_eq!(hero.position, Some(at(80, -60)));
    }
    // Down and to the left the hero comes to the exit tile.
    let mut leaving = None;
    for _ in 0..20 {
        leaving = playing.fixed_update(&walking(false, true, true, false)).unwrap();
        if leaving.is_some() {
            break;
        }
    }
    assert_eq!(leaving, Some(Departure { hero_id, exit_index: 0 }));
    let hero = playing.entities().get(hero_id).unwrap();
    let stands_on: Option<TileCoords> = Option::from(hero.position.unwrap());
    assert_eq!(stands_on, Some(tile(2, 1)));
}

#[test]
fn hero_fights_through_ticks() {
    let mut playing = Playing::new();
    let mut data = courtyard();
    data.col_count = 8;
    data.terrain = vec![Terrain::Floor; 64];
    data.enemies = vec![EnemyData { location: tile(2, 4) }];
    data.heart_locations.clear();
    data.entrances = vec![Entrance { location: tile(2, 2), direction: Direction::Right }];
    playing.load_region_with(data, &still()).unwrap();
    let enemy_id = 0;
    let hero_id = playing.create_hero().unwrap();
    playing.place_at_entrance(hero_id, 0).unwrap();

    // Chance is left out: on these rolls the enemy neither turns nor stops.
    let steady = vec![EnemyRoll { change: 50, direction: Direction::Up, delay: 200 }; 8];

    // The hero walks to the right and thrusts: it advances.
    let mut attack = walking(false, false, false, true);
    attack.primary = true;
    assert_eq!(playing.fixed_update_with(&attack, &steady), Ok(None));
    let thrust_id = hero_id + 2;
    let hero = playing.entities().get(hero_id).unwrap();
    assert_eq!(
        hero.hero.unwrap().state,
        HeroState::Thrusting { thrust_attack_id: thrust_id, frames_left: THRUST_FRAMES }
    );
    assert_eq!(hero.position, Some(at(85, -80)));
    // At the end of the tick the thrust is in front of the hero.
    let thrust = playing.entities().get(thrust_id).unwrap();
    assert_eq!(thrust.position, Some(at(125, -80)));
    assert!(thrust.thrust_attack.unwrap().is_active());
    // The enemy stands at (160, -80) and spans from 140: out of reach yet.
    assert_eq!(playing.entities().get(enemy_id).unwrap().health.unwrap().current(), 3);

    // The hero rushes on by ten units. When the collisions are resolved the
    // thrust is where the tick before left it: it reaches to 145 and lands.
    assert_eq!(playing.fixed_update_with(&attack, &steady), Ok(None));
    assert_eq!(playing.entities().get(hero_id).unwrap().position, Some(at(95, -80)));
    assert_eq!(playing.entities().get(thrust_id).unwrap().position, Some(at(135, -80)));
    let enemy = playing.entities().get(enemy_id).unwrap();
    assert_eq!(enemy.health.unwrap().current(), 2);
    assert!(enemy.knocked_back.is_some());
    assert_eq!(enemy.position, Some(at(160, -80)));
    assert!(!playing.entities().get(thrust_id).unwrap().thrust_attack.unwrap().is_active());
    assert_eq!(playing.entities().get(hero_id).unwrap().health.unwrap().current(), 20);

    // The spent thrust stops the hero, and the enemy is knocked away.
    assert_eq!(playing.fixed_update_with(&attack, &steady), Ok(None));
    let hero = playing.entities().get(hero_id).unwrap();
    assert_eq!(hero.velocity, Some(Velocity { x: 0, y: 0 }));
    assert_eq!(hero.position, Some(at(95, -80)));
    let enemy = playing.entities().get(enemy_id).unwrap();
    assert_eq!(enemy.position, Some(Position { x: 160 * UNIT + 12_500, y: -80 * UNIT }));
    assert_eq!(enemy.health.unwrap().current(), 2);

    // After its nine frames the thrust is gone.
    for _ in 0..6 {
        assert_eq!(playing.fixed_update_with(&attack, &steady), Ok(None));
        assert!(playing.entities().is_alive(thrust_id));
    }
    assert_eq!(playing.fixed_update_with(&attack, &steady), Ok(None));
    assert!(!playing.entities().is_alive(thrust_id));
    assert_eq!(
        playing.entities().get(hero_id).unwrap().hero.unwrap().state,
        HeroState::FreelyMoving
    );
}

fn empty_courtyard() -> RegionData {
    let mut data = courtyard();
    data.enemies.clear();
    data.heart_locations.clear();
    data
}

fn character(faction: Faction) -> Entity {
    let mut entity = Entity::new();
    entity.faction = Some(faction);
    entity.health = Some(adventure_sim::component::Health::new(3));
    entity.position = Some(at(80, -80));
    entity.velocity = Some(Velocity::default());
    entity.direction = Some(Direction::Down);
    entity.rectangle_collider =
        Some(RectangleCollider { half_width: HALF_TILE, half_height: HALF_TILE });
    entity
}

/// A game in the courtyard with the given entity in it.
fn game_with(entity: Entity) -> Playing {
    assert!(entity.is_well_formed());
    let mut world = World::new();
    world.spawn(entity);
    let mut playing = Playing::with_world(world);
    playing.load_region_with(empty_courtyard(), &Vec::new()).unwrap();
    playing
}

#[test]
fn tick_runs_on_an_empty_world() {
    let mut playing = Playing::new();
    playing.load_region_with(empty_courtyard(), &Vec::new()).unwrap();
    assert_eq!(playing.fixed_update(&Input::idle()), Ok(None));
    let hero_id = playing.create_hero().unwrap();
    assert_eq!(playing.fixed_update(&Input::idle()), Ok(None));
    assert!(playing.entities().is_alive(hero_id));
    assert_eq!(game_with(character(Faction::Enemy)).fixed_update(&Input::idle()), Ok(None));
}

#[test]
fn tick_stops_at_a_hero_that_lacks_a_facing() {
    let mut hero = character(Faction::Ally);
    hero.hero = Some(Hero { state: HeroState::FreelyMoving });
    hero.direction = None;
    let mut playing = game_with(hero);
    assert_eq!(playing.fixed_update(&Input::idle()), Err(Fault::HeroUnequipped));
    // Nothing has happened.
    assert_eq!(playing.entities().entity(0).position, Some(at(80, -80)));
}

#[test]
fn tick_stops_at_an_archer_that_lacks_a_place() {
    let mut archer = character(Faction::Enemy);
    archer.shoot_arrows =
        Some(adventure_sim::component::behavior::ShootArrows::with_delay(10));
    archer.position = None;
    let mut playing = game_with(archer);
    assert_eq!(playing.fixed_update(&Input::idle()), Err(Fault::ArcherUnequipped));
}

#[test]
fn tick_stops_at_an_oversized_character() {
    let mut giant = character(Faction::Enemy);
    giant.rectangle_collider =
        Some(RectangleCollider { half_width: HALF_TILE + 1, half_height: HALF_TILE });
    let mut playing = game_with(giant);
    assert_eq!(playing.fixed_update(&Input::idle()), Err(Fault::OversizedCollider));
    // What is no character may be as large as it likes.
    let mut boulder = character(Faction::Enemy);
    boulder.faction = None;
    boulder.rectangle_collider =
        Some(RectangleCollider { half_width: 5 * TILE_SIZE, half_height: 5 * TILE_SIZE });
    assert_eq!(game_with(boulder).fixed_update(&Input::idle()), Ok(None));
}

#[test]
fn tick_stops_at_a_target_without_health() {
    let mut immortal = character(Faction::Enemy);
    immortal.health = None;
    let mut playing = game_with(immortal);
    assert_eq!(playing.fixed_update(&Input::idle()), Err(Fault::TargetWithoutHealth));
}

#[test]
fn tick_stops_at_a_follower_that_cannot_be_placed() {
    let mut world = World::new();
    let mut bearer = character(Faction::Ally);
    bearer.direction = None;
    let bearer = world.spawn(bearer);
    let mut shield = Entity::new();
    shield.shield = Some(Shield::new(bearer));
    shield.position = Some(at(80, -80));
    shield.direction = Some(Direction::Down);
    shield.rectangle_collider = Some(Shield::compute_collider(&Direction::Down));
    world.spawn(shield);
    let mut playing = Playing::with_world(world);
    playing.load_region_with(empty_courtyard(), &Vec::new()).unwrap();
    assert_eq!(playing.fixed_update(&Input::idle()), Err(Fault::FollowerUnequipped));
}

#[test]
fn identifiers_can_run_out() {
    let mut playing = Playing::with_world(World::starting_at(u64::MAX - 1));
    assert_eq!(playing.create_hero(), Err(Fault::OutOfIdentifiers));
    assert_eq!(playing.entities().len(), 0);
    assert_eq!(playing.load_region_with(courtyard(), &still()), Err(Fault::OutOfIdentifiers));
    assert!(playing.current_region().is_empty());
    assert_eq!(playing.load_region_with(empty_courtyard(), &Vec::new()), Ok(()));
    // A tick of an empty world spawns nothing.
    assert_eq!(playing.fixed_update(&Input::idle()), Ok(None));

    let mut world = World::starting_at(u64::MAX - 1);
    assert!(world.has_room_for(1));
    assert!(!world.has_room_for(2));
    assert_eq!(world.spawn(character(Faction::Enemy)), u64::MAX - 1);
    assert!(world.has_room_for(0));
    assert!(!world.has_room_for(1));
    let mut playing = Playing::with_world(world);
    playing.load_region_with(empty_courtyard(), &Vec::new()).unwrap();
    // The one entity might spawn another, for which no identifier is left.
    assert_eq!(playing.fixed_update(&Input::idle()), Err(Fault::OutOfIdentifiers));
}

#[test]
fn ill_formed_entities_are_found_out() {
    assert!(Entity::new().is_well_formed());
    assert!(character(Faction::Ally).is_well_formed());
    let mut busy = character(Faction::Ally);
    busy.hero =
        Some(Hero { state: HeroState::Slashing { slash_attack_id: 0, frames_left: 0 } });
    assert!(!busy.is_well_formed());
    busy.hero =
        Some(Hero { state: HeroState::Thrusting { thrust_attack_id: 0, frames_left: 0 } });
    assert!(!busy.is_well_formed());
    busy.hero =
        Some(Hero { state: HeroState::Thrusting { thrust_attack_id: 0, frames_left: 1 } });
    assert!(busy.is_well_formed());
    let mut worn = character(Faction::Ally);
    let mut invulnerable = adventure_sim::component::Invulnerable::new();
    for _ in 0..60 {
        let _ = invulnerable.update();
    }
    worn.invulnerable = Some(invulnerable);
    assert!(!worn.is_well_formed());
    let mut landed = character(Faction::Ally);
    let mut knocked_back =
        adventure_sim::component::KnockedBack::from_positions(&at(0, 0), &at(1, 1));
    let mut felt = Velocity::default();
    for _ in 0..5 {
        let _ = knocked_back.update(&mut felt);
    }
    landed.knocked_back = Some(knocked_back);
    assert!(!landed.is_well_formed());
}

#[test]
fn hero_takes_an_exit() {
    let mut playing = Playing::new();
    playing.load_region_with(courtyard(), &still()).unwrap();
    let hero_id = playing.create_hero().unwrap();
    playing.place_at_entrance(hero_id, 0).unwrap();
    assert_eq!(playing.entities().len(), 4);

    let mut cellar = courtyard();
    cellar.enemies = vec![EnemyData { location: tile(1, 1) }, EnemyData { location: tile(1, 2) }];
    cellar.exits.clear();
    let departure = Departure { hero_id, exit_index: 0 };
    assert_eq!(playing.take_exit(&departure, cellar), Ok(()));

    // The enemy and the heart of the courtyard are gone, those of the
    // cellar are there, and the hero has kept its shield.
    assert_eq!(playing.entities().len(), 5);
    assert!(!playing.entities().is_alive(0));
    assert!(!playing.entities().is_alive(1));
    assert!(playing.entities().is_alive(hero_id + 1));
    let hero = playing.entities().get(hero_id).unwrap();
    assert_eq!(hero.position, Some(at(80, -80)));
    assert_eq!(hero.direction, Some(Direction::Up));
    assert_eq!(hero.hero, Some(Hero { state: HeroState::FreelyMoving }));
    assert!(playing.current_region().get().exits().is_empty());

    // From the cellar no exit leads on.
    assert_eq!(playing.take_exit(&departure, courtyard()), Err(Fault::NoSuchExit));
    assert_eq!(playing.entities().len(), 5);
}

#[test]
fn exit_that_leads_nowhere_is_reported() {
    let mut playing = Playing::new();
    playing.load_region_with(courtyard(), &still()).unwrap();
    let hero_id = playing.create_hero().unwrap();
    let mut bare = courtyard();
    bare.entrances.truncate(1);
    let departure = Departure { hero_id, exit_index: 0 };
    assert_eq!(playing.take_exit(&departure, bare), Err(Fault::NoSuchEntrance));
    let mut broken = courtyard();
    broken.col_count = 0;
    assert_eq!(playing.take_exit(&departure, broken), Err(Fault::MalformedRegion));
    let stranger = Departure { hero_id: 404, exit_index: 0 };
    assert_eq!(playing.take_exit(&stranger, courtyard()), Err(Fault::NoSuchEntity));
    // The enemy of the courtyard is tied to it and cannot leave.
    let native = Departure { hero_id: 0, exit_index: 0 };
    assert_eq!(playing.take_exit(&native, courtyard()), Err(Fault::NoSuchEntity));
    let nowhere = Departure { hero_id, exit_index: 1 };
    assert_eq!(playing.take_exit(&nowhere, courtyard()), Err(Fault::NoSuchExit));
    // Nothing has changed.
    assert_eq!(playing.entities().len(), 4);
    assert!(playing.entities().is_alive(0));
    assert_eq!(playing.current_region().get().exits().len(), 1);
    assert_eq!(
        playing.entities().get(hero_id).unwrap().position,
        Some(Position { x: 30 * TILE_SIZE, y: -30 * TILE_SIZE })
    );
}

#[test]
fn exit_is_taken_with_the_given_rolls() {
    let mut playing = Playing::new();
    playing.load_region_with(courtyard(), &still()).unwrap();
    let hero_id = playing.create_hero().unwrap();
    let departure = Departure { hero_id, exit_index: 0 };
    let rolls = vec![SpawnRoll { heading: Some(Direction::Left), delay: 160 }];
    assert_eq!(playing.take_exit_with(&departure, courtyard(), &rolls), Ok(()));
    assert_eq!(playing.entities().len(), 4);
    // The hero and its shield come first, then the newcomers.
    assert_eq!(playing.entities().entity(0).id, hero_id);
    assert_eq!(playing.entities().entity(1).id, hero_id + 1);
    let enemy = playing.entities().entity(2);
    assert_eq!(enemy.id, hero_id + 2);
    assert_eq!(enemy.wander, Some(Wander { direction: Some(Direction::Left) }));
    assert_eq!(enemy.shoot_arrows.unwrap().delay(), 160);
    assert!(playing.entities().entity(3).heart.is_some());
    let mut out = Playing::with_world(World::starting_at(u64::MAX - 3));
    out.load_region_with(empty_courtyard(), &Vec::new()).unwrap();
    let hero_id = out.create_hero().unwrap();
    let departure = Departure { hero_id, exit_index: 0 };
    assert_eq!(out.take_exit_with(&departure, courtyard(), &rolls), Err(Fault::OutOfIdentifiers));
    let mut lone = courtyard();
    lone.heart_locations.clear();
    assert_eq!(out.take_exit_with(&departure, lone, &rolls), Ok(()));
    assert_eq!(out.entities().entity(2).id, u64::MAX - 1);
}

#[test]
fn attacking_hero_is_set_free_by_the_exit() {
    let mut playing = Playing::new();
    playing.load_region_with(courtyard(), &still()).unwrap();
    let hero_id = playing.create_hero().unwrap();
    playing.place_at_entrance(hero_id, 1).unwrap();
    let mut attack = Input::idle();
    attack.primary = true;
    let steady = vec![EnemyRoll { change: 50, direction: Direction::Up, delay: 200 }; 8];
    assert_eq!(playing.fixed_update_with(&attack, &steady), Ok(None));
    let slash_id = hero_id + 2;
    assert!(playing.entities().is_alive(slash_id));
    let departure = Departure { hero_id, exit_index: 0 };
    assert_eq!(playing.take_exit(&departure, courtyard()), Ok(()));
    // The slash was tied to the region that was left.
    assert!(!playing.entities().is_alive(slash_id));
    let hero = playing.entities().get(hero_id).unwrap();
    assert_eq!(hero.hero, Some(Hero { state: HeroState::FreelyMoving }));
}

#[test]
fn tick_follows_the_given_rolls() {
    let mut playing = Playing::new();
    let mut data = courtyard();
    data.col_count = 8;
    data.terrain = vec![Terrain::Floor; 64];
    data.enemies = vec![EnemyData { location: tile(4, 4) }];
    data.heart_locations.clear();
    playing.load_region_with(data, &vec![SpawnRoll { heading: None, delay: 1 }]).unwrap();
    let enemy_id = 0;
    let turn = EnemyRoll { change: 0, direction: Direction::Left, delay: 170 };
    let carry_on = EnemyRoll { change: 5, direction: Direction::Up, delay: 171 };
    let stop = EnemyRoll { change: 1, direction: Direction::Up, delay: 172 };

    // The enemy turns left and walks three units; its arrow is not due yet.
    assert_eq!(playing.fixed_update_with(&Input::idle(), &vec![turn]), Ok(None));
    let enemy = playing.entities().get(enemy_id).unwrap();
    assert_eq!(enemy.position, Some(at(157, -160)));
    assert_eq!(enemy.direction, Some(Direction::Left));
    assert_eq!(enemy.shoot_arrows.unwrap().delay(), 0);
    assert_eq!(playing.entities().len(), 1);

    // It carries on and shoots to the left; the arrow flies from the next tick on.
    assert_eq!(playing.fixed_update_with(&Input::idle(), &vec![carry_on, turn]), Ok(None));
    let enemy = playing.entities().get(enemy_id).unwrap();
    assert_eq!(enemy.position, Some(at(154, -160)));
    assert_eq!(enemy.shoot_arrows.unwrap().delay(), 171);
    assert_eq!(playing.entities().len(), 2);
    let arrow = playing.entities().get(1).unwrap();
    assert_eq!(arrow.position, Some(at(147, -160)));
    assert_eq!(arrow.velocity, Some(Velocity { x: -10 * UNIT, y: 0 }));

    // It stops; the arrow flies on.
    assert_eq!(playing.fixed_update_with(&Input::idle(), &vec![stop, stop]), Ok(None));
    let enemy = playing.entities().get(enemy_id).unwrap();
    assert_eq!(enemy.position, Some(at(154, -160)));
    assert_eq!(enemy.velocity, Some(Velocity { x: 0, y: 0 }));
    assert_eq!(enemy.wander, Some(Wander { direction: None }));
    assert_eq!(enemy.shoot_arrows.unwrap().delay(), 170);
    assert_eq!(playing.entities().get(1).unwrap().position, Some(at(137, -160)));

    // With a roll too few the enemies do not act, and the tick stops.
    assert_eq!(
        playing.fixed_update_with(&Input::idle(), &vec![turn]),
        Err(Fault::TooFewRolls)
    );
    assert_eq!(playing.entities().get(1).unwrap().position, Some(at(137, -160)));
    // Rolls beyond the last entity are left unused.
    assert_eq!(
        playing.fixed_update_with(&Input::idle(), &vec![carry_on, carry_on, turn, turn]),
        Ok(None)
    );
    assert_eq!(playing.entities().get(1).unwrap().position, Some(at(127, -160)));
    assert_eq!(playing.fixed_update_with(&Input::idle(), &Vec::new()), Err(Fault::TooFewRolls));
}

#[test]
fn arrow_breaks_on_the_wall() {
    // Six rows of six tiles, the last row a wall: it begins at y = -200.
    let mut data = courtyard();
    data.col_count = 6;
    data.terrain = vec![Terrain::Floor; 30];
    data.terrain.extend(vec![Terrain::Wall; 6]);
    data.enemies = vec![EnemyData { location: tile(1, 1) }];
    data.heart_locations.clear();
    let mut playing = Playing::new();
    playing.load_region_with(data, &vec![SpawnRoll { heading: None, delay: 0 }]).unwrap();
    // The enemy faces down and shoots at once.
    let carry_on = EnemyRoll { change: 50, direction: Direction::Up, delay: 200 };
    let rolls = vec![carry_on, carry_on];
    assert_eq!(playing.fixed_update_with(&Input::idle(), &[carry_on].to_vec()), Ok(None));
    assert_eq!(playing.entities().len(), 2);
    let arrow_id = 1;
    assert_eq!(playing.entities().get(arrow_id).unwrap().position, Some(at(40, -50)));
    // The arrow flies down by ten units a tick and reaches twenty units
    // ahead of its middle: at y = -180 it rests against the wall, and with
    // the next tick it is in it.
    for tick in 1..=13 {
        assert_eq!(playing.fixed_update_with(&Input::idle(), &rolls), Ok(None));
        assert_eq!(
            playing.entities().get(arrow_id).unwrap().position,
            Some(at(40, -50 - 10 * tick))
        );
    }
    assert_eq!(playing.entities().get(arrow_id).unwrap().position, Some(at(40, -180)));
    assert_eq!(playing.fixed_update_with(&Input::idle(), &rolls), Ok(None));
    assert!(!playing.entities().is_alive(arrow_id));
    assert_eq!(playing.entities().len(), 1);
}
