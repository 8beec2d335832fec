use adventure_sim::component::collider::RectangleCollider;
use adventure_sim::component::{
    ArrowAttack, Direction, Enemy, Faction, Health, Heart, Hero, HeroState, Invulnerable,
    KnockedBack, Position, SlashAttack, ThrustAttack, Velocity,
};
use adventure_sim::constants::{
    INVULNERABLE_FRAMES, KNOCKBACK_FRAMES, KNOCKBACK_SPEED, UNIT,
};
use adventure_sim::system::dynamic_collision_detection::{
    resolve_arrows, resolve_hearts, resolve_hero_bodies, resolve_slashes, resolve_thrusts,
};
use adventure_sim::system::targeting::{
    all_targets_have_health, can_be_hit, find_best_target, strike, Targets,
};
use adventure_sim::system::{CollisionDetection, DynamicCollisionDetection, Knockback};
use adventure_sim::world::{Entity, World};
use std::collections::HashSet;

fn rect(half_width: i32, half_height: i32) -> RectangleCollider {
    RectangleCollider { half_width: half_width * UNIT, half_height: half_height * UNIT }
}

/// A position in world units.
fn at(x: i32, y: i32) -> Position {
    Position { x: x * UNIT, y: y * UNIT }
}

fn enemy(x: i32, y: i32) -> Entity {
    let mut entity = Entity::new();
    entity.enemy = Some(Enemy);
    entity.faction = Some(Faction::Enemy);
    entity.health = Some(Health::new(3));
    entity.position = Some(at(x, y));
    entity.velocity = Some(Velocity::default());
    entity.direction = Some(Direction::Down);
    entity.rectangle_collider = Some(rect(20, 20));
    entity
}

fn hero(x: i32, y: i32) -> Entity {
    let mut entity = Entity::new();
    entity.hero = Some(Hero { state: HeroState::FreelyMoving });
    entity.faction = Some(Faction::Ally);
    entity.health = Some(Health::new(20));
    entity.position = Some(at(x, y));
    entity.velocity = Some(Velocity::default());
    entity.direction = Some(Direction::Down);
    entity.rectangle_collider = Some(rect(20, 20));
    entity
}

fn thrust(source: u64, x: i32, y: i32, direction: Direction) -> Entity {
    let mut entity = Entity::new();
    entity.thrust_attack = Some(ThrustAttack::new(source));
    entity.position = Some(at(x, y));
    entity.direction = Some(direction);
    entity.rectangle_collider = Some(ThrustAttack::compute_collider(&direction));
    entity
}

fn slash(source: u64, x: i32, y: i32, direction: Direction) -> Entity {
    let mut entity = Entity::new();
    entity.slash_attack = Some(SlashAttack::new(source));
    entity.position = Some(at(x, y));
    entity.direction = Some(direction);
    entity.half_disk_collider = Some(SlashAttack::compute_collider(&direction));
    entity
}

fn arrow(faction: Faction, x: i32, y: i32, direction: Direction) -> Entity {
    let mut entity = Entity::new();
    entity.arrow_attack = Some(ArrowAttack::new(faction));
    entity.position = Some(at(x, y));
    entity.direction = Some(direction);
    entity.velocity = Some(Velocity::default());
    entity.rectangle_collider = Some(ArrowAttack::compute_collider(&direction));
    entity
}

fn heart(x: i32, y: i32) -> Entity {
    let mut entity = Entity::new();
    entity.heart = Some(Heart);
    entity.position = Some(at(x, y));
    entity.rectangle_collider = Some(rect(13, 12));
    entity
}

fn health_of(world: &World, id: u64) -> i32 {
    world.get(id).unwrap().health.unwrap().current()
}

fn is_knocked_back(world: &World, id: u64) -> bool {
    world.get(id).unwrap().knocked_back.is_some()
}

/// Lets the knockbacks of the world run out.
fn recover(world: &mut World) {
    for _ in 0..KNOCKBACK_FRAMES {
        Knockback.run(world);
    }
}

/// The velocity that a knockback imposes.
fn knockback_velocity(world: &World, id: u64) -> Velocity {
    let mut felt = Velocity::default();
    let mut knocked: KnockedBack = world.get(id).unwrap().knocked_back.unwrap();
    let _ = knocked.update(&mut felt);
    felt
}

#[test]
fn thrust_hits_the_enemy_with_the_larger_overlap() {
    let mut world = World::new();
    // The thrust spans x from 0 to 40 and y from -6 to 6.
    let far = world.spawn(enemy(50, 0));
    let near = world.spawn(enemy(45, 0));
    let attack = world.spawn(thrust(99, 20, 0, Direction::Right));
    assert!(all_targets_have_health(&world));

    DynamicCollisionDetection.run(&mut world);

    // Only the one with the larger overlap takes damage and knockback.
    assert_eq!(health_of(&world, near), 2);
    assert!(is_knocked_back(&world, near));
    assert_eq!(knockback_velocity(&world, near), Velocity { x: KNOCKBACK_SPEED, y: 0 });
    assert_eq!(world.get(near).unwrap().knocked_back.unwrap().frames_left(), KNOCKBACK_FRAMES);
    // The other is untouched.
    assert_eq!(health_of(&world, far), 3);
    assert!(!is_knocked_back(&world, far));
    assert_eq!(world.get(far).unwrap().position, Some(at(50, 0)));
    // The thrust has landed.
    assert!(!world.get(attack).unwrap().thrust_attack.unwrap().is_active());
    assert_eq!(world.len(), 3);
}

#[test]
fn thrust_that_overlaps_equally_hits_the_first() {
    let mut world = World::new();
    let first = world.spawn(enemy(45, 3));
    let second = world.spawn(enemy(45, -3));
    world.spawn(thrust(99, 20, 0, Direction::Right));
    DynamicCollisionDetection.run(&mut world);
    assert_eq!(health_of(&world, first), 2);
    assert_eq!(health_of(&world, second), 3);
}

#[test]
fn thrust_that_only_touches_does_not_hit() {
    let mut world = World::new();
    let touching = world.spawn(enemy(60, 0));
    let attack = world.spawn(thrust(99, 20, 0, Direction::Right));
    DynamicCollisionDetection.run(&mut world);
    assert_eq!(health_of(&world, touching), 3);
    assert!(!is_knocked_back(&world, touching));
    assert!(world.get(attack).unwrap().thrust_attack.unwrap().is_active());
}

#[test]
fn spent_thrust_hits_nobody() {
    let mut world = World::new();
    let target = world.spawn(enemy(45, 0));
    let mut spent = thrust(99, 20, 0, Direction::Right);
    let mut attack = ThrustAttack::new(99);
    attack.make_inactive();
    spent.thrust_attack = Some(attack);
    world.spawn(spent);
    DynamicCollisionDetection.run(&mut world);
    assert_eq!(health_of(&world, target), 3);
    assert!(!is_knocked_back(&world, target));
}

#[test]
fn thrust_hits_enemies_only() {
    let mut world = World::new();
    let bystander = world.spawn(hero(45, 0));
    let attack = world.spawn(thrust(99, 20, 0, Direction::Right));
    resolve_thrusts(&mut world);
    assert_eq!(health_of(&world, bystander), 20);
    assert!(world.get(attack).unwrap().thrust_attack.unwrap().is_active());
}

#[test]
fn enemy_is_hit_once_by_two_thrusts() {
    let mut world = World::new();
    let target = world.spawn(enemy(45, 0));
    let first = world.spawn(thrust(99, 20, 0, Direction::Right));
    let second = world.spawn(thrust(98, 20, 2, Direction::Right));
    DynamicCollisionDetection.run(&mut world);
    assert_eq!(health_of(&world, target), 2);
    assert!(!world.get(first).unwrap().thrust_attack.unwrap().is_active());
    // The enemy was out of reach for the second thrust, which can still land.
    assert!(world.get(second).unwrap().thrust_attack.unwrap().is_active());
    // While the enemy is being knocked back it stays out of reach.
    DynamicCollisionDetection.run(&mut world);
    assert_eq!(health_of(&world, target), 2);
    assert!(world.get(second).unwrap().thrust_attack.unwrap().is_active());
    // Once it has recovered the second thrust lands.
    recover(&mut world);
    assert!(!is_knocked_back(&world, target));
    DynamicCollisionDetection.run(&mut world);
    assert_eq!(health_of(&world, target), 1);
    assert!(!world.get(second).unwrap().thrust_attack.unwrap().is_active());
}

#[test]
fn two_thrusts_hit_two_enemies() {
    let mut world = World::new();
    let left = world.spawn(enemy(45, 0));
    let right = world.spawn(enemy(45, 100));
    world.spawn(thrust(99, 20, 0, Direction::Right));
    world.spawn(thrust(98, 20, 100, Direction::Right));
    DynamicCollisionDetection.run(&mut world);
    assert_eq!(health_of(&world, left), 2);
    assert_eq!(health_of(&world, right), 2);
}

#[test]
fn knockback_points_from_the_attack_to_the_target() {
    let mut world = World::new();
    let target = world.spawn(enemy(30, 40));
    strike(&mut world, 0, &at(0, 0));
    assert_eq!(health_of(&world, target), 2);
    assert_eq!(knockback_velocity(&world, target), Velocity { x: 7_500, y: 10_000 });
    strike(&mut world, 0, &at(30, 40));
    assert_eq!(health_of(&world, target), 1);
    assert_eq!(knockback_velocity(&world, target), Velocity { x: KNOCKBACK_SPEED, y: 0 });
}

#[test]
fn best_target_is_the_one_with_the_most_shared_area() {
    let mut world = World::new();
    world.spawn(enemy(100, 0));
    world.spawn(enemy(30, 0));
    world.spawn(enemy(10, 0));
    world.spawn(hero(0, 0));
    let mut knocked = enemy(0, 0);
    knocked.knocked_back = Some(KnockedBack::from_positions(&at(0, 0), &at(1, 0)));
    world.spawn(knocked);
    let mut bodiless = enemy(0, 0);
    bodiless.rectangle_collider = None;
    world.spawn(bodiless);
    let collider = rect(20, 20);
    assert_eq!(find_best_target(&world, Targets::Enemies, &collider, &at(0, 0)), Some(2));
    assert_eq!(find_best_target(&world, Targets::Enemies, &collider, &at(35, 0)), Some(1));
    assert_eq!(find_best_target(&world, Targets::Enemies, &collider, &at(0, 500)), None);
    assert_eq!(
        find_best_target(&world, Targets::FoesOf(Faction::Enemy), &collider, &at(10, 0)),
        Some(3)
    );
    assert_eq!(
        find_best_target(&world, Targets::FoesOf(Faction::Ally), &collider, &at(10, 0)),
        Some(2)
    );
    assert!(can_be_hit(&world, 0, Targets::Enemies));
    assert!(!can_be_hit(&world, 3, Targets::Enemies));
    assert!(!can_be_hit(&world, 4, Targets::Enemies));
    assert!(!can_be_hit(&world, 5, Targets::Enemies));
    assert!(can_be_hit(&world, 3, Targets::FoesOf(Faction::Enemy)));
    assert!(!can_be_hit(&world, 3, Targets::FoesOf(Faction::Ally)));
}

#[test]
fn arrow_hits_the_other_faction_and_breaks() {
    let mut world = World::new();
    let archer = world.spawn(enemy(0, 0));
    let target = world.spawn(hero(30, 0));
    let shot = world.spawn(arrow(Faction::Enemy, 10, 0, Direction::Right));
    DynamicCollisionDetection.run(&mut world);
    // The archer shares more area with the arrow, but is of its faction.
    assert_eq!(health_of(&world, archer), 3);
    assert_eq!(health_of(&world, target), 19);
    assert!(is_knocked_back(&world, target));
    assert_eq!(knockback_velocity(&world, target), Velocity { x: KNOCKBACK_SPEED, y: 0 });
    assert!(!world.is_alive(shot));
    assert_eq!(world.len(), 2);
}

#[test]
fn arrow_that_hits_nobody_flies_on() {
    let mut world = World::new();
    let archer = world.spawn(enemy(0, 0));
    let shot = world.spawn(arrow(Faction::Enemy, 10, 0, Direction::Right));
    let stray = world.spawn(arrow(Faction::Ally, 500, 0, Direction::Right));
    let mut doomed: HashSet<u64> = HashSet::new();
    resolve_arrows(&mut world, &mut doomed);
    assert!(doomed.is_empty());
    DynamicCollisionDetection.run(&mut world);
    assert!(world.is_alive(shot));
    assert!(world.is_alive(stray));
    assert_eq!(health_of(&world, archer), 3);
}

#[test]
fn arrow_of_an_ally_hits_an_enemy() {
    let mut world = World::new();
    let target = world.spawn(enemy(30, 0));
    let shot = world.spawn(arrow(Faction::Ally, 10, 0, Direction::Right));
    let mut doomed: HashSet<u64> = HashSet::new();
    resolve_arrows(&mut world, &mut doomed);
    assert!(doomed.contains(&shot));
    assert_eq!(doomed.len(), 1);
    assert_eq!(health_of(&world, target), 2);
    // The arrow is removed when the pass is over, not before.
    assert!(world.is_alive(shot));
}

#[test]
fn slash_hits_every_enemy_in_reach_once() {
    let mut world = World::new();
    let ahead = world.spawn(enemy(0, 50));
    let aside = world.spawn(enemy(55, 10));
    let behind = world.spawn(enemy(0, -25));
    let beyond = world.spawn(enemy(0, 100));
    let sweep = world.spawn(slash(99, 0, 0, Direction::Up));

    DynamicCollisionDetection.run(&mut world);

    assert_eq!(health_of(&world, ahead), 2);
    assert_eq!(health_of(&world, aside), 2);
    assert_eq!(health_of(&world, behind), 3);
    assert_eq!(health_of(&world, beyond), 3);
    assert!(is_knocked_back(&world, ahead));
    assert!(is_knocked_back(&world, aside));
    assert_eq!(knockback_velocity(&world, ahead), Velocity { x: 0, y: KNOCKBACK_SPEED });
    {
        let attack = world.get(sweep).unwrap().slash_attack.as_ref().unwrap();
        assert!(attack.has_been_hit(ahead));
        assert!(attack.has_been_hit(aside));
        assert!(!attack.has_been_hit(behind));
        assert!(!attack.has_been_hit(beyond));
    }

    // The same slash never hits the same enemy again, however long it lasts.
    for _ in 0..3 {
        recover(&mut world);
        assert!(!is_knocked_back(&world, ahead));
        DynamicCollisionDetection.run(&mut world);
        assert_eq!(health_of(&world, ahead), 2);
        assert_eq!(health_of(&world, aside), 2);
        assert!(!is_knocked_back(&world, ahead));
    }
}

#[test]
fn slash_hits_a_newcomer_later() {
    let mut world = World::new();
    let first = world.spawn(enemy(0, 50));
    world.spawn(slash(99, 0, 0, Direction::Up));
    resolve_slashes(&mut world);
    assert_eq!(health_of(&world, first), 2);
    let second = world.spawn(enemy(10, 50));
    recover(&mut world);
    resolve_slashes(&mut world);
    assert_eq!(health_of(&world, first), 2);
    assert_eq!(health_of(&world, second), 2);
}

#[test]
fn two_slashes_hit_the_same_enemy_in_turn() {
    let mut world = World::new();
    let target = world.spawn(enemy(0, 50));
    world.spawn(slash(99, 0, 0, Direction::Up));
    world.spawn(slash(98, 0, 10, Direction::Up));
    DynamicCollisionDetection.run(&mut world);
    // The enemy was being knocked back when the second slash came.
    assert_eq!(health_of(&world, target), 2);
    recover(&mut world);
    DynamicCollisionDetection.run(&mut world);
    assert_eq!(health_of(&world, target), 1);
    recover(&mut world);
    DynamicCollisionDetection.run(&mut world);
    assert_eq!(health_of(&world, target), 1);
}

#[test]
fn hero_is_hurt_by_the_enemy_it_runs_into() {
    let mut world = World::new();
    let player = world.spawn(hero(0, 0));
    let grazing = world.spawn(enemy(-35, 0));
    let bumping = world.spawn(enemy(0, 30));

    DynamicCollisionDetection.run(&mut world);

    assert_eq!(health_of(&world, player), 19);
    // Knocked away from the enemy that it shares the most area with.
    assert_eq!(knockback_velocity(&world, player), Velocity { x: 0, y: -KNOCKBACK_SPEED });
    assert_eq!(
        world.get(player).unwrap().invulnerable.unwrap().frames_left(),
        INVULNERABLE_FRAMES
    );
    assert_eq!(health_of(&world, grazing), 3);
    assert_eq!(health_of(&world, bumping), 3);
    assert!(!is_knocked_back(&world, bumping));

    // While it is invulnerable the hero is not hurt again.
    recover(&mut world);
    assert!(!is_knocked_back(&world, player));
    DynamicCollisionDetection.run(&mut world);
    assert_eq!(health_of(&world, player), 19);
    assert!(!is_knocked_back(&world, player));
}

#[test]
fn hero_that_is_knocked_back_is_not_hurt() {
    let mut world = World::new();
    let mut flying = hero(0, 0);
    flying.knocked_back = Some(KnockedBack::from_positions(&at(0, 0), &at(1, 0)));
    let player = world.spawn(flying);
    world.spawn(enemy(0, 30));
    resolve_hero_bodies(&mut world);
    assert_eq!(health_of(&world, player), 20);
    assert!(world.get(player).unwrap().invulnerable.is_none());
}

#[test]
fn invulnerable_hero_is_not_hurt() {
    let mut world = World::new();
    let mut shielded = hero(0, 0);
    shielded.invulnerable = Some(Invulnerable::new());
    let player = world.spawn(shielded);
    world.spawn(enemy(0, 30));
    resolve_hero_bodies(&mut world);
    assert_eq!(health_of(&world, player), 20);
    assert!(!is_knocked_back(&world, player));
}

#[test]
fn enemy_that_was_just_hit_does_not_hurt_the_hero() {
    let mut world = World::new();
    let player = world.spawn(hero(0, 0));
    let target = world.spawn(enemy(30, 0));
    world.spawn(thrust(player, 40, 0, Direction::Right));
    DynamicCollisionDetection.run(&mut world);
    assert_eq!(health_of(&world, target), 2);
    assert_eq!(health_of(&world, player), 20);
    assert!(!is_knocked_back(&world, player));
}

#[test]
fn hero_picks_up_every_heart_it_touches() {
    let mut world = World::new();
    let mut wounded = hero(0, 0);
    let mut health = Health::new(20);
    health.damage(15);
    wounded.health = Some(health);
    let player = world.spawn(wounded);
    let first = world.spawn(heart(10, 10));
    let second = world.spawn(heart(-30, 0));
    let away = world.spawn(heart(33, 0));

    DynamicCollisionDetection.run(&mut world);

    assert_eq!(health_of(&world, player), 7);
    assert!(!world.is_alive(first));
    assert!(!world.is_alive(second));
    assert!(world.is_alive(away));
    assert_eq!(world.len(), 2);
}

#[test]
fn heart_is_taken_even_at_full_health() {
    let mut world = World::new();
    let player = world.spawn(hero(0, 0));
    let pickup = world.spawn(heart(0, 0));
    let mut doomed: HashSet<u64> = HashSet::new();
    resolve_hearts(&mut world, &mut doomed);
    assert_eq!(health_of(&world, player), 20);
    assert!(doomed.contains(&pickup));
}

#[test]
fn hero_is_hurt_and_healed_in_one_pass() {
    let mut world = World::new();
    let player = world.spawn(hero(0, 0));
    world.spawn(enemy(0, 30));
    let pickup = world.spawn(heart(0, 0));
    DynamicCollisionDetection.run(&mut world);
    assert_eq!(health_of(&world, player), 20);
    assert!(is_knocked_back(&world, player));
    assert!(!world.is_alive(pickup));
}

#[test]
fn targets_without_health_are_found_out() {
    let mut world = World::new();
    world.spawn(enemy(0, 0));
    world.spawn(hero(0, 0));
    assert!(all_targets_have_health(&world));
    // A character without a body cannot be hit and needs no health.
    let mut bodiless = enemy(0, 0);
    bodiless.health = None;
    bodiless.position = None;
    world.spawn(bodiless);
    assert!(all_targets_have_health(&world));
    let mut immortal = enemy(0, 0);
    immortal.health = None;
    world.spawn(immortal);
    assert!(!all_targets_have_health(&world));
}

#[test]
fn collision_detection_pushes_and_hurts() {
    let region = adventure_sim::resource::Region::new(
        2,
        vec![
            adventure_sim::component::Terrain::Wall,
            adventure_sim::component::Terrain::Floor,
            adventure_sim::component::Terrain::Floor,
            adventure_sim::component::Terrain::Floor,
        ],
        Vec::new(),
        Vec::new(),
    );
    let mut world = World::new();
    // The hero overlaps the wall tile with its left edge.
    let player = world.spawn(hero(57, -20));
    let bumping = world.spawn(enemy(60, -50));
    CollisionDetection.run(&mut world, &region);
    assert_eq!(world.get(player).unwrap().position, Some(at(60, -20)));
    assert_eq!(health_of(&world, player), 19);
    assert_eq!(knockback_velocity(&world, player), Velocity { x: 0, y: KNOCKBACK_SPEED });
    assert_eq!(health_of(&world, bumping), 3);
}
