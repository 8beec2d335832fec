use adventure_sim::component::collider::{HalfDiskCollider, RectangleCollider};
use adventure_sim::component::removal::{TiedToEntity, TiedToRegion};
use adventure_sim::component::{
    Direction, Enemy, Faction, Health, Hero, HeroState, Invulnerable, KnockedBack, Position,
    Shield, SlashAttack, ThrustAttack, Velocity,
};
use adventure_sim::constants::{
    INVULNERABLE_FRAMES, KNOCKBACK_FRAMES, KNOCKBACK_SPEED, SLASH_ATTACK_RADIUS, UNIT,
};
use adventure_sim::system::attack_updates::{
    all_followers_are_equipped, follow_owners, owner_of, Follower,
};
use adventure_sim::resource::{Camera, HeartImage, Hud};
use adventure_sim::system::hud_updates::show_health;
use adventure_sim::system::motion::displace;
use adventure_sim::system::{
    AttackUpdates, CameraControl, Death, HudUpdates, Invulnerability, Knockback, Motion,
    SwordAttackUpdates, SwordPositioning,
};
use adventure_sim::world::{Entity, World};
use std::collections::HashSet;

fn at(x: i32, y: i32) -> Position {
    Position { x: x * UNIT, y: y * UNIT }
}

fn body() -> RectangleCollider {
    RectangleCollider { half_width: 20 * UNIT, half_height: 20 * UNIT }
}

fn character(x: i32, y: i32, direction: Direction) -> Entity {
    let mut entity = Entity::new();
    entity.faction = Some(Faction::Ally);
    entity.health = Some(Health::new(3));
    entity.position = Some(at(x, y));
    entity.velocity = Some(Velocity::default());
    entity.direction = Some(direction);
    entity.rectangle_collider = Some(body());
    entity
}

#[test]
fn world_hands_out_identifiers_in_order() {
    let mut world = World::new();
    assert_eq!(world.len(), 0);
    assert!(!world.is_alive(0));
    assert_eq!(world.index_of(0), None);
    assert!(world.get(0).is_none());
    let mut named = Entity::new();
    named.id = 99;
    named.position = Some(at(1, 2));
    assert_eq!(world.spawn(named), 0);
    assert_eq!(world.spawn(Entity::new()), 1);
    assert_eq!(world.spawn(Entity::new()), 2);
    assert_eq!(world.len(), 3);
    assert_eq!(world.get(0).unwrap().id, 0);
    assert_eq!(world.get(0).unwrap().position, Some(at(1, 2)));
    assert_eq!(world.entity(2).id, 2);
    assert!(!world.is_alive(99));
    world.delete(1);
    assert_eq!(world.len(), 2);
    assert!(!world.is_alive(1));
    assert_eq!(world.index_of(2), Some(1));
    world.delete(1);
    assert_eq!(world.len(), 2);
    // Identifiers are not handed out twice.
    assert_eq!(world.spawn(Entity::new()), 3);
    assert_eq!(world.index_of(3), Some(2));
    assert!(world.has_room_for(1_000_000));
    assert!(world.has_room_for(usize::MAX - 4));
}

#[test]
fn world_removes_what_is_doomed() {
    let mut world = World::new();
    for _ in 0..6 {
        world.spawn(Entity::new());
    }
    let mut doomed: HashSet<u64> = HashSet::new();
    doomed.insert(0);
    doomed.insert(2);
    doomed.insert(3);
    doomed.insert(5);
    doomed.insert(77);
    world.remove_all(&doomed);
    assert_eq!(world.len(), 2);
    assert_eq!(world.entity(0).id, 1);
    assert_eq!(world.entity(1).id, 4);
    world.remove_all(&HashSet::new());
    assert_eq!(world.len(), 2);
    let mut rest: HashSet<u64> = HashSet::new();
    rest.insert(1);
    rest.insert(4);
    world.remove_all(&rest);
    assert_eq!(world.len(), 0);
}

#[test]
fn motion_moves_by_the_velocity() {
    let mut world = World::new();
    let mut walker = character(10, -10, Direction::Up);
    walker.velocity = Some(Velocity { x: 5_000, y: -3_535 });
    let walker = world.spawn(walker);
    let resting = world.spawn(character(0, 0, Direction::Up));
    let mut fixed = character(7, 7, Direction::Up);
    fixed.velocity = None;
    let fixed = world.spawn(fixed);
    let mut placeless = character(7, 7, Direction::Up);
    placeless.position = None;
    let placeless = world.spawn(placeless);
    Motion.run(&mut world);
    assert_eq!(world.get(walker).unwrap().position, Some(Position { x: 15_000, y: -13_535 }));
    assert_eq!(world.get(resting).unwrap().position, Some(at(0, 0)));
    assert_eq!(world.get(fixed).unwrap().position, Some(at(7, 7)));
    assert_eq!(world.get(placeless).unwrap().position, None);
    Motion.run(&mut world);
    assert_eq!(world.get(walker).unwrap().position, Some(Position { x: 20_000, y: -17_070 }));
    assert_eq!(world.get(walker).unwrap().velocity, Some(Velocity { x: 5_000, y: -3_535 }));
}

#[test]
fn motion_stops_at_the_ends_of_the_world() {
    assert_eq!(
        displace(&Position { x: i32::MAX - 3, y: i32::MIN + 3 }, &Velocity { x: 5, y: -5 }),
        Position { x: i32::MAX, y: i32::MIN }
    );
    assert_eq!(
        displace(&Position { x: i32::MIN, y: i32::MAX }, &Velocity { x: i32::MIN, y: i32::MAX }),
        Position { x: i32::MIN, y: i32::MAX }
    );
    assert_eq!(
        displace(&Position { x: i32::MIN, y: i32::MAX }, &Velocity { x: i32::MAX, y: i32::MIN }),
        Position { x: -1, y: -1 }
    );
}

#[test]
fn knockback_overrides_the_velocity_and_runs_out() {
    let mut world = World::new();
    let mut struck = character(0, 0, Direction::Up);
    struck.velocity = Some(Velocity { x: 1, y: 1 });
    struck.knocked_back = Some(KnockedBack::from_positions(&at(0, 0), &at(0, -5)));
    let struck = world.spawn(struck);
    let mut fixed = character(0, 0, Direction::Up);
    fixed.velocity = None;
    fixed.knocked_back = Some(KnockedBack::from_positions(&at(0, 0), &at(0, -5)));
    let fixed = world.spawn(fixed);
    let calm = world.spawn(character(0, 0, Direction::Up));
    for frame in 1..=KNOCKBACK_FRAMES {
        world.get(struck).unwrap().knocked_back.unwrap();
        Knockback.run(&mut world);
        let entity = world.get(struck).unwrap();
        assert_eq!(entity.velocity, Some(Velocity { x: 0, y: -KNOCKBACK_SPEED }));
        if frame < KNOCKBACK_FRAMES {
            assert_eq!(entity.knocked_back.unwrap().frames_left(), KNOCKBACK_FRAMES - frame);
        } else {
            assert!(entity.knocked_back.is_none());
        }
    }
    // What cannot move keeps its knockback.
    assert_eq!(
        world.get(fixed).unwrap().knocked_back.unwrap().frames_left(),
        KNOCKBACK_FRAMES
    );
    assert_eq!(world.get(calm).unwrap().velocity, Some(Velocity::default()));
    Knockback.run(&mut world);
    assert_eq!(world.get(struck).unwrap().velocity, Some(Velocity { x: 0, y: -KNOCKBACK_SPEED }));
}

#[test]
fn invulnerability_runs_out() {
    let mut world = World::new();
    let mut hurt = character(0, 0, Direction::Up);
    hurt.invulnerable = Some(Invulnerable::new());
    let hurt = world.spawn(hurt);
    let calm = world.spawn(character(0, 0, Direction::Up));
    for frame in 1..INVULNERABLE_FRAMES {
        Invulnerability.run(&mut world);
        let left = world.get(hurt).unwrap().invulnerable.unwrap();
        assert_eq!(left.frames_left(), INVULNERABLE_FRAMES - frame);
        assert_eq!(left.is_dimmed(), ((INVULNERABLE_FRAMES - frame) / 2) % 2 == 1);
    }
    Invulnerability.run(&mut world);
    assert!(world.get(hurt).unwrap().invulnerable.is_none());
    assert!(world.get(calm).unwrap().invulnerable.is_none());
    Invulnerability.run(&mut world);
    assert!(world.get(hurt).unwrap().invulnerable.is_none());
}

#[test]
fn death_takes_the_dead_and_what_is_tied_to_them() {
    let mut world = World::new();
    let mut dying = character(0, 0, Direction::Up);
    let mut health = Health::new(3);
    health.damage(3);
    dying.health = Some(health);
    let dying = world.spawn(dying);
    let living = world.spawn(character(0, 0, Direction::Up));
    let mut shield = Entity::new();
    shield.shield = Some(Shield::new(dying));
    shield.tied_to_entity = Some(TiedToEntity(dying));
    let shield = world.spawn(shield);
    let mut other_shield = Entity::new();
    other_shield.shield = Some(Shield::new(living));
    other_shield.tied_to_entity = Some(TiedToEntity(living));
    let other_shield = world.spawn(other_shield);
    // Tied to what is tied to the dead: one level is as far as it goes.
    let mut pennant = Entity::new();
    pennant.tied_to_entity = Some(TiedToEntity(shield));
    let pennant = world.spawn(pennant);
    let mut tile = Entity::new();
    tile.tied_to_region = Some(TiedToRegion);
    let tile = world.spawn(tile);

    Death.run(&mut world);

    assert!(!world.is_alive(dying));
    assert!(!world.is_alive(shield));
    assert!(world.is_alive(living));
    assert!(world.is_alive(other_shield));
    assert!(world.is_alive(pennant));
    assert!(world.is_alive(tile));
    assert_eq!(world.len(), 4);
    Death.run(&mut world);
    assert_eq!(world.len(), 4);
}

#[test]
fn death_spares_what_has_no_health() {
    let mut world = World::new();
    let mut prop = Entity::new();
    prop.position = Some(at(0, 0));
    world.spawn(prop);
    let mut empty = Entity::new();
    empty.health = Some(Health::new(0));
    let empty = world.spawn(empty);
    Death.run(&mut world);
    assert_eq!(world.len(), 1);
    assert!(!world.is_alive(empty));
}

fn thrust_of(source: u64) -> Entity {
    let mut entity = Entity::new();
    entity.thrust_attack = Some(ThrustAttack::new(source));
    entity.tied_to_entity = Some(TiedToEntity(source));
    entity.position = Some(at(0, 0));
    entity.direction = Some(Direction::Up);
    entity.rectangle_collider = Some(ThrustAttack::compute_collider(&Direction::Up));
    entity
}

fn slash_of(source: u64) -> Entity {
    let mut entity = Entity::new();
    entity.slash_attack = Some(SlashAttack::new(source));
    entity.position = Some(at(0, 0));
    entity.direction = Some(Direction::Up);
    entity.half_disk_collider = Some(HalfDiskCollider { radius: 7, direction: Direction::Up });
    entity
}

fn shield_of(bearer: u64) -> Entity {
    let mut entity = Entity::new();
    entity.shield = Some(Shield::new(bearer));
    entity.position = Some(at(0, 0));
    entity.direction = Some(Direction::Up);
    entity.rectangle_collider = Some(Shield::compute_collider(&Direction::Up));
    entity
}

#[test]
fn attacks_follow_their_sources() {
    let mut world = World::new();
    let source = world.spawn(character(100, -100, Direction::Right));
    let thrust = world.spawn(thrust_of(source));
    let slash = world.spawn(slash_of(source));
    let shield = world.spawn(shield_of(source));
    assert!(all_followers_are_equipped(&world));

    AttackUpdates.run(&mut world);

    let entity = world.get(thrust).unwrap();
    assert_eq!(entity.position, Some(at(140, -100)));
    assert_eq!(entity.direction, Some(Direction::Right));
    assert_eq!(entity.rectangle_collider, Some(ThrustAttack::compute_collider(&Direction::Right)));
    let entity = world.get(slash).unwrap();
    assert_eq!(entity.position, Some(at(120, -100)));
    assert_eq!(entity.direction, Some(Direction::Right));
    // The radius of the half-disk is kept, its direction follows.
    assert_eq!(
        entity.half_disk_collider,
        Some(HalfDiskCollider { radius: 7, direction: Direction::Right })
    );
    let entity = world.get(shield).unwrap();
    assert_eq!(entity.position, Some(at(126, -100)));
    assert_eq!(entity.direction, Some(Direction::Right));
    assert_eq!(entity.rectangle_collider, Some(Shield::compute_collider(&Direction::Right)));
    // The source is left alone.
    assert_eq!(world.get(source).unwrap().position, Some(at(100, -100)));
    assert_eq!(world.len(), 4);
}

#[test]
fn attacks_without_a_source_are_removed() {
    let mut world = World::new();
    let source = world.spawn(character(100, -100, Direction::Down));
    let orphan_thrust = world.spawn(thrust_of(500));
    let orphan_slash = world.spawn(slash_of(501));
    let orphan_shield = world.spawn(shield_of(502));
    let thrust = world.spawn(thrust_of(source));
    assert!(all_followers_are_equipped(&world));
    AttackUpdates.run(&mut world);
    assert!(!world.is_alive(orphan_thrust));
    assert!(!world.is_alive(orphan_slash));
    assert!(!world.is_alive(orphan_shield));
    assert!(world.is_alive(source));
    assert_eq!(world.get(thrust).unwrap().position, Some(at(100, -140)));
    assert_eq!(world.len(), 2);
}

#[test]
fn followers_are_told_by_their_kind() {
    let mut world = World::new();
    let source = world.spawn(character(100, -100, Direction::Left));
    let thrust = world.spawn(thrust_of(source));
    let slash = world.spawn(slash_of(source));
    assert_eq!(owner_of(&world, Follower::Thrust, 1), Some(source));
    assert_eq!(owner_of(&world, Follower::Slash, 1), None);
    assert_eq!(owner_of(&world, Follower::Slash, 2), Some(source));
    assert_eq!(owner_of(&world, Follower::Shield, 2), None);
    assert_eq!(owner_of(&world, Follower::Thrust, 0), None);
    let mut doomed: HashSet<u64> = HashSet::new();
    follow_owners(&mut world, Follower::Thrust, &mut doomed);
    assert!(doomed.is_empty());
    assert_eq!(world.get(thrust).unwrap().position, Some(at(60, -100)));
    assert_eq!(world.get(slash).unwrap().position, Some(at(0, 0)));
}

#[test]
fn sword_updates_leave_shields_alone() {
    let mut world = World::new();
    let source = world.spawn(character(100, -100, Direction::Left));
    let thrust = world.spawn(thrust_of(source));
    let slash = world.spawn(slash_of(source));
    let shield = world.spawn(shield_of(source));
    let orphan = world.spawn(slash_of(404));
    SwordAttackUpdates.run(&mut world);
    assert_eq!(world.get(thrust).unwrap().position, Some(at(60, -100)));
    assert_eq!(world.get(slash).unwrap().position, Some(at(80, -100)));
    assert_eq!(world.get(shield).unwrap().position, Some(at(0, 0)));
    assert!(!world.is_alive(orphan));
}

#[test]
fn sword_positioning_moves_thrusts_only() {
    let mut world = World::new();
    let source = world.spawn(character(100, -100, Direction::Up));
    let thrust = world.spawn(thrust_of(source));
    let slash = world.spawn(slash_of(source));
    let orphan = world.spawn(thrust_of(404));
    let orphan_slash = world.spawn(slash_of(404));
    SwordPositioning.run(&mut world);
    assert_eq!(world.get(thrust).unwrap().position, Some(at(100, -60)));
    assert_eq!(world.get(slash).unwrap().position, Some(at(0, 0)));
    assert!(!world.is_alive(orphan));
    assert!(world.is_alive(orphan_slash));
}

#[test]
fn unequipped_followers_are_found_out() {
    let mut world = World::new();
    let mut source = character(100, -100, Direction::Left);
    source.rectangle_collider = None;
    let source = world.spawn(source);
    assert!(all_followers_are_equipped(&world));
    world.spawn(thrust_of(source));
    assert!(!all_followers_are_equipped(&world));

    let mut world = World::new();
    let source = world.spawn(character(100, -100, Direction::Left));
    let mut placeless = slash_of(source);
    placeless.position = None;
    world.spawn(placeless);
    assert!(!all_followers_are_equipped(&world));

    let mut world = World::new();
    let source = world.spawn(character(100, -100, Direction::Left));
    let mut shapeless = shield_of(source);
    shapeless.rectangle_collider = None;
    shapeless.half_disk_collider = Some(SlashAttack::compute_collider(&Direction::Up));
    world.spawn(shapeless);
    assert!(!all_followers_are_equipped(&world));

    // A follower whose owner is gone needs nothing: it is removed.
    let mut world = World::new();
    let mut bare = Entity::new();
    bare.thrust_attack = Some(ThrustAttack::new(404));
    let bare = world.spawn(bare);
    assert!(all_followers_are_equipped(&world));
    AttackUpdates.run(&mut world);
    assert!(!world.is_alive(bare));
}

#[test]
fn slash_reaches_as_far_as_its_radius() {
    assert_eq!(SLASH_ATTACK_RADIUS, 40 * UNIT);
    let mut world = World::new();
    let mut hero = character(0, 0, Direction::Up);
    hero.hero = Some(Hero { state: HeroState::FreelyMoving });
    let hero = world.spawn(hero);
    let mut slash = slash_of(hero);
    slash.half_disk_collider = Some(SlashAttack::compute_collider(&Direction::Down));
    let slash = world.spawn(slash);
    let mut target = character(0, 79, Direction::Down);
    target.faction = Some(Faction::Enemy);
    target.enemy = Some(Enemy);
    let target = world.spawn(target);
    AttackUpdates.run(&mut world);
    // The slash stands on the upper edge of the hero and faces up.
    assert_eq!(world.get(slash).unwrap().position, Some(at(0, 20)));
    adventure_sim::system::DynamicCollisionDetection.run(&mut world);
    // The target's lower edge is 39 above the slash: within reach.
    assert_eq!(world.get(target).unwrap().health.unwrap().current(), 2);
}

#[test]
fn camera_follows_the_hero() {
    let mut camera = Camera { position: at(1, 2) };
    let mut world = World::new();
    world.spawn(character(5, 5, Direction::Up));
    CameraControl.run(&world, &mut camera);
    // Nobody to follow: the camera stays.
    assert_eq!(camera, Camera { position: at(1, 2) });
    let mut hero = character(30, -40, Direction::Up);
    hero.hero = Some(Hero { state: HeroState::FreelyMoving });
    world.spawn(hero);
    world.spawn(character(7, 7, Direction::Up));
    let mut lost = Entity::new();
    lost.hero = Some(Hero { state: HeroState::FreelyMoving });
    world.spawn(lost);
    CameraControl.run(&world, &mut camera);
    assert_eq!(camera.position, at(30, -40));
    // Of several heroes the last one is followed.
    let mut second = character(-3, 9, Direction::Up);
    second.hero = Some(Hero { state: HeroState::FreelyMoving });
    world.spawn(second);
    CameraControl.run(&world, &mut camera);
    assert_eq!(camera.position, at(-3, 9));
}

#[test]
fn hud_shows_the_health_of_the_hero() {
    let mut hud = Hud::new();
    assert_eq!(hud.max_hearts, 0);
    assert!(hud.heart_images.is_empty());
    let mut world = World::new();
    world.spawn(character(0, 0, Direction::Up));
    HudUpdates.run(&world, &mut hud);
    // Nobody to show: the HUD stays.
    assert_eq!(hud.max_hearts, 0);
    assert!(hud.heart_images.is_empty());
    let mut hero = character(0, 0, Direction::Up);
    hero.hero = Some(Hero { state: HeroState::FreelyMoving });
    let mut health = Health::new(5);
    health.damage(2);
    hero.health = Some(health);
    world.spawn(hero);
    HudUpdates.run(&world, &mut hud);
    assert_eq!(hud.max_hearts, 5);
    assert_eq!(
        hud.heart_images,
        vec![
            HeartImage::Full,
            HeartImage::Full,
            HeartImage::Full,
            HeartImage::Empty,
            HeartImage::Empty
        ]
    );
    // Fewer hearts, all of them empty.
    let mut spent = Health::new(2);
    spent.damage(2);
    show_health(&mut hud, &spent);
    assert_eq!(hud.max_hearts, 2);
    assert_eq!(hud.heart_images, vec![HeartImage::Empty, HeartImage::Empty]);
    // More hearts, all of them full.
    show_health(&mut hud, &Health::new(3));
    assert_eq!(hud.heart_images, vec![HeartImage::Full, HeartImage::Full, HeartImage::Full]);
    show_health(&mut hud, &Health::new(0));
    assert_eq!(hud.max_hearts, 0);
    assert!(hud.heart_images.is_empty());
}
