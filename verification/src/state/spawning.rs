//! How the entities of a region come into the world and leave it.

use std::collections::HashSet;
use vstd::prelude::*;

use crate::component::behavior::shoot_arrows::{is_arrow_delay, ShootArrows};
use crate::component::behavior::wander::Wander;
use crate::component::collider::RectangleCollider;
use crate::component::direction::Direction;
use crate::component::enemy::Enemy;
use crate::component::faction::Faction;
use crate::component::health::Health;
use crate::component::heart::Heart;
use crate::component::hero::{Hero, HeroState};
use crate::component::position::{Position, TileCoords};
use crate::component::removal::{TiedToEntity, TiedToRegion};
use crate::component::shield::Shield;
use crate::component::velocity::Velocity;
use crate::constants::{
    ENEMY_BASE_HEALTH,
    HALF_TILE,
    HEART_HEIGHT,
    HEART_WIDTH,
    HERO_BASE_HEALTH,
    MAX_ARROW_DELAY,
    MIN_ARROW_DELAY,
};
use crate::random::random_in_range;
use crate::resource::entrance::Entrance;
use crate::resource::region_data::EnemyData;
use crate::world::{is_listed, place_of, survivors, Entity, EntityView, World};

verus! {

/// What chance decides for one enemy when it is spawned.
#[derive(PartialEq, Eq, Structural, Copy, Clone, Debug)]
pub struct SpawnRoll {
    /// Where the enemy heads at first, if it does not stand still.
    pub heading: Option<Direction>,
    /// The time the enemy waits for its first arrow.
    pub delay: u32,
}

/// Whether each of the rolls is one that chance can produce.
pub open spec fn are_fair_spawns(rolls: Seq<SpawnRoll>) -> bool {
    forall|index: int| 0 <= index < rolls.len() ==> is_arrow_delay((#[trigger] rolls[index]).delay)
}

/// The body of a character: as large as a tile.
pub open spec fn character_body() -> RectangleCollider {
    RectangleCollider { half_width: HALF_TILE, half_height: HALF_TILE }
}

/// The body of a heart.
pub open spec fn heart_body() -> RectangleCollider {
    RectangleCollider {
        half_width: (HEART_WIDTH / 2) as i32,
        half_height: (HEART_HEIGHT / 2) as i32,
    }
}

/// A hero in full health that stands at `position` and faces `direction`.
pub open spec fn new_hero(id: u64, position: Position, direction: Direction) -> EntityView {
    EntityView {
        hero: Some(Hero { state: HeroState::FreelyMoving }),
        faction: Some(Faction::Ally),
        health: Some(Health::full(HERO_BASE_HEALTH)),
        position: Some(position),
        velocity: Some(Velocity::zero()),
        direction: Some(direction),
        rectangle_collider: Some(character_body()),
        ..EntityView::blank(id)
    }
}

/// The shield of the hero with the given identifier, place and facing.
pub open spec fn new_shield(
    id: u64,
    hero_id: u64,
    position: Position,
    direction: Direction,
) -> EntityView {
    EntityView {
        shield: Some(Shield::bearing(hero_id)),
        tied_to_entity: Some(TiedToEntity(hero_id)),
        position: Some(Shield::position_for(position, direction, character_body())),
        direction: Some(direction),
        rectangle_collider: Some(Shield::collider_for(direction)),
        ..EntityView::blank(id)
    }
}

/// An enemy in full health on the given tile, with what the roll decides.
pub open spec fn new_enemy(id: u64, location: TileCoords, roll: SpawnRoll) -> EntityView {
    EntityView {
        enemy: Some(Enemy),
        tied_to_region: Some(TiedToRegion),
        faction: Some(Faction::Enemy),
        health: Some(Health::full(ENEMY_BASE_HEALTH)),
        wander: Some(Wander { direction: roll.heading }),
        shoot_arrows: Some(ShootArrows::waiting(roll.delay)),
        position: Some(location.anchor()),
        velocity: Some(Velocity::zero()),
        direction: Some(Direction::Down),
        rectangle_collider: Some(character_body()),
        ..EntityView::blank(id)
    }
}

/// A heart on the given tile.
pub open spec fn new_heart(id: u64, location: TileCoords) -> EntityView {
    EntityView {
        heart: Some(Heart),
        tied_to_region: Some(TiedToRegion),
        position: Some(location.anchor()),
        direction: Some(Direction::Down),
        rectangle_collider: Some(heart_body()),
        ..EntityView::blank(id)
    }
}

/// The enemies that a region holds at first, with identifiers from
/// `next_id` on.
pub open spec fn new_enemies(
    next_id: int,
    enemies: Seq<EnemyData>,
    rolls: Seq<SpawnRoll>,
) -> Seq<EntityView> {
    Seq::new(
        enemies.len(),
        |index: int| new_enemy((next_id + index) as u64, enemies[index].location, rolls[index]),
    )
}

/// The hearts that a region holds at first, with identifiers from
/// `next_id` on.
pub open spec fn new_hearts(next_id: int, locations: Seq<TileCoords>) -> Seq<EntityView> {
    Seq::new(locations.len(), |index: int| new_heart((next_id + index) as u64, locations[index]))
}

/// The identifiers of the first `count` entities that are tied to the
/// region.
pub open spec fn the_tied(entities: Seq<EntityView>, count: int) -> Set<u64> {
    Set::new(
        |id: u64|
            exists|index: int|
                0 <= index < count && index < entities.len() && (#[trigger] entities[index]).id
                    == id && entities[index].tied_to_region.is_some(),
    )
}

/// The entity on the tile of the entrance, facing the way the entrance
/// faces.
pub open spec fn at_entrance(entity: EntityView, entrance: Entrance) -> EntityView {
    EntityView {
        position: Some(entrance.location.anchor()),
        direction: Some(entrance.direction),
        ..entity
    }
}

/// Draws what chance decides for `count` enemies that are spawned.
pub fn draw_spawn_rolls(count: usize) -> (rolls: Vec<SpawnRoll>)
    ensures
        rolls@.len() == count,
        are_fair_spawns(rolls@),
{
    let mut rolls: Vec<SpawnRoll> = Vec::new();
    while rolls.len() < count
        invariant
            rolls@.len() <= count,
            are_fair_spawns(rolls@),
        decreases count - rolls@.len(),
    {
        let heading: Option<Direction> = if random_in_range(0, 2) == 0 {
            None
        } else {
            Some(Direction::random())
        };
        let delay: u32 = random_in_range(MIN_ARROW_DELAY, MAX_ARROW_DELAY);
        rolls.push(SpawnRoll { heading, delay });
    }
    rolls
}

/// Creates the hero and gives it a shield. Returns the identifier of the
/// hero.
pub fn spawn_hero(world: &mut World, position: Position, direction: Direction) -> (hero_id: u64)
    requires
        old(world).wf(),
        old(world).next_id() + 2 <= u64::MAX,
    ensures
        final(world).wf(),
        hero_id == old(world).next_id(),
        final(world).next_id() == old(world).next_id() + 2,
        final(world)@ == old(world)@.push(new_hero(hero_id, position, direction)).push(
            new_shield((hero_id + 1) as u64, hero_id, position, direction),
        ),
{
    let hero_collider = RectangleCollider { half_width: HALF_TILE, half_height: HALF_TILE };
    // Create hero's shield components.
    let shield_position: Position = Shield::compute_position(&position, &direction, &hero_collider);
    let shield_collider: RectangleCollider = Shield::compute_collider(&direction);
    // Create hero.
    let mut hero = Entity::new();
    hero.hero = Some(Hero { state: HeroState::FreelyMoving });
    hero.faction = Some(Faction::Ally);
    hero.health = Some(Health::new(HERO_BASE_HEALTH));
    hero.position = Some(position);
    hero.velocity = Some(Velocity::default());
    hero.direction = Some(direction);
    hero.rectangle_collider = Some(hero_collider);
    let hero_id: u64 = world.spawn(hero);
    // Create hero's shield.
    let mut shield = Entity::new();
    shield.shield = Some(Shield::new(hero_id));
    shield.tied_to_entity = Some(TiedToEntity(hero_id));
    shield.position = Some(shield_position);
    shield.direction = Some(direction);
    shield.rectangle_collider = Some(shield_collider);
    world.spawn(shield);
    hero_id
}

/// Creates an enemy on the given tile.
pub fn spawn_enemy(world: &mut World, location: TileCoords, roll: &SpawnRoll) -> (enemy_id: u64)
    requires
        old(world).wf(),
        old(world).next_id() < u64::MAX,
    ensures
        final(world).wf(),
        enemy_id == old(world).next_id(),
        final(world).next_id() == old(world).next_id() + 1,
        final(world)@ == old(world)@.push(new_enemy(enemy_id, location, *roll)),
{
    let mut enemy = Entity::new();
    enemy.enemy = Some(Enemy);
    enemy.tied_to_region = Some(TiedToRegion);
    enemy.faction = Some(Faction::Enemy);
    enemy.health = Some(Health::new(ENEMY_BASE_HEALTH));
    enemy.wander = Some(Wander { direction: roll.heading });
    enemy.shoot_arrows = Some(ShootArrows::with_delay(roll.delay));
    enemy.position = Some(Position::from(location));
    enemy.velocity = Some(Velocity::default());
    enemy.direction = Some(Direction::Down);
    enemy.rectangle_collider = Some(
        RectangleCollider { half_width: HALF_TILE, half_height: HALF_TILE },
    );
    world.spawn(enemy)
}

/// Creates a heart on the given tile.
pub fn spawn_heart(world: &mut World, location: TileCoords) -> (heart_id: u64)
    requires
        old(world).wf(),
        old(world).next_id() < u64::MAX,
    ensures
        final(world).wf(),
        heart_id == old(world).next_id(),
        final(world).next_id() == old(world).next_id() + 1,
        final(world)@ == old(world)@.push(new_heart(heart_id, location)),
{
    let mut heart = Entity::new();
    heart.heart = Some(Heart);
    heart.tied_to_region = Some(TiedToRegion);
    heart.position = Some(Position::from(location));
    heart.direction = Some(Direction::Down);
    heart.rectangle_collider = Some(
        RectangleCollider { half_width: HEART_WIDTH / 2, half_height: HEART_HEIGHT / 2 },
    );
    world.spawn(heart)
}

/// Creates the enemies and the hearts that a region holds at first. The
/// roll at the place of an enemy is the one for that enemy.
pub fn populate(
    world: &mut World,
    enemies: &Vec<EnemyData>,
    heart_locations: &Vec<TileCoords>,
    rolls: &Vec<SpawnRoll>,
)
    requires
        old(world).wf(),
        rolls@.len() == enemies@.len(),
        old(world).next_id() + enemies@.len() + heart_locations@.len() <= u64::MAX,
    ensures
        final(world).wf(),
        final(world).next_id() == old(world).next_id() + enemies@.len() + heart_locations@.len(),
        final(world)@ == old(world)@ + new_enemies(
            old(world).next_id() as int,
            enemies@,
            rolls@,
        ) + new_hearts(old(world).next_id() + enemies@.len(), heart_locations@),
{
    let ghost before = world@;
    let ghost first_id = world.next_id() as int;
    // Generate enemies.
    let mut index: usize = 0;
    assert(world@ =~= before + new_enemies(first_id, enemies@, rolls@).take(0));
    while index < enemies.len()
        invariant
            index <= enemies@.len(),
            world.wf(),
            rolls@.len() == enemies@.len(),
            first_id + enemies@.len() + heart_locations@.len() <= u64::MAX,
            world.next_id() == first_id + index,
            world@ == before + new_enemies(first_id, enemies@, rolls@).take(index as int),
        decreases enemies@.len() - index,
    {
        spawn_enemy(world, enemies[index].location, &rolls[index]);
        assert(world@ =~= before + new_enemies(first_id, enemies@, rolls@).take(index + 1));
        index = index + 1;
    }
    assert(new_enemies(first_id, enemies@, rolls@).take(index as int) =~= new_enemies(
        first_id,
        enemies@,
        rolls@,
    ));
    // Generate hearts.
    let ghost with_enemies = world@;
    let ghost heart_id = first_id + enemies@.len();
    let mut index: usize = 0;
    assert(world@ =~= with_enemies + new_hearts(heart_id, heart_locations@).take(0));
    while index < heart_locations.len()
        invariant
            index <= heart_locations@.len(),
            world.wf(),
            heart_id + heart_locations@.len() <= u64::MAX,
            world.next_id() == heart_id + index,
            world@ == with_enemies + new_hearts(heart_id, heart_locations@).take(index as int),
        decreases heart_locations@.len() - index,
    {
        spawn_heart(world, heart_locations[index]);
        assert(world@ =~= with_enemies + new_hearts(heart_id, heart_locations@).take(index + 1));
        index = index + 1;
    }
    assert(new_hearts(heart_id, heart_locations@).take(index as int) =~= new_hearts(
        heart_id,
        heart_locations@,
    ));
}

/// Removes all entities that are tied to the region.
pub fn unload_region(world: &mut World)
    requires
        old(world).wf(),
    ensures
        final(world).wf(),
        final(world).next_id() == old(world).next_id(),
        final(world)@ == survivors(old(world)@, the_tied(old(world)@, old(world)@.len() as int)),
{
    broadcast use vstd::std_specs::hash::group_hash_axioms;

    let mut doomed: HashSet<u64> = HashSet::new();
    let count: usize = world.len();
    let mut index: usize = 0;
    assert(doomed@ =~= the_tied(world@, 0));
    while index < count
        invariant
            index <= count,
            world@.len() == count,
            doomed@ == the_tied(world@, index as int),
        decreases count - index,
    {
        let entity = world.entity(index);
        if entity.tied_to_region.is_some() {
            doomed.insert(entity.id);
        }
        assert(doomed@ =~= the_tied(world@, index + 1));
        index = index + 1;
    }
    world.remove_all(&doomed);
}

/// Places the entity with the given identifier at the entrance.
pub fn place_at_entrance(world: &mut World, id: u64, entrance: &Entrance)
    requires
        old(world).wf(),
        is_listed(old(world)@, id),
    ensures
        final(world).wf(),
        final(world).next_id() == old(world).next_id(),
        final(world)@ == old(world)@.update(
            place_of(old(world)@, id),
            at_entrance(old(world)@[place_of(old(world)@, id)], *entrance),
        ),
{
    let index: usize = world.index_of(id).unwrap();
    let entity = world.entity_mut(index);
    entity.position = Some(Position::from(entrance.location));
    entity.direction = Some(entrance.direction);
}

} // verus!
