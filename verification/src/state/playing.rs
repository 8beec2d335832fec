use vstd::prelude::*;

use crate::component::direction::Direction;
use crate::component::hero::{Hero, HeroState};
use crate::component::position::Position;
use crate::constants::{MAX_REGION_SPAN, TILE_SIZE};
use crate::input_bindings::Input;
use crate::resource::entrance::Entrance;
use crate::resource::region::{CurrentRegion, Region};
use crate::resource::region_data::RegionData;
use crate::state::spawning::{
    are_fair_spawns,
    at_entrance,
    draw_spawn_rolls,
    new_enemies,
    new_hearts,
    new_hero,
    new_shield,
    place_at_entrance,
    populate,
    spawn_hero,
    the_tied,
    unload_region,
    SpawnRoll,
};
use crate::system::attack_updates::{
    after_attack_updates,
    all_followers_are_equipped,
    followers_are_equipped,
    AttackUpdates,
};
use crate::system::death::{after_deaths, Death};
use crate::system::dynamic_collision_detection::{resolved_dynamic, DynamicCollisionDetection};
use crate::system::enemy_control::{
    after_enemy_control,
    all_archers_are_equipped,
    are_fair,
    archers_are_equipped,
    draw_rolls,
    EnemyControl,
    EnemyRoll,
};
use crate::system::hero_control::{
    after_heroes,
    all_heroes_are_equipped,
    heroes_are_equipped,
    HeroControl,
};
use crate::system::invulnerability::{after_invulnerabilities, Invulnerability};
use crate::system::knockback::{after_knockbacks, Knockback};
use crate::system::motion::{after_motions, Motion};
use crate::system::static_collision_detection::{
    all_bodies_fit,
    bodies_fit,
    resolved_static,
    Pushed,
    StaticCollisionDetection,
};
use crate::system::targeting::{all_targets_have_health, targets_have_health};
use crate::system::travel::{is_first_departure, stands_on_exit, Departure, Travel};
use crate::world::{
    is_listed,
    lemma_places_are_stable,
    lemma_survivors_are_the_rest,
    place_of,
    stage,
    survivors,
    EntityView,
    World,
};

verus! {

/// What keeps a phase of the game from running.
#[derive(PartialEq, Eq, Structural, Copy, Clone, Debug)]
pub enum Fault {
    /// A hero lacks a place or a facing, or thrusts without a thrust.
    HeroUnequipped,
    /// An archer lacks a place or a facing.
    ArcherUnequipped,
    /// The world has no identifiers left for the entities that may spawn.
    OutOfIdentifiers,
    /// There are fewer rolls than entities for the enemies to act on.
    TooFewRolls,
    /// The body of a character is larger than a tile.
    OversizedCollider,
    /// An entity that can be hit has no health.
    TargetWithoutHealth,
    /// An attack or a shield, or what it follows, lacks what puts it in
    /// place.
    FollowerUnequipped,
    /// The description of a region has no column, or more rows or columns
    /// than a region can have.
    MalformedRegion,
    /// A region has no entrance at the place that was asked for.
    NoSuchEntrance,
    /// A region has no exit at the place that was asked for.
    NoSuchExit,
    /// No region is loaded.
    NoRegion,
    /// The entity that was asked for is not alive.
    NoSuchEntity,
}

/// The main gameplay state: the world, the region that it is set in, and
/// the control of the hero.
pub struct Playing {
    world: World,
    current_region: CurrentRegion,
    hero_control: HeroControl,
}

/// Where the hero stands when the game starts, before it is placed at an
/// entrance.
pub open spec fn starting_position() -> Position {
    Position { x: (TILE_SIZE * 30) as i32, y: (-TILE_SIZE * 30) as i32 }
}

/// How a tick ended: with the fault that stopped it, if one did, and with
/// the entities as the last phase that ran has left them.
pub struct TickOutcome {
    /// The fault that stopped the tick.
    pub fault: Option<Fault>,
    pub entities: Seq<EntityView>,
    /// The identifier that the next entity to be spawned will get.
    pub next_id: int,
    /// Whether the control of the hero has seen the input of the tick.
    pub seen: bool,
}

/// The outcome of a tick that a fault has stopped.
pub open spec fn stopped(
    fault: Fault,
    entities: Seq<EntityView>,
    next_id: int,
    seen: bool,
) -> TickOutcome {
    TickOutcome { fault: Some(fault), entities, next_id, seen }
}

/// What the first phase of a tick makes of the entities: the heroes act on
/// the input, unless they are unfit for it, and the entities are seen to
/// be fit for the enemies to act. `was_pressed` tells whether the primary
/// action was held down during the tick before.
pub open spec fn control_phase(
    entities: Seq<EntityView>,
    next_id: int,
    input: Input,
    was_pressed: bool,
) -> TickOutcome {
    let pressed = input.primary && !was_pressed;
    if !heroes_are_equipped(entities) {
        stopped(Fault::HeroUnequipped, entities, next_id, false)
    } else if next_id + entities.len() > u64::MAX {
        stopped(Fault::OutOfIdentifiers, entities, next_id, false)
    } else {
        let heroes = after_heroes(
            stage(entities, next_id, Set::empty()),
            entities.len(),
            input,
            pressed,
        );
        let controlled = survivors(heroes.entities, heroes.doomed);
        if !archers_are_equipped(controlled) {
            stopped(Fault::ArcherUnequipped, controlled, heroes.next_id, true)
        } else if heroes.next_id + controlled.len() > u64::MAX {
            stopped(Fault::OutOfIdentifiers, controlled, heroes.next_id, true)
        } else {
            TickOutcome { fault: None, entities: controlled, next_id: heroes.next_id, seen: true }
        }
    }
}

/// What the last phases of a tick make of the entities once heroes and
/// enemies have acted: timed effects tick, everything moves, collisions
/// with the terrain and between the entities are resolved, the dead are
/// swept away and the attacks catch up with their sources. A phase that
/// finds the entities unfit for it stops the tick with the fault.
pub open spec fn resolve_phase(
    entities: Seq<EntityView>,
    next_id: int,
    region: Region,
) -> TickOutcome {
    let count = entities.len() as int;
    let knocked = after_knockbacks(entities, count);
    let timed = after_invulnerabilities(knocked, count);
    let moved = after_motions(timed, count);
    if !bodies_fit(moved, Pushed::Characters) {
        stopped(Fault::OversizedCollider, moved, next_id, true)
    } else {
        let placed = resolved_static(region, moved);
        if !targets_have_health(placed) {
            stopped(Fault::TargetWithoutHealth, placed, next_id, true)
        } else {
            let swept = after_deaths(resolved_dynamic(placed));
            if !followers_are_equipped(swept) {
                stopped(Fault::FollowerUnequipped, swept, next_id, true)
            } else {
                TickOutcome {
                    fault: None,
                    entities: after_attack_updates(swept),
                    next_id,
                    seen: true,
                }
            }
        }
    }
}

/// What a tick makes of the entities: the phases follow each other as the
/// game runs them, and a phase that finds the entities unfit for it stops
/// the tick with the fault. The roll at the place of an entity is the one
/// for that entity when the enemies act.
pub open spec fn tick(
    entities: Seq<EntityView>,
    next_id: int,
    region: Region,
    input: Input,
    was_pressed: bool,
    rolls: Seq<EnemyRoll>,
) -> TickOutcome {
    let controlled = control_phase(entities, next_id, input, was_pressed);
    if controlled.fault.is_some() {
        controlled
    } else if rolls.len() < controlled.entities.len() {
        stopped(Fault::TooFewRolls, controlled.entities, controlled.next_id, true)
    } else {
        let enemies = after_enemy_control(controlled.entities, controlled.next_id, rolls);
        resolve_phase(enemies.entities, enemies.next_id, region)
    }
}

/// What keeps the region that `region_data` describes from being loaded
/// into a world whose next entity gets the identifier `next_id`, if
/// anything does.
pub open spec fn load_fault(next_id: int, region_data: RegionData) -> Option<Fault> {
    if !is_well_formed_region(region_data.col_count, region_data.terrain@.len() as int) {
        Some(Fault::MalformedRegion)
    } else if next_id + region_data.enemies@.len() + region_data.heart_locations@.len()
        > u64::MAX {
        Some(Fault::OutOfIdentifiers)
    } else {
        None
    }
}

/// The entity free to move, if it is a hero.
pub open spec fn set_free(entity: EntityView) -> EntityView {
    if entity.hero.is_some() {
        EntityView { hero: Some(Hero { state: HeroState::FreelyMoving }), ..entity }
    } else {
        entity
    }
}

/// What keeps the hero of `departure` from taking its exit out of `region`
/// into the region that `region_data` describes, if anything does.
pub open spec fn exit_fault(
    entities: Seq<EntityView>,
    next_id: int,
    region: Option<Region>,
    departure: Departure,
    region_data: RegionData,
) -> Option<Fault> {
    if region.is_none() {
        Some(Fault::NoRegion)
    } else if departure.exit_index >= region.unwrap().spec_exits().len() {
        Some(Fault::NoSuchExit)
    } else if !is_well_formed_region(region_data.col_count, region_data.terrain@.len() as int) {
        Some(Fault::MalformedRegion)
    } else if region.unwrap().spec_exits()[departure.exit_index as int].target_entrance_idx
        >= region_data.entrances@.len() {
        Some(Fault::NoSuchEntrance)
    } else if !is_listed(entities, departure.hero_id) || entities[place_of(
        entities,
        departure.hero_id,
    )].tied_to_region.is_some() {
        Some(Fault::NoSuchEntity)
    } else if next_id + region_data.enemies@.len() + region_data.heart_locations@.len()
        > u64::MAX {
        Some(Fault::OutOfIdentifiers)
    } else {
        None
    }
}

/// The entrance that the exit of `departure` out of `region` leads to in
/// the region that `region_data` describes.
pub open spec fn entrance_behind(
    region: Option<Region>,
    departure: Departure,
    region_data: RegionData,
) -> Entrance {
    let exit = region.unwrap().spec_exits()[departure.exit_index as int];
    region_data.entrances@[exit.target_entrance_idx as int]
}

/// The entities after the hero with the given identifier has left the
/// region that they were in for the one that `region_data` describes: what
/// was tied to the old region is gone, the enemies and hearts of the new one
/// are there, and the hero stands at the entrance, free to move.
pub open spec fn after_exit(
    entities: Seq<EntityView>,
    next_id: int,
    hero_id: u64,
    entrance: Entrance,
    region_data: RegionData,
    rolls: Seq<SpawnRoll>,
) -> Seq<EntityView> {
    let kept = survivors(entities, the_tied(entities, entities.len() as int));
    let filled = kept + new_enemies(next_id, region_data.enemies@, rolls) + new_hearts(
        next_id + region_data.enemies@.len(),
        region_data.heart_locations@,
    );
    let place = place_of(filled, hero_id);
    filled.update(place, set_free(at_entrance(filled[place], entrance)))
}

/// Whether a tick with the given outcome has left the game as told: with
/// the entities `entities`, with `next_id` for the next identifier, with
/// `is_pressed` for what the control of the hero saw last, and with `update`
/// for its result.
pub open spec fn ends_as(
    outcome: TickOutcome,
    region: Region,
    was_pressed: bool,
    input: Input,
    entities: Seq<EntityView>,
    next_id: int,
    is_pressed: bool,
    update: Result<Option<Departure>, Fault>,
) -> bool {
    &&& entities == outcome.entities
    &&& next_id == outcome.next_id
    &&& is_pressed == (if outcome.seen {
        input.primary
    } else {
        was_pressed
    })
    &&& match outcome.fault {
        Some(fault) => update == Err::<Option<Departure>, Fault>(fault),
        None => match update {
            Ok(leaving) => tells_departure(region, entities, leaving),
            Err(_) => false,
        },
    }
}

/// Whether `leaving` tells truly whether a hero of `entities` stands on one
/// of the exits of the region.
pub open spec fn tells_departure(
    region: Region,
    entities: Seq<EntityView>,
    leaving: Option<Departure>,
) -> bool {
    match leaving {
        Some(departure) => is_first_departure(region.spec_exits(), entities, departure),
        None => forall|index: int|
            0 <= index < entities.len() ==> !stands_on_exit(
                region.spec_exits(),
                #[trigger] entities[index],
            ),
    }
}

/// Whether `region` is the region that `region_data` describes.
pub open spec fn is_laid_out_from(region: Option<Region>, region_data: RegionData) -> bool {
    match region {
        Some(region) => {
            &&& region.cols() == region_data.col_count
            &&& region.rows() == (region_data.terrain@.len() as int) / (region_data.col_count as int)
            &&& region.tiles() == region_data.terrain@
            &&& region.spec_entrances() == region_data.entrances@
            &&& region.spec_exits() == region_data.exits@
        },
        None => false,
    }
}

/// Whether the description of a region can be laid out as a region.
pub open spec fn is_well_formed_region(col_count: usize, tiles: int) -> bool {
    0 < col_count <= MAX_REGION_SPAN && tiles / (col_count as int) <= MAX_REGION_SPAN
}

impl Playing {
    /// The world.
    pub closed spec fn world(&self) -> World {
        self.world
    }

    /// The region that the world is set in, if one is loaded.
    pub closed spec fn region(&self) -> Option<Region> {
        self.current_region.current()
    }

    /// The control of the hero.
    pub closed spec fn control(&self) -> HeroControl {
        self.hero_control
    }

    /// The world is well-formed, and so is the region if one is loaded.
    pub open spec fn wf(&self) -> bool {
        &&& self.world().wf()
        &&& self.region() matches Some(region) ==> region.wf()
    }

    /// A game without entities and without a region.
    pub fn new() -> (playing: Playing)
        ensures
            playing.wf(),
            playing.world()@ == Seq::<EntityView>::empty(),
            playing.world().next_id() == 0,
            playing.region().is_none(),
            !playing.control().was_pressed(),
    {
        Playing {
            world: World::new(),
            current_region: CurrentRegion::new(),
            hero_control: HeroControl::new(),
        }
    }

    /// A game in the given world, without a region.
    pub fn with_world(world: World) -> (playing: Playing)
        requires
            world.wf(),
        ensures
            playing.wf(),
            playing.world() == world,
            playing.region().is_none(),
            !playing.control().was_pressed(),
    {
        Playing { world, current_region: CurrentRegion::new(), hero_control: HeroControl::new() }
    }

    /// The world, for looking at.
    pub fn entities(&self) -> (world: &World)
        ensures
            *world == self.world(),
    {
        &self.world
    }

    /// The region, for looking at.
    pub fn current_region(&self) -> (holder: &CurrentRegion)
        ensures
            holder.current() == self.region(),
    {
        &self.current_region
    }

    /// Creates the hero and its shield where the game starts. Returns the
    /// identifier of the hero.
    pub fn create_hero(&mut self) -> (created: Result<u64, Fault>)
        requires
            old(self).wf(),
        ensures
            final(self).wf(),
            final(self).region() == old(self).region(),
            final(self).control() == old(self).control(),
            match created {
                Ok(hero_id) => {
                    &&& hero_id == old(self).world().next_id()
                    &&& final(self).world().next_id() == hero_id + 2
                    &&& final(self).world()@ == old(self).world()@.push(
                        new_hero(hero_id, starting_position(), Direction::Down),
                    ).push(
                        new_shield(
                            (hero_id + 1) as u64,
                            hero_id,
                            starting_position(),
                            Direction::Down,
                        ),
                    )
                },
                Err(fault) => {
                    &&& fault == Fault::OutOfIdentifiers
                    &&& old(self).world().next_id() + 2 > u64::MAX
                    &&& final(self).world() == old(self).world()
                },
            },
    {
        if !self.world.has_room_for(2) {
            return Err(Fault::OutOfIdentifiers);
        }
        let hero_position = Position { x: TILE_SIZE * 30, y: -TILE_SIZE * 30 };
        Ok(spawn_hero(&mut self.world, hero_position, Direction::Down))
    }

    /// Sets the game in the region that `region_data` describes, and
    /// creates the enemies and hearts of the region with what the rolls
    /// decide. The roll at the place of an enemy is the one for that enemy.
    pub fn load_region_with(&mut self, region_data: RegionData, rolls: &Vec<SpawnRoll>) -> (loaded:
        Result<(), Fault>)
        requires
            old(self).wf(),
            rolls@.len() == region_data.enemies@.len(),
        ensures
            final(self).wf(),
            final(self).control() == old(self).control(),
            match load_fault(old(self).world().next_id() as int, region_data) {
                Some(fault) => {
                    &&& loaded == Err::<(), Fault>(fault)
                    &&& final(self).world() == old(self).world()
                    &&& final(self).region() == old(self).region()
                },
                None => {
                    &&& loaded == Ok::<(), Fault>(())
                    &&& is_laid_out_from(final(self).region(), region_data)
                    &&& final(self).world()@ == old(self).world()@ + new_enemies(
                        old(self).world().next_id() as int,
                        region_data.enemies@,
                        rolls@,
                    ) + new_hearts(
                        old(self).world().next_id() + region_data.enemies@.len(),
                        region_data.heart_locations@,
                    )
                    &&& final(self).world().next_id() == old(self).world().next_id()
                        + region_data.enemies@.len() + region_data.heart_locations@.len()
                },
            },
    {
        if region_data.col_count == 0 || region_data.col_count > MAX_REGION_SPAN
            || region_data.terrain.len() / region_data.col_count > MAX_REGION_SPAN {
            return Err(Fault::MalformedRegion);
        }
        if !self.world.has_room_for_both(
            region_data.enemies.len(),
            region_data.heart_locations.len(),
        ) {
            return Err(Fault::OutOfIdentifiers);
        }
        // Generate enemies and hearts.
        populate(&mut self.world, &region_data.enemies, &region_data.heart_locations, rolls);
        // Load the region itself.
        let region = Region::new(
            region_data.col_count,
            region_data.terrain,
            region_data.entrances,
            region_data.exits,
        );
        self.current_region.set(region);
        Ok(())
    }

    /// Sets the game in the region that `region_data` describes, and
    /// creates the enemies and hearts of the region with what chance
    /// decides.
    pub fn load_region(&mut self, region_data: RegionData) -> (loaded: Result<(), Fault>)
        requires
            old(self).wf(),
        ensures
            final(self).wf(),
            final(self).control() == old(self).control(),
            match load_fault(old(self).world().next_id() as int, region_data) {
                Some(fault) => {
                    &&& loaded == Err::<(), Fault>(fault)
                    &&& final(self).world() == old(self).world()
                    &&& final(self).region() == old(self).region()
                },
                None => {
                    &&& loaded == Ok::<(), Fault>(())
                    &&& is_laid_out_from(final(self).region(), region_data)
                    &&& final(self).world().next_id() == old(self).world().next_id()
                        + region_data.enemies@.len() + region_data.heart_locations@.len()
                    &&& exists|rolls: Seq<SpawnRoll>|
                        {
                            &&& rolls.len() == region_data.enemies@.len()
                            &&& are_fair_spawns(rolls)
                            &&& final(self).world()@ == old(self).world()@
                                + #[trigger] new_enemies(
                                old(self).world().next_id() as int,
                                region_data.enemies@,
                                rolls,
                            ) + new_hearts(
                                old(self).world().next_id() + region_data.enemies@.len(),
                                region_data.heart_locations@,
                            )
                        }
                },
            },
    {
        let rolls: Vec<SpawnRoll> = draw_spawn_rolls(region_data.enemies.len());
        self.load_region_with(region_data, &rolls)
    }

    /// Places the entity with the given identifier at the entrance of the
    /// current region at index `entrance_idx`.
    pub fn place_at_entrance(&mut self, entity: u64, entrance_idx: usize) -> (placed: Result<
        (),
        Fault,
    >)
        requires
            old(self).wf(),
        ensures
            final(self).wf(),
            final(self).region() == old(self).region(),
            final(self).control() == old(self).control(),
            final(self).world().next_id() == old(self).world().next_id(),
            match placed {
                Ok(_) => {
                    &&& old(self).region().is_some()
                    &&& entrance_idx < old(self).region().unwrap().spec_entrances().len()
                    &&& is_listed(old(self).world()@, entity)
                    &&& final(self).world()@ == old(self).world()@.update(
                        place_of(old(self).world()@, entity),
                        at_entrance(
                            old(self).world()@[place_of(old(self).world()@, entity)],
                            old(self).region().unwrap().spec_entrances()[entrance_idx as int],
                        ),
                    )
                },
                Err(fault) => {
                    &&& final(self).world() == old(self).world()
                    &&& fault == (if old(self).region().is_none() {
                        Fault::NoRegion
                    } else if entrance_idx >= old(self).region().unwrap().spec_entrances().len() {
                        Fault::NoSuchEntrance
                    } else {
                        Fault::NoSuchEntity
                    })
                    &&& fault == Fault::NoSuchEntity ==> !is_listed(old(self).world()@, entity)
                },
            },
    {
        if self.current_region.is_empty() {
            return Err(Fault::NoRegion);
        }
        let region: &Region = self.current_region.get();
        if entrance_idx >= region.entrances().len() {
            return Err(Fault::NoSuchEntrance);
        }
        if !self.world.is_alive(entity) {
            return Err(Fault::NoSuchEntity);
        }
        let entrance: Entrance = region.entrances()[entrance_idx];
        place_at_entrance(&mut self.world, entity, &entrance);
        Ok(())
    }

    /// Removes all entities that are tied to the region, as when the hero
    /// leaves it.
    pub fn unload_region(&mut self)
        requires
            old(self).wf(),
        ensures
            final(self).wf(),
            final(self).region() == old(self).region(),
            final(self).control() == old(self).control(),
            final(self).world().next_id() == old(self).world().next_id(),
            final(self).world()@ == survivors(
                old(self).world()@,
                the_tied(old(self).world()@, old(self).world()@.len() as int),
            ),
    {
        unload_region(&mut self.world);
    }

    /// Lets the heroes act on the input, and sees whether the entities are
    /// fit for the enemies to act.
    fn control_heroes(&mut self, input: &Input) -> (fault: Option<Fault>)
        requires
            old(self).wf(),
        ensures
            final(self).wf(),
            final(self).region() == old(self).region(),
            ({
                let outcome = control_phase(
                    old(self).world()@,
                    old(self).world().next_id() as int,
                    *input,
                    old(self).control().was_pressed(),
                );
                &&& fault == outcome.fault
                &&& final(self).world()@ == outcome.entities
                &&& final(self).world().next_id() == outcome.next_id
                &&& final(self).control().was_pressed() == (if outcome.seen {
                    input.primary
                } else {
                    old(self).control().was_pressed()
                })
            }),
    {
        if !all_heroes_are_equipped(&self.world) {
            return Some(Fault::HeroUnequipped);
        }
        if !self.world.has_room_for(self.world.len()) {
            return Some(Fault::OutOfIdentifiers);
        }
        self.hero_control.run(&mut self.world, input);
        if !all_archers_are_equipped(&self.world) {
            return Some(Fault::ArcherUnequipped);
        }
        if !self.world.has_room_for(self.world.len()) {
            return Some(Fault::OutOfIdentifiers);
        }
        None
    }

    /// Runs the phases of a tick that follow the acts of heroes and
    /// enemies, and then sees whether a hero is on an exit.
    fn resolve(&mut self) -> (update: Result<Option<Departure>, Fault>)
        requires
            old(self).wf(),
            old(self).region().is_some(),
        ensures
            final(self).wf(),
            final(self).region() == old(self).region(),
            final(self).control() == old(self).control(),
            ({
                let outcome = resolve_phase(
                    old(self).world()@,
                    old(self).world().next_id() as int,
                    old(self).region().unwrap(),
                );
                &&& final(self).world()@ == outcome.entities
                &&& final(self).world().next_id() == outcome.next_id
                &&& match outcome.fault {
                    Some(fault) => update == Err::<Option<Departure>, Fault>(fault),
                    None => match update {
                        Ok(leaving) => tells_departure(
                            old(self).region().unwrap(),
                            outcome.entities,
                            leaving,
                        ),
                        Err(_) => false,
                    },
                }
            }),
    {
        let region: &Region = self.current_region.get();
        Knockback.run(&mut self.world);
        Invulnerability.run(&mut self.world);
        Motion.run(&mut self.world);
        if !all_bodies_fit(&self.world, Pushed::Characters) {
            return Err(Fault::OversizedCollider);
        }
        StaticCollisionDetection.run(&mut self.world, region);
        if !all_targets_have_health(&self.world) {
            return Err(Fault::TargetWithoutHealth);
        }
        DynamicCollisionDetection.run(&mut self.world);
        Death.run(&mut self.world);
        if !all_followers_are_equipped(&self.world) {
            return Err(Fault::FollowerUnequipped);
        }
        AttackUpdates.run(&mut self.world);
        // See if a hero is on an exit.
        Ok(Travel.run(&self.world, region))
    }

    /// Runs the phases of one tick on the world, with the given rolls for
    /// the enemies, and then sees whether a hero is on an exit. The roll at
    /// the place of an entity is the one for that entity when the enemies
    /// act; there must be as many rolls as there are entities by then.
    pub fn fixed_update_with(&mut self, input: &Input, rolls: &Vec<EnemyRoll>) -> (update: Result<
        Option<Departure>,
        Fault,
    >)
        requires
            old(self).wf(),
        ensures
            final(self).wf(),
            final(self).region() == old(self).region(),
            old(self).region().is_none() ==> update == Err::<Option<Departure>, Fault>(
                Fault::NoRegion,
            ) && final(self).world() == old(self).world() && final(self).control() == old(
                self,
            ).control(),
            old(self).region().is_some() ==> ends_as(
                tick(
                    old(self).world()@,
                    old(self).world().next_id() as int,
                    old(self).region().unwrap(),
                    *input,
                    old(self).control().was_pressed(),
                    rolls@,
                ),
                old(self).region().unwrap(),
                old(self).control().was_pressed(),
                *input,
                final(self).world()@,
                final(self).world().next_id() as int,
                final(self).control().was_pressed(),
                update,
            ),
    {
        if self.current_region.is_empty() {
            return Err(Fault::NoRegion);
        }
        match self.control_heroes(input) {
            Some(fault) => {
                return Err(fault);
            },
            None => {},
        }
        if rolls.len() < self.world.len() {
            return Err(Fault::TooFewRolls);
        }
        EnemyControl.run_with(&mut self.world, rolls);
        self.resolve()
    }

    /// Runs the phases of one tick on the world, with what chance decides
    /// for the enemies, and then sees whether a hero is on an exit.
    pub fn fixed_update(&mut self, input: &Input) -> (update: Result<Option<Departure>, Fault>)
        requires
            old(self).wf(),
        ensures
            final(self).wf(),
            final(self).region() == old(self).region(),
            old(self).region().is_none() ==> update == Err::<Option<Departure>, Fault>(
                Fault::NoRegion,
            ) && final(self).world() == old(self).world() && final(self).control() == old(
                self,
            ).control(),
            old(self).region().is_some() ==> exists|rolls: Seq<EnemyRoll>|
                are_fair(rolls) && ends_as(
                    #[trigger] tick(
                        old(self).world()@,
                        old(self).world().next_id() as int,
                        old(self).region().unwrap(),
                        *input,
                        old(self).control().was_pressed(),
                        rolls,
                    ),
                    old(self).region().unwrap(),
                    old(self).control().was_pressed(),
                    *input,
                    final(self).world()@,
                    final(self).world().next_id() as int,
                    final(self).control().was_pressed(),
                    update,
                ),
    {
        if self.current_region.is_empty() {
            return Err(Fault::NoRegion);
        }
        match self.control_heroes(input) {
            Some(fault) => {
                assert(are_fair(Seq::<EnemyRoll>::empty()));
                assert(tick(
                    old(self).world()@,
                    old(self).world().next_id() as int,
                    old(self).region().unwrap(),
                    *input,
                    old(self).control().was_pressed(),
                    Seq::<EnemyRoll>::empty(),
                ).fault == Some(fault));
                return Err(fault);
            },
            None => {},
        }
        let rolls: Vec<EnemyRoll> = draw_rolls(self.world.len());
        EnemyControl.run_with(&mut self.world, &rolls);
        let update = self.resolve();
        assert(ends_as(
            tick(
                old(self).world()@,
                old(self).world().next_id() as int,
                old(self).region().unwrap(),
                *input,
                old(self).control().was_pressed(),
                rolls@,
            ),
            old(self).region().unwrap(),
            old(self).control().was_pressed(),
            *input,
            self.world@,
            self.world.next_id() as int,
            self.hero_control.was_pressed(),
            update,
        ));
        update
    }

    /// Takes the hero through the exit that it stands on: the entities of
    /// the region that it leaves are removed, the game is set in the region
    /// that `region_data` describes with what the rolls decide for its
    /// enemies, and the hero is placed at the entrance that the exit leads
    /// to, free to move. Where something keeps the hero from leaving, nothing
    /// changes.
    pub fn take_exit_with(
        &mut self,
        departure: &Departure,
        region_data: RegionData,
        rolls: &Vec<SpawnRoll>,
    ) -> (taken: Result<(), Fault>)
        requires
            old(self).wf(),
            rolls@.len() == region_data.enemies@.len(),
        ensures
            final(self).wf(),
            final(self).control() == old(self).control(),
            match exit_fault(
                old(self).world()@,
                old(self).world().next_id() as int,
                old(self).region(),
                *departure,
                region_data,
            ) {
                Some(fault) => {
                    &&& taken == Err::<(), Fault>(fault)
                    &&& final(self).world() == old(self).world()
                    &&& final(self).region() == old(self).region()
                },
                None => {
                    &&& taken == Ok::<(), Fault>(())
                    &&& is_laid_out_from(final(self).region(), region_data)
                    &&& final(self).world().next_id() == old(self).world().next_id()
                        + region_data.enemies@.len() + region_data.heart_locations@.len()
                    &&& final(self).world()@ == after_exit(
                        old(self).world()@,
                        old(self).world().next_id() as int,
                        departure.hero_id,
                        entrance_behind(old(self).region(), *departure, region_data),
                        region_data,
                        rolls@,
                    )
                },
            },
    {
        if self.current_region.is_empty() {
            return Err(Fault::NoRegion);
        }
        let region: &Region = self.current_region.get();
        if departure.exit_index >= region.exits().len() {
            return Err(Fault::NoSuchExit);
        }
        let entrance_idx: usize = region.exits()[departure.exit_index].target_entrance_idx;
        if region_data.col_count == 0 || region_data.col_count > MAX_REGION_SPAN
            || region_data.terrain.len() / region_data.col_count > MAX_REGION_SPAN {
            return Err(Fault::MalformedRegion);
        }
        if entrance_idx >= region_data.entrances.len() {
            return Err(Fault::NoSuchEntrance);
        }
        let entrance: Entrance = region_data.entrances[entrance_idx];
        let stays: bool = match self.world.get(departure.hero_id) {
            Some(hero) => hero.tied_to_region.is_none(),
            None => false,
        };
        if !stays {
            return Err(Fault::NoSuchEntity);
        }
        if !self.world.has_room_for_both(
            region_data.enemies.len(),
            region_data.heart_locations.len(),
        ) {
            return Err(Fault::OutOfIdentifiers);
        }
        let ghost before = self.world@;
        let ghost hero_place = place_of(before, departure.hero_id);
        // Remove all entities associated with the current region.
        unload_region(&mut self.world);
        let ghost kept = self.world@;
        proof {
            let tied = the_tied(before, before.len() as int);
            lemma_survivors_are_the_rest(before, tied);
            assert(before.contains(before[hero_place]));
            assert(!tied.contains(departure.hero_id)) by {
                if tied.contains(departure.hero_id) {
                    let other = choose|index: int|
                        0 <= index < before.len() && (#[trigger] before[index]).id
                            == departure.hero_id && before[index].tied_to_region.is_some();
                    if other < hero_place {
                        assert(before[other].id < before[hero_place].id);
                    } else if hero_place < other {
                        assert(before[hero_place].id < before[other].id);
                    }
                }
            }
            assert(kept.contains(before[hero_place]));
            let kept_place = choose|index: int|
                0 <= index < kept.len() && kept[index] == before[hero_place];
            assert(kept[kept_place].id == departure.hero_id);
        }
        // Generate the enemies and hearts of the target region.
        populate(&mut self.world, &region_data.enemies, &region_data.heart_locations, rolls);
        let ghost filled = self.world@;
        proof {
            let kept_place = choose|index: int|
                0 <= index < kept.len() && kept[index] == before[hero_place];
            assert(filled[kept_place] == kept[kept_place]);
            assert(is_listed(filled, departure.hero_id));
        }
        // Place the hero at the target entrance.
        place_at_entrance(&mut self.world, departure.hero_id, &entrance);
        // Reset the hero's state.
        let ghost placed = self.world@;
        proof {
            lemma_places_are_stable(
                filled,
                place_of(filled, departure.hero_id),
                at_entrance(filled[place_of(filled, departure.hero_id)], entrance),
                departure.hero_id,
            );
        }
        let index: usize = self.world.index_of(departure.hero_id).unwrap();
        let hero = self.world.entity_mut(index);
        if hero.hero.is_some() {
            hero.hero = Some(Hero { state: HeroState::FreelyMoving });
        }
        assert(self.world@ =~= after_exit(
            before,
            old(self).world().next_id() as int,
            departure.hero_id,
            entrance,
            region_data,
            rolls@,
        ));
        // Load the target region itself.
        let region = Region::new(
            region_data.col_count,
            region_data.terrain,
            region_data.entrances,
            region_data.exits,
        );
        self.current_region.set(region);
        Ok(())
    }

    /// Takes the hero through the exit that it stands on, with what chance
    /// decides for the enemies of the region that it comes to.
    pub fn take_exit(&mut self, departure: &Departure, region_data: RegionData) -> (taken: Result<
        (),
        Fault,
    >)
        requires
            old(self).wf(),
        ensures
            final(self).wf(),
            final(self).control() == old(self).control(),
            match exit_fault(
                old(self).world()@,
                old(self).world().next_id() as int,
                old(self).region(),
                *departure,
                region_data,
            ) {
                Some(fault) => {
                    &&& taken == Err::<(), Fault>(fault)
                    &&& final(self).world() == old(self).world()
                    &&& final(self).region() == old(self).region()
                },
                None => {
                    &&& taken == Ok::<(), Fault>(())
                    &&& is_laid_out_from(final(self).region(), region_data)
                    &&& exists|rolls: Seq<SpawnRoll>|
                        rolls.len() == region_data.enemies@.len() && are_fair_spawns(rolls)
                            && final(self).world()@ == #[trigger] after_exit(
                            old(self).world()@,
                            old(self).world().next_id() as int,
                            departure.hero_id,
                            entrance_behind(old(self).region(), *departure, region_data),
                            region_data,
                            rolls,
                        )
                },
            },
    {
        let rolls: Vec<SpawnRoll> = draw_spawn_rolls(region_data.enemies.len());
        self.take_exit_with(departure, region_data, &rolls)
    }
}

} // verus!
