//! Controls the hero character based on player input.

use std::collections::HashSet;
use vstd::prelude::*;

use crate::component::direction::Direction;
use crate::component::hero::{Hero, HeroState};
use crate::component::position::Position;
use crate::component::removal::{TiedToEntity, TiedToRegion};
use crate::component::slash_attack::{SlashAttack, SlashAttackView};
use crate::component::thrust_attack::ThrustAttack;
use crate::component::velocity::Velocity;
use crate::constants::{
    HERO_DIAGONAL_SPEED,
    HERO_ORTHOGONAL_SPEED,
    SLASH_FRAMES,
    THRUST_FRAMES,
    THRUST_SPEED,
};
use crate::input_bindings::{Actions, Input};
use crate::world::{
    ids_ascend,
    is_listed,
    place_of,
    stage,
    survivors,
    Entity,
    EntityView,
    Stage,
    World,
};

verus! {

/// Controls the hero character based on player input.
pub struct HeroControl {
    primary_action_down_last_frame: bool,
}

/// The way the hero faces after the player has asked to move `sideways`
/// and `upwards`. Movement along one axis turns the hero that way. Movement
/// along both turns the hero only where it would otherwise walk backwards.
pub open spec fn facing_after(facing: Direction, sideways: int, upwards: int) -> Direction {
    if sideways == 0 && upwards == -1 {
        Direction::Down
    } else if sideways == 0 && upwards == 1 {
        Direction::Up
    } else if sideways == -1 && upwards == 0 {
        Direction::Left
    } else if sideways == 1 && upwards == 0 {
        Direction::Right
    } else if facing == Direction::Up && upwards == -1 {
        Direction::Down
    } else if facing == Direction::Down && upwards == 1 {
        Direction::Up
    } else if facing == Direction::Right && sideways == -1 {
        Direction::Left
    } else if facing == Direction::Left && sideways == 1 {
        Direction::Right
    } else {
        facing
    }
}

/// The velocity at which the hero walks when the player asks to move
/// `sideways` and `upwards`.
pub open spec fn walking_velocity(sideways: int, upwards: int) -> Velocity {
    if sideways == 0 || upwards == 0 {
        Velocity {
            x: (sideways * HERO_ORTHOGONAL_SPEED) as i32,
            y: (upwards * HERO_ORTHOGONAL_SPEED) as i32,
        }
    } else {
        Velocity {
            x: (sideways * HERO_DIAGONAL_SPEED) as i32,
            y: (upwards * HERO_DIAGONAL_SPEED) as i32,
        }
    }
}

/// Whether the hero moves the way it faces.
pub open spec fn is_advancing(facing: Direction, sideways: int, upwards: int) -> bool {
    match facing {
        Direction::Up => upwards == 1,
        Direction::Down => upwards == -1,
        Direction::Left => sideways == -1,
        Direction::Right => sideways == 1,
    }
}

/// The thrust that a hero with the given identifier, place and facing
/// lets go.
pub open spec fn new_thrust(id: u64, hero_id: u64, position: Position, facing: Direction) -> EntityView {
    EntityView {
        thrust_attack: Some(ThrustAttack::fresh(hero_id)),
        tied_to_region: Some(TiedToRegion),
        tied_to_entity: Some(TiedToEntity(hero_id)),
        position: Some(position),
        direction: Some(facing),
        rectangle_collider: Some(ThrustAttack::collider_for(facing)),
        ..EntityView::blank(id)
    }
}

/// The slash that a hero with the given identifier, place and facing
/// lets go.
pub open spec fn new_slash(id: u64, hero_id: u64, position: Position, facing: Direction) -> EntityView {
    EntityView {
        slash_attack: Some(SlashAttackView::fresh(hero_id)),
        tied_to_region: Some(TiedToRegion),
        tied_to_entity: Some(TiedToEntity(hero_id)),
        position: Some(position),
        direction: Some(facing),
        half_disk_collider: Some(SlashAttack::collider_for(facing)),
        ..EntityView::blank(id)
    }
}

/// Whether the entity is a hero that the player controls: one that can
/// move and is not being knocked back.
pub open spec fn is_controlled_hero(entity: EntityView) -> bool {
    entity.hero.is_some() && entity.velocity.is_some() && entity.knocked_back.is_none()
}

/// Whether the entity at `index` has what the control of a hero reads: a
/// hero that is controlled faces some way and stands somewhere, and the
/// thrust of a thrusting hero is alive.
pub open spec fn hero_is_equipped(entities: Seq<EntityView>, index: int) -> bool {
    let entity = entities[index];
    is_controlled_hero(entity) ==> {
        &&& entity.direction.is_some()
        &&& entity.position.is_some()
        &&& entity.hero.unwrap().state matches HeroState::Thrusting { thrust_attack_id, .. }
            ==> is_listed(entities, thrust_attack_id) && entities[place_of(
            entities,
            thrust_attack_id,
        )].thrust_attack.is_some()
    }
}

/// Whether every hero has what its control reads.
pub open spec fn heroes_are_equipped(entities: Seq<EntityView>) -> bool {
    forall|index: int| 0 <= index < entities.len() ==> #[trigger] hero_is_equipped(entities, index)
}

/// The stage after the hero at `hero`, if it is one that the player
/// controls, has acted on the input. `pressed` tells whether the primary
/// action was pressed in this very tick.
///
/// A hero that moves freely turns and walks as the player asks; where the
/// primary action was pressed, it lets go a thrust if it advances and a
/// slash otherwise. A hero in the middle of an attack stands still, or
/// rushes forward while its thrust can still land, and when the time of the
/// attack is up the attack is doomed and the hero moves freely again.
pub open spec fn hero_acts(before: Stage, hero: int, input: Input, pressed: bool) -> Stage {
    let body = before.entities[hero];
    if !is_controlled_hero(body) {
        before
    } else {
        match body.hero.unwrap().state {
            HeroState::FreelyMoving => {
                let facing = if input.strafe {
                    body.direction.unwrap()
                } else {
                    facing_after(body.direction.unwrap(), input.sideways(), input.upwards())
                };
                let walking = EntityView {
                    direction: Some(facing),
                    velocity: Some(walking_velocity(input.sideways(), input.upwards())),
                    ..body
                };
                if !pressed {
                    stage(before.entities.update(hero, walking), before.next_id, before.doomed)
                } else if is_advancing(facing, input.sideways(), input.upwards()) {
                    let attack_id = before.next_id as u64;
                    let thrusting = EntityView {
                        hero: Some(
                            Hero {
                                state: HeroState::Thrusting {
                                    thrust_attack_id: attack_id,
                                    frames_left: THRUST_FRAMES,
                                },
                            },
                        ),
                        ..walking
                    };
                    stage(
                        before.entities.update(hero, thrusting).push(
                            new_thrust(attack_id, body.id, body.position.unwrap(), facing),
                        ),
                        before.next_id + 1,
                        before.doomed,
                    )
                } else {
                    let attack_id = before.next_id as u64;
                    let slashing = EntityView {
                        hero: Some(
                            Hero {
                                state: HeroState::Slashing {
                                    slash_attack_id: attack_id,
                                    frames_left: SLASH_FRAMES,
                                },
                            },
                        ),
                        ..walking
                    };
                    stage(
                        before.entities.update(hero, slashing).push(
                            new_slash(attack_id, body.id, body.position.unwrap(), facing),
                        ),
                        before.next_id + 1,
                        before.doomed,
                    )
                }
            },
            HeroState::Slashing { slash_attack_id, frames_left } => {
                if frames_left - 1 == 0 {
                    stage(
                        before.entities.update(
                            hero,
                            EntityView {
                                hero: Some(Hero { state: HeroState::FreelyMoving }),
                                velocity: Some(Velocity::zero()),
                                ..body
                            },
                        ),
                        before.next_id,
                        before.doomed.insert(slash_attack_id),
                    )
                } else {
                    stage(
                        before.entities.update(
                            hero,
                            EntityView {
                                hero: Some(
                                    Hero {
                                        state: HeroState::Slashing {
                                            slash_attack_id,
                                            frames_left: (frames_left - 1) as u32,
                                        },
                                    },
                                ),
                                velocity: Some(Velocity::zero()),
                                ..body
                            },
                        ),
                        before.next_id,
                        before.doomed,
                    )
                }
            },
            HeroState::Thrusting { thrust_attack_id, frames_left } => {
                let thrust = before.entities[place_of(before.entities, thrust_attack_id)];
                let velocity = if thrust.thrust_attack.unwrap().is_active() {
                    Velocity::along(body.direction.unwrap(), THRUST_SPEED)
                } else {
                    Velocity::zero()
                };
                if frames_left - 1 == 0 {
                    stage(
                        before.entities.update(
                            hero,
                            EntityView {
                                hero: Some(Hero { state: HeroState::FreelyMoving }),
                                velocity: Some(velocity),
                                ..body
                            },
                        ),
                        before.next_id,
                        before.doomed.insert(thrust_attack_id),
                    )
                } else {
                    stage(
                        before.entities.update(
                            hero,
                            EntityView {
                                hero: Some(
                                    Hero {
                                        state: HeroState::Thrusting {
                                            thrust_attack_id,
                                            frames_left: (frames_left - 1) as u32,
                                        },
                                    },
                                ),
                                velocity: Some(velocity),
                                ..body
                            },
                        ),
                        before.next_id,
                        before.doomed,
                    )
                }
            },
        }
    }
}

/// The stage after the heroes among the first `count` entities have acted
/// on the input, one after the other.
pub open spec fn after_heroes(before: Stage, count: nat, input: Input, pressed: bool) -> Stage
    decreases count,
{
    if count == 0 {
        before
    } else {
        hero_acts(after_heroes(before, (count - 1) as nat, input, pressed), count - 1, input, pressed)
    }
}

/// Computes how far along an axis the player asks to move.
fn axis(negative: bool, positive: bool) -> (steps: i32)
    ensures
        steps == (if positive {
            1int
        } else {
            0int
        }) - (if negative {
            1int
        } else {
            0int
        }),
{
    let mut steps: i32 = 0;
    if positive {
        steps = steps + 1;
    }
    if negative {
        steps = steps - 1;
    }
    steps
}

/// Computes the way the hero faces after the player has asked to move.
/// There are eight directions of movement but only four to face.
pub fn turn(facing: Direction, sideways: i32, upwards: i32) -> (turned: Direction)
    ensures
        turned == facing_after(facing, sideways as int, upwards as int),
{
    if sideways == 0 && upwards == -1 {
        Direction::Down
    } else if sideways == 0 && upwards == 1 {
        Direction::Up
    } else if sideways == -1 && upwards == 0 {
        Direction::Left
    } else if sideways == 1 && upwards == 0 {
        Direction::Right
    } else {
        match facing {
            // Facing up but moving down-left, down, or down-right.
            Direction::Up => if upwards == -1 {
                Direction::Down
            } else {
                facing
            },
            // Facing down but moving up-left, up, or up-right.
            Direction::Down => if upwards == 1 {
                Direction::Up
            } else {
                facing
            },
            // Facing right but moving up-left, left, or down-left.
            Direction::Right => if sideways == -1 {
                Direction::Left
            } else {
                facing
            },
            // Facing left but moving up-right, right, or down-right.
            Direction::Left => if sideways == 1 {
                Direction::Right
            } else {
                facing
            },
        }
    }
}

/// Computes the velocity at which the hero walks.
pub fn walk(sideways: i32, upwards: i32) -> (velocity: Velocity)
    requires
        -1 <= sideways <= 1,
        -1 <= upwards <= 1,
    ensures
        velocity == walking_velocity(sideways as int, upwards as int),
{
    if sideways == 0 || upwards == 0 {
        Velocity { x: sideways * HERO_ORTHOGONAL_SPEED, y: upwards * HERO_ORTHOGONAL_SPEED }
    } else {
        Velocity { x: sideways * HERO_DIAGONAL_SPEED, y: upwards * HERO_DIAGONAL_SPEED }
    }
}

/// Tells whether the hero moves the way it faces.
pub fn advances(facing: Direction, sideways: i32, upwards: i32) -> (advancing: bool)
    ensures
        advancing == is_advancing(facing, sideways as int, upwards as int),
{
    match facing {
        Direction::Up => upwards == 1,
        Direction::Down => upwards == -1,
        Direction::Left => sideways == -1,
        Direction::Right => sideways == 1,
    }
}

/// Tells whether every hero of the world has what its control reads.
pub fn all_heroes_are_equipped(world: &World) -> (equipped: bool)
    requires
        ids_ascend(world@),
    ensures
        equipped == heroes_are_equipped(world@),
{
    let mut index: usize = 0;
    while index < world.len()
        invariant
            index <= world@.len(),
            ids_ascend(world@),
            forall|earlier: int| 0 <= earlier < index ==> #[trigger] hero_is_equipped(world@, earlier),
        decreases world@.len() - index,
    {
        let entity = world.entity(index);
        if entity.hero.is_some() && entity.velocity.is_some() && entity.knocked_back.is_none() {
            if entity.direction.is_none() || entity.position.is_none() {
                assert(!hero_is_equipped(world@, index as int));
                return false;
            }
            match entity.hero.unwrap().state {
                HeroState::Thrusting { thrust_attack_id, .. } => {
                    match world.index_of(thrust_attack_id) {
                        Some(thrust_index) => {
                            if world.entity(thrust_index).thrust_attack.is_none() {
                                assert(!hero_is_equipped(world@, index as int));
                                return false;
                            }
                        },
                        None => {
                            assert(!hero_is_equipped(world@, index as int));
                            return false;
                        },
                    }
                },
                _ => {},
            }
        }
        assert(hero_is_equipped(world@, index as int));
        index = index + 1;
    }
    true
}

/// Lets a hero that moves freely turn and walk as the player asks, and let
/// go an attack where the primary action was pressed.
fn move_freely(world: &mut World, hero: usize, input: &Input, pressed: bool)
    requires
        old(world).wf(),
        hero < old(world)@.len(),
        old(world).next_id() < u64::MAX,
        is_controlled_hero(old(world)@[hero as int]),
        hero_is_equipped(old(world)@, hero as int),
        old(world)@[hero as int].hero.unwrap().state == HeroState::FreelyMoving,
    ensures
        final(world).wf(),
        forall|doomed: Set<u64>|
            stage(final(world)@, final(world).next_id() as int, doomed) == #[trigger] hero_acts(
                stage(old(world)@, old(world).next_id() as int, doomed),
                hero as int,
                *input,
                pressed,
            ),
{
    let ghost before = world@;
    let ghost next_id = world.next_id() as int;
    let body = world.entity(hero);
    let hero_id: u64 = body.id;
    let facing: Direction = body.direction.unwrap();
    let position: Position = body.position.unwrap();
    // Movement
    let sideways: i32 = axis(
        input.action_is_down(&Actions::Left),
        input.action_is_down(&Actions::Right),
    );
    let upwards: i32 = axis(input.action_is_down(&Actions::Down), input.action_is_down(&Actions::Up));
    // Update direction if needed.
    let turned: Direction = if input.action_is_down(&Actions::Strafe) {
        facing
    } else {
        turn(facing, sideways, upwards)
    };
    // Update velocity.
    let velocity: Velocity = walk(sideways, upwards);
    // Check for sword attack.
    if !pressed {
        let body = world.entity_mut(hero);
        body.direction = Some(turned);
        body.velocity = Some(velocity);
    } else if advances(turned, sideways, upwards) {
        // Hero is advancing -> thrust attack.
        let mut attack = Entity::new();
        attack.thrust_attack = Some(ThrustAttack::new(hero_id));
        attack.tied_to_region = Some(TiedToRegion);
        attack.tied_to_entity = Some(TiedToEntity(hero_id));
        attack.position = Some(position);
        attack.direction = Some(turned);
        attack.rectangle_collider = Some(ThrustAttack::compute_collider(&turned));
        let thrust_attack_id: u64 = world.spawn(attack);
        let body = world.entity_mut(hero);
        body.direction = Some(turned);
        body.velocity = Some(velocity);
        body.hero = Some(
            Hero { state: HeroState::Thrusting { thrust_attack_id, frames_left: THRUST_FRAMES } },
        );
    } else {
        // Hero is strafing/retreating/standing still -> slash attack.
        let mut attack = Entity::new();
        attack.slash_attack = Some(SlashAttack::new(hero_id));
        attack.tied_to_region = Some(TiedToRegion);
        attack.tied_to_entity = Some(TiedToEntity(hero_id));
        attack.position = Some(position);
        attack.direction = Some(turned);
        attack.half_disk_collider = Some(SlashAttack::compute_collider(&turned));
        let slash_attack_id: u64 = world.spawn(attack);
        let body = world.entity_mut(hero);
        body.direction = Some(turned);
        body.velocity = Some(velocity);
        body.hero = Some(
            Hero { state: HeroState::Slashing { slash_attack_id, frames_left: SLASH_FRAMES } },
        );
    }
    assert forall|doomed: Set<u64>|
        stage(world@, world.next_id() as int, doomed) == #[trigger] hero_acts(
            stage(before, next_id, doomed),
            hero as int,
            *input,
            pressed,
        ) by {
        assert(world@ =~= hero_acts(
            stage(before, next_id, doomed),
            hero as int,
            *input,
            pressed,
        ).entities);
    }
}

/// Counts one tick of the attack of a hero down: the hero stands still, or
/// rushes forward with a thrust that can still land, and moves freely again
/// when the time of the attack is up. Returns the attack when its time is
/// up.
fn keep_attacking(world: &mut World, hero: usize) -> (expired: Option<u64>)
    requires
        old(world).wf(),
        hero < old(world)@.len(),
        is_controlled_hero(old(world)@[hero as int]),
        hero_is_equipped(old(world)@, hero as int),
        old(world)@[hero as int].hero.unwrap().state != HeroState::FreelyMoving,
    ensures
        final(world).wf(),
        forall|doomed: Set<u64>, input: Input, pressed: bool|
            stage(
                final(world)@,
                final(world).next_id() as int,
                match expired {
                    Some(attack) => doomed.insert(attack),
                    None => doomed,
                },
            ) == #[trigger] hero_acts(
                stage(old(world)@, old(world).next_id() as int, doomed),
                hero as int,
                input,
                pressed,
            ),
{
    let ghost before = world@;
    let ghost next_id = world.next_id() as int;
    assert(before[hero as int].wf());
    let body = world.entity(hero);
    let facing: Direction = body.direction.unwrap();
    let state: HeroState = body.hero.unwrap().state;
    let (velocity, next, expired): (Velocity, HeroState, Option<u64>) = match state {
        HeroState::FreelyMoving => (Velocity::default(), state, None),
        // In the middle of a slash
        HeroState::Slashing { slash_attack_id, frames_left } => {
            // Reduce frames left and return control if finished slashing.
            let frames_left: u32 = frames_left - 1;
            if frames_left == 0 {
                (Velocity::default(), HeroState::FreelyMoving, Some(slash_attack_id))
            } else {
                (Velocity::default(), HeroState::Slashing { slash_attack_id, frames_left }, None)
            }
        },
        // In the middle of a thrust
        HeroState::Thrusting { thrust_attack_id, frames_left } => {
            let thrust_index: usize = world.index_of(thrust_attack_id).unwrap();
            let thrust_attack: ThrustAttack = world.entity(thrust_index).thrust_attack.unwrap();
            // Rush forward if the thrust is active.
            let velocity: Velocity = if thrust_attack.is_active() {
                Velocity::heading(facing, THRUST_SPEED)
            } else {
                Velocity::default()
            };
            // Reduce frames left and return control if finished thrusting.
            let frames_left: u32 = frames_left - 1;
            if frames_left == 0 {
                (velocity, HeroState::FreelyMoving, Some(thrust_attack_id))
            } else {
                (velocity, HeroState::Thrusting { thrust_attack_id, frames_left }, None)
            }
        },
    };
    let body = world.entity_mut(hero);
    body.velocity = Some(velocity);
    body.hero = Some(Hero { state: next });
    assert forall|doomed: Set<u64>, input: Input, pressed: bool|
        stage(
            world@,
            world.next_id() as int,
            match expired {
                Some(attack) => doomed.insert(attack),
                None => doomed,
            },
        ) == #[trigger] hero_acts(stage(before, next_id, doomed), hero as int, input, pressed) by {
        assert(world@ =~= hero_acts(
            stage(before, next_id, doomed),
            hero as int,
            input,
            pressed,
        ).entities);
    }
    expired
}

/// Whatever a hero does leaves the other entities as they were, and adds at
/// most one entity at the end of the table.
pub proof fn lemma_hero_acts_alone(before: Stage, hero: int, input: Input, pressed: bool)
    requires
        0 <= hero < before.entities.len(),
    ensures
        ({
            let after = hero_acts(before, hero, input, pressed);
            &&& before.entities.len() <= after.entities.len() <= before.entities.len() + 1
            &&& before.next_id <= after.next_id <= before.next_id + 1
            &&& after.entities[hero].id == before.entities[hero].id
            &&& after.entities[hero].thrust_attack == before.entities[hero].thrust_attack
            &&& forall|index: int|
                0 <= index < before.entities.len() && index != hero
                    ==> #[trigger] after.entities[index] == before.entities[index]
        }),
{
}

impl HeroControl {
    /// Whether the primary action was held down during the last tick.
    pub closed spec fn was_pressed(&self) -> bool {
        self.primary_action_down_last_frame
    }

    /// A control that has not seen the primary action held down yet.
    pub fn new() -> (control: HeroControl)
        ensures
            !control.was_pressed(),
    {
        HeroControl { primary_action_down_last_frame: false }
    }

    /// Lets every hero that the player controls act on the input of this
    /// tick, and removes the attacks whose time is up.
    pub fn run(&mut self, world: &mut World, input: &Input)
        requires
            old(world).wf(),
            heroes_are_equipped(old(world)@),
            old(world).next_id() + old(world)@.len() <= u64::MAX,
        ensures
            final(self).was_pressed() == input.primary,
            final(world).wf(),
            ({
                let pressed = input.primary && !old(self).was_pressed();
                let acted = after_heroes(
                    stage(old(world)@, old(world).next_id() as int, Set::empty()),
                    old(world)@.len(),
                    *input,
                    pressed,
                );
                &&& final(world)@ == survivors(acted.entities, acted.doomed)
                &&& final(world).next_id() == acted.next_id
            }),
    {
        broadcast use vstd::std_specs::hash::group_hash_axioms;

        let primary_action_down: bool = input.action_is_down(&Actions::Primary);
        let pressed: bool = !self.primary_action_down_last_frame && primary_action_down;
        let mut doomed: HashSet<u64> = HashSet::new();
        let ghost before = stage(world@, world.next_id() as int, Set::empty());
        assert(doomed@ =~= Set::<u64>::empty());
        let count: usize = world.len();
        let mut hero: usize = 0;
        while hero < count
            invariant
                hero <= count,
                before.entities.len() == count,
                before.next_id + count <= u64::MAX,
                world.wf(),
                world@.len() >= count,
                world.next_id() <= before.next_id + hero,
                forall|index: int| hero <= index < count ==> #[trigger] hero_is_equipped(world@, index),
                stage(world@, world.next_id() as int, doomed@) == after_heroes(
                    before,
                    hero as nat,
                    *input,
                    pressed,
                ),
            decreases count - hero,
        {
            let ghost current = stage(world@, world.next_id() as int, doomed@);
            assert(hero_is_equipped(world@, hero as int));
            let body = world.entity(hero);
            if body.hero.is_some() && body.velocity.is_some() && body.knocked_back.is_none() {
                match body.hero.unwrap().state {
                    // Free for player to control
                    HeroState::FreelyMoving => {
                        move_freely(world, hero, input, pressed);
                        assert(stage(world@, world.next_id() as int, doomed@) == hero_acts(
                            current,
                            hero as int,
                            *input,
                            pressed,
                        ));
                    },
                    // In the middle of an attack
                    _ => {
                        let ghost doomed_before = doomed@;
                        match keep_attacking(world, hero) {
                            Some(attack) => {
                                doomed.insert(attack);
                            },
                            None => {},
                        }
                        assert(stage(world@, world.next_id() as int, doomed@) == hero_acts(
                            stage(current.entities, current.next_id, doomed_before),
                            hero as int,
                            *input,
                            pressed,
                        ));
                    },
                }
            }
            proof {
                lemma_hero_acts_alone(current, hero as int, *input, pressed);
                assert forall|index: int| hero < index < count implies #[trigger] hero_is_equipped(
                    world@,
                    index,
                ) by {
                    assert(hero_is_equipped(current.entities, index));
                    lemma_equipment_lasts(current.entities, world@, index);
                }
            }
            hero = hero + 1;
        }
        world.remove_all(&doomed);
        self.primary_action_down_last_frame = primary_action_down;
    }
}

/// Whether `after` holds every entity of `before` at its old place, with
/// its identifier and the attributes that tell a thrust unchanged.
pub open spec fn keeps_the_cast(before: Seq<EntityView>, after: Seq<EntityView>) -> bool {
    &&& before.len() <= after.len()
    &&& forall|index: int|
        0 <= index < before.len() ==> (#[trigger] after[index]).id == before[index].id
            && after[index].thrust_attack == before[index].thrust_attack
}

/// A hero that was equipped stays so while the table only grows and no
/// entity but the hero at another place changes what the control reads.
pub proof fn lemma_equipment_lasts(before: Seq<EntityView>, after: Seq<EntityView>, index: int)
    requires
        ids_ascend(before),
        ids_ascend(after),
        keeps_the_cast(before, after),
        0 <= index < before.len(),
        hero_is_equipped(before, index),
        after[index] == before[index],
    ensures
        hero_is_equipped(after, index),
{
    let entity = before[index];
    if is_controlled_hero(entity) {
        if let HeroState::Thrusting { thrust_attack_id, .. } = entity.hero.unwrap().state {
            let place = place_of(before, thrust_attack_id);
            assert(after[place].id == thrust_attack_id);
            let found = place_of(after, thrust_attack_id);
            if found < place {
                assert(after[found].id < after[place].id);
            } else if place < found {
                assert(after[place].id < after[found].id);
            }
        }
    }
}

} // verus!
