//! Controls the enemies: they wander about and shoot arrows.

use vstd::prelude::*;

use crate::component::arrow_attack::ArrowAttack;
use crate::component::behavior::shoot_arrows::{is_arrow_delay, ShootArrows, ShouldShootArrow};
use crate::component::behavior::wander::Wander;
use crate::component::direction::Direction;
use crate::component::faction::Faction;
use crate::component::position::Position;
use crate::component::removal::TiedToRegion;
use crate::component::velocity::Velocity;
use crate::constants::{
    ARROW_SPEED,
    ENEMY_SPEED,
    MAX_ARROW_DELAY,
    MIN_ARROW_DELAY,
    STOP_THRESHOLD,
    TURN_THRESHOLD,
    WANDER_ROLL_RANGE,
};
use crate::random::random_in_range;
use crate::world::{stage, Entity, EntityView, Stage, World};

verus! {

/// Controls the enemies.
pub struct EnemyControl;

/// What chance decides for one enemy in one tick.
#[derive(PartialEq, Eq, Structural, Copy, Clone, Debug)]
pub struct EnemyRoll {
    /// Decides whether a wandering enemy turns, stops or carries on.
    pub change: u32,
    /// The way a wandering enemy turns, if it turns.
    pub direction: Direction,
    /// The time an archer waits for its next arrow, if it shoots one.
    pub delay: u32,
}

impl EnemyRoll {
    /// Whether the roll is one that chance can produce.
    pub open spec fn is_fair(&self) -> bool {
        self.change < WANDER_ROLL_RANGE && is_arrow_delay(self.delay)
    }
}

/// Whether each of the rolls is one that chance can produce.
pub open spec fn are_fair(rolls: Seq<EnemyRoll>) -> bool {
    forall|index: int| 0 <= index < rolls.len() ==> (#[trigger] rolls[index]).is_fair()
}

/// Where a wandering enemy heads after the roll: a low roll turns it, the
/// next higher ones stop it, and any other lets it carry on.
pub open spec fn heading_after(heading: Option<Direction>, roll: EnemyRoll) -> Option<Direction> {
    if roll.change < TURN_THRESHOLD {
        Some(roll.direction)
    } else if roll.change < STOP_THRESHOLD {
        None
    } else {
        heading
    }
}

/// Whether the entity is an enemy that wanders of its own accord: one that
/// faces some way, can move and is not being knocked back.
pub open spec fn is_wanderer(entity: EntityView) -> bool {
    entity.wander.is_some() && entity.direction.is_some() && entity.velocity.is_some()
        && entity.knocked_back.is_none()
}

/// The entity after a tick of wandering: a wanderer takes the heading that
/// the roll leaves it, and walks that way or stands still.
pub open spec fn after_wander(entity: EntityView, roll: EnemyRoll) -> EntityView {
    if is_wanderer(entity) {
        match heading_after(entity.wander.unwrap().direction, roll) {
            Some(heading) => EntityView {
                wander: Some(Wander { direction: Some(heading) }),
                direction: Some(heading),
                velocity: Some(Velocity::along(heading, ENEMY_SPEED)),
                ..entity
            },
            None => EntityView {
                wander: Some(Wander { direction: None }),
                velocity: Some(Velocity::zero()),
                ..entity
            },
        }
    } else {
        entity
    }
}

/// The entities after the first `count` of them have wandered.
pub open spec fn after_wanders(
    entities: Seq<EntityView>,
    rolls: Seq<EnemyRoll>,
    count: int,
) -> Seq<EntityView> {
    Seq::new(
        entities.len(),
        |index: int|
            if index < count {
                after_wander(entities[index], rolls[index])
            } else {
                entities[index]
            },
    )
}

/// Whether the entity is an archer that shoots of its own accord.
pub open spec fn is_archer(entity: EntityView) -> bool {
    entity.shoot_arrows.is_some() && entity.knocked_back.is_none()
}

/// Whether every archer has what an arrow takes from it: a place and a
/// facing.
pub open spec fn archers_are_equipped(entities: Seq<EntityView>) -> bool {
    forall|index: int|
        0 <= index < entities.len() && is_archer(#[trigger] entities[index])
            ==> entities[index].position.is_some() && entities[index].direction.is_some()
}

/// The arrow that an enemy at `position` shoots when it faces `facing`.
pub open spec fn new_arrow(id: u64, position: Position, facing: Direction) -> EntityView {
    EntityView {
        arrow_attack: Some(ArrowAttack::new_spec(Faction::Enemy)),
        tied_to_region: Some(TiedToRegion),
        position: Some(position),
        velocity: Some(Velocity::along(facing, ARROW_SPEED)),
        direction: Some(facing),
        rectangle_collider: Some(ArrowAttack::collider_for(facing)),
        ..EntityView::blank(id)
    }
}

/// The stage after the entity at `archer`, if it is an archer, has counted
/// one tick down: when its wait is over it shoots an arrow and starts to
/// wait for as long as the roll says.
pub open spec fn archer_acts(before: Stage, archer: int, roll: EnemyRoll) -> Stage {
    let entity = before.entities[archer];
    if !is_archer(entity) {
        before
    } else if entity.shoot_arrows.unwrap().spec_delay() == 0 {
        stage(
            before.entities.update(
                archer,
                EntityView { shoot_arrows: Some(ShootArrows::waiting(roll.delay)), ..entity },
            ).push(
                new_arrow(
                    before.next_id as u64,
                    entity.position.unwrap(),
                    entity.direction.unwrap(),
                ),
            ),
            before.next_id + 1,
            before.doomed,
        )
    } else {
        stage(
            before.entities.update(
                archer,
                EntityView {
                    shoot_arrows: Some(
                        ShootArrows::waiting(
                            (entity.shoot_arrows.unwrap().spec_delay() - 1) as u32,
                        ),
                    ),
                    ..entity
                },
            ),
            before.next_id,
            before.doomed,
        )
    }
}

/// The stage after the archers among the first `count` entities have acted,
/// one after the other.
pub open spec fn after_archers(before: Stage, rolls: Seq<EnemyRoll>, count: nat) -> Stage
    decreases count,
{
    if count == 0 {
        before
    } else {
        archer_acts(after_archers(before, rolls, (count - 1) as nat), count - 1, rolls[count - 1])
    }
}

/// The stage that a tick of enemy control leaves behind: every wanderer has
/// wandered, and then every archer has acted.
pub open spec fn after_enemy_control(
    entities: Seq<EntityView>,
    next_id: int,
    rolls: Seq<EnemyRoll>,
) -> Stage {
    after_archers(
        stage(after_wanders(entities, rolls, entities.len() as int), next_id, Set::empty()),
        rolls,
        entities.len(),
    )
}

/// Tells whether every archer of the world has what an arrow takes from it.
pub fn all_archers_are_equipped(world: &World) -> (equipped: bool)
    ensures
        equipped == archers_are_equipped(world@),
{
    let mut index: usize = 0;
    while index < world.len()
        invariant
            index <= world@.len(),
            forall|earlier: int|
                0 <= earlier < index && is_archer(#[trigger] world@[earlier])
                    ==> world@[earlier].position.is_some() && world@[earlier].direction.is_some(),
        decreases world@.len() - index,
    {
        let entity = world.entity(index);
        if entity.shoot_arrows.is_some() && entity.knocked_back.is_none() && (
        entity.position.is_none() || entity.direction.is_none()) {
            assert(is_archer(world@[index as int]));
            return false;
        }
        index = index + 1;
    }
    true
}

/// Draws what chance decides for `count` enemies.
pub fn draw_rolls(count: usize) -> (rolls: Vec<EnemyRoll>)
    ensures
        rolls@.len() == count,
        are_fair(rolls@),
{
    let mut rolls: Vec<EnemyRoll> = Vec::new();
    while rolls.len() < count
        invariant
            rolls@.len() <= count,
            are_fair(rolls@),
        decreases count - rolls@.len(),
    {
        let change: u32 = random_in_range(0, WANDER_ROLL_RANGE);
        let direction: Direction = Direction::random();
        let delay: u32 = random_in_range(MIN_ARROW_DELAY, MAX_ARROW_DELAY);
        rolls.push(EnemyRoll { change, direction, delay });
    }
    rolls
}

/// Decides where a wandering enemy heads after the roll.
pub fn choose_heading(heading: Option<Direction>, roll: &EnemyRoll) -> (chosen: Option<Direction>)
    ensures
        chosen == heading_after(heading, *roll),
{
    if roll.change < TURN_THRESHOLD {
        Some(roll.direction)
    } else if roll.change < STOP_THRESHOLD {
        None
    } else {
        heading
    }
}

impl EnemyControl {
    /// Lets every enemy act for one tick on what the given rolls decide:
    /// the roll at the place of an entity is the one for that entity, and
    /// rolls beyond the last entity are left unused.
    pub fn run_with(&self, world: &mut World, rolls: &Vec<EnemyRoll>)
        requires
            old(world).wf(),
            archers_are_equipped(old(world)@),
            rolls@.len() >= old(world)@.len(),
            old(world).next_id() + old(world)@.len() <= u64::MAX,
        ensures
            final(world).wf(),
            stage(final(world)@, final(world).next_id() as int, Set::empty())
                == after_enemy_control(old(world)@, old(world).next_id() as int, rolls@),
    {
        let ghost before = world@;
        let count: usize = world.len();
        // Wander.
        let mut index: usize = 0;
        assert(world@ =~= after_wanders(before, rolls@, 0));
        while index < count
            invariant
                index <= count,
                world.wf(),
                world.next_id() == old(world).next_id(),
                before.len() == count,
                rolls@.len() >= count,
                world@ == after_wanders(before, rolls@, index as int),
            decreases count - index,
        {
            let entity = world.entity_mut(index);
            if entity.wander.is_some() && entity.direction.is_some() && entity.velocity.is_some()
                && entity.knocked_back.is_none() {
                // Randomly change wander direction or stop.
                let heading: Option<Direction> = choose_heading(
                    entity.wander.unwrap().direction,
                    &rolls[index],
                );
                entity.wander = Some(Wander { direction: heading });
                // Move according to current wander direction.
                match heading {
                    Some(wander_direction) => {
                        entity.direction = Some(wander_direction);
                        entity.velocity = Some(Velocity::heading(wander_direction, ENEMY_SPEED));
                    },
                    None => {
                        entity.velocity = Some(Velocity::default());
                    },
                }
            }
            assert(world@ =~= after_wanders(before, rolls@, index + 1));
            index = index + 1;
        }
        // Shoot arrows.
        let ghost wandered = stage(world@, world.next_id() as int, Set::empty());
        assert(archers_are_equipped(world@)) by {
            assert forall|index: int|
                0 <= index < world@.len() && is_archer(
                    #[trigger] world@[index],
                ) implies world@[index].position.is_some()
                && world@[index].direction.is_some() by {
                assert(is_archer(before[index]));
            }
        }
        let mut archer: usize = 0;
        while archer < count
            invariant
                archer <= count,
                world.wf(),
                rolls@.len() >= count,
                wandered.entities.len() == count,
                wandered.next_id + count <= u64::MAX,
                wandered.doomed == Set::<u64>::empty(),
                world@.len() >= count,
                world.next_id() <= wandered.next_id + archer,
                forall|index: int|
                    archer <= index < count && is_archer(#[trigger] world@[index])
                        ==> world@[index].position.is_some() && world@[index].direction.is_some(),
                stage(world@, world.next_id() as int, Set::empty()) == after_archers(
                    wandered,
                    rolls@,
                    archer as nat,
                ),
            decreases count - archer,
        {
            let ghost current = stage(world@, world.next_id() as int, Set::empty());
            let entity = world.entity(archer);
            if entity.shoot_arrows.is_some() && entity.knocked_back.is_none() {
                let mut shoot_arrows: ShootArrows = entity.shoot_arrows.unwrap();
                proof {
                    crate::component::behavior::shoot_arrows::lemma_archer_is_its_delay(
                        shoot_arrows,
                        0,
                    );
                }
                match shoot_arrows.update_with(rolls[archer].delay) {
                    ShouldShootArrow::Yes => {
                        let position: Position = entity.position.unwrap();
                        let direction: Direction = entity.direction.unwrap();
                        let mut arrow = Entity::new();
                        arrow.arrow_attack = Some(ArrowAttack::new(Faction::Enemy));
                        arrow.tied_to_region = Some(TiedToRegion);
                        arrow.position = Some(position);
                        arrow.velocity = Some(Velocity::heading(direction, ARROW_SPEED));
                        arrow.direction = Some(direction);
                        arrow.rectangle_collider = Some(ArrowAttack::compute_collider(&direction));
                        world.spawn(arrow);
                    },
                    ShouldShootArrow::No => {},
                }
                proof {
                    crate::component::behavior::shoot_arrows::lemma_archer_is_its_delay(
                        shoot_arrows,
                        0,
                    );
                }
                let entity = world.entity_mut(archer);
                entity.shoot_arrows = Some(shoot_arrows);
            }
            assert(stage(world@, world.next_id() as int, Set::empty()) == archer_acts(
                current,
                archer as int,
                rolls@[archer as int],
            )) by {
                assert(world@ =~= archer_acts(
                    current,
                    archer as int,
                    rolls@[archer as int],
                ).entities);
            }
            archer = archer + 1;
        }
    }

    /// Lets every enemy act for one tick on what chance decides.
    pub fn run(&self, world: &mut World)
        requires
            old(world).wf(),
            archers_are_equipped(old(world)@),
            old(world).next_id() + old(world)@.len() <= u64::MAX,
        ensures
            final(world).wf(),
            exists|rolls: Seq<EnemyRoll>|
                rolls.len() == old(world)@.len() && are_fair(rolls) && stage(
                    final(world)@,
                    final(world).next_id() as int,
                    Set::empty(),
                ) == #[trigger] after_enemy_control(
                    old(world)@,
                    old(world).next_id() as int,
                    rolls,
                ),
    {
        let rolls: Vec<EnemyRoll> = draw_rolls(world.len());
        self.run_with(world, &rolls);
    }
}

} // verus!
