//! What holds of a pass of the static collision resolver.

use vstd::prelude::*;

use crate::resource::region::Region;
use crate::system::static_collision_detection::{
    after_pushes,
    broken_arrows,
    is_arrow_in_wall,
    is_character_body,
    pushed_out,
    resolved_static,
    Pushed,
};
use crate::system::terrain_laws::{lemma_resolver_clears_walls, lemma_resolver_moves_what_touches};
use crate::system::terrain_response::{blocked_corners, fits_in_tile, resolved_position, touches_wall};
use crate::world::{
    lemma_all_survive_when_none_is_doomed,
    lemma_survivors_are_the_rest,
    survivors,
    EntityView,
};

verus! {

/// Whether the body of every character is small enough for the resolver and
/// stands so that one push frees it: not with all four corners in walls,
/// and not with exactly two opposite ones.
pub open spec fn one_push_frees_each(region: Region, entities: Seq<EntityView>) -> bool {
    forall|index: int|
        0 <= index < entities.len() && is_character_body(#[trigger] entities[index]) ==> {
            let corners = blocked_corners(
                region,
                entities[index].rectangle_collider.unwrap(),
                entities[index].position.unwrap(),
            );
            &&& fits_in_tile(entities[index].rectangle_collider.unwrap())
            &&& !corners.all()
            &&& !corners.is_diagonal()
        }
}

/// Whether no character touches a wall, and no arrow does.
pub open spec fn is_clear_of_walls(region: Region, entities: Seq<EntityView>) -> bool {
    forall|index: int|
        0 <= index < entities.len() ==> {
            let entity = #[trigger] entities[index];
            &&& is_character_body(entity) ==> !touches_wall(
                region,
                entity.rectangle_collider.unwrap(),
                entity.position.unwrap(),
            )
            &&& !is_arrow_in_wall(region, entity)
        }
}

/// A pass over entities that are clear of walls changes nothing.
pub proof fn lemma_clear_entities_stay(region: Region, entities: Seq<EntityView>)
    requires
        region.wf(),
        is_clear_of_walls(region, entities),
        forall|index: int|
            0 <= index < entities.len() && is_character_body(#[trigger] entities[index])
                ==> fits_in_tile(entities[index].rectangle_collider.unwrap()),
    ensures
        resolved_static(region, entities) == entities,
{
    let pushed = after_pushes(region, entities, Pushed::Characters, entities.len() as int);
    assert forall|index: int| 0 <= index < entities.len() implies pushed[index]
        == entities[index] by {
        let entity = entities[index];
        if is_character_body(entity) {
            lemma_resolver_moves_what_touches(
                region,
                entity.rectangle_collider.unwrap(),
                entity.position.unwrap(),
            );
            assert(pushed_out(region, entity) == entity);
        }
    }
    assert(pushed =~= entities);
    let broken = broken_arrows(region, pushed, pushed.len() as int);
    assert forall|index: int| 0 <= index < pushed.len() implies !broken.contains(
        (#[trigger] pushed[index]).id,
    ) by {
        if broken.contains(pushed[index].id) {
            let other = choose|other: int|
                0 <= other < pushed.len() && (#[trigger] pushed[other]).id == pushed[index].id
                    && is_arrow_in_wall(region, pushed[other]);
            assert(!is_arrow_in_wall(region, entities[other]));
        }
    }
    lemma_all_survive_when_none_is_doomed(pushed, broken);
}

/// Where one push frees each character, a pass leaves every character and
/// every arrow clear of walls, so that a second pass changes nothing.
pub proof fn lemma_static_pass_is_idempotent(region: Region, entities: Seq<EntityView>)
    requires
        region.wf(),
        one_push_frees_each(region, entities),
    ensures
        is_clear_of_walls(region, resolved_static(region, entities)),
        resolved_static(region, resolved_static(region, entities)) == resolved_static(
            region,
            entities,
        ),
{
    let pushed = after_pushes(region, entities, Pushed::Characters, entities.len() as int);
    let broken = broken_arrows(region, pushed, pushed.len() as int);
    let once = resolved_static(region, entities);
    lemma_survivors_are_the_rest(pushed, broken);
    assert forall|index: int| 0 <= index < once.len() implies {
        let entity = #[trigger] once[index];
        &&& is_character_body(entity) ==> fits_in_tile(entity.rectangle_collider.unwrap())
            && !touches_wall(region, entity.rectangle_collider.unwrap(), entity.position.unwrap())
        &&& !is_arrow_in_wall(region, entity)
    } by {
        let entity = once[index];
        assert(once.contains(entity));
        assert(pushed.contains(entity) && !broken.contains(entity.id));
        let source = choose|source: int| 0 <= source < pushed.len() && pushed[source] == entity;
        let before = entities[source];
        if is_character_body(entity) {
            assert(is_character_body(before));
            lemma_resolver_clears_walls(
                region,
                before.rectangle_collider.unwrap(),
                before.position.unwrap(),
            );
            assert(entity.position == Some(
                resolved_position(
                    region,
                    before.rectangle_collider.unwrap(),
                    before.position.unwrap(),
                ),
            ));
        }
        if is_arrow_in_wall(region, entity) {
            assert(pushed[source].id == entity.id);
            assert(broken.contains(entity.id));
        }
    }
    lemma_clear_entities_stay(region, once);
}

} // verus!
