//! What holds of the terrain resolver.

use vstd::prelude::*;

use crate::component::collider::RectangleCollider;
use crate::component::direction::Direction;
use crate::component::position::{column_of, row_of, Position};
use crate::constants::TILE_SIZE;
use crate::resource::region::Region;
use crate::system::terrain_response::{
    blocked_corners,
    bottom_sample,
    can_be_pushed,
    column_left,
    column_right,
    corner_pushes,
    fits_in_tile,
    has_area,
    is_least_push,
    left_sample,
    occupies,
    push_distance,
    pushed,
    resolved_position,
    right_sample,
    row_floor,
    row_top,
    top_sample,
    touches_wall,
};

verus! {

/// A push moves the rectangle by at least one step and at most one tile, and
/// leaves its trailing edge on the boundary between two tiles.
pub proof fn lemma_push_reaches_boundary(
    collider: RectangleCollider,
    position: Position,
    direction: Direction,
)
    requires
        has_area(collider),
        fits_in_tile(collider),
        can_be_pushed(collider, position, direction),
    ensures
        1 <= push_distance(collider, position, direction) <= TILE_SIZE,
        ({
            let target = pushed(collider, position, direction);
            match direction {
                Direction::Up => target.x == position.x && target.y - collider.half_height
                    == row_top(bottom_sample(collider, position)),
                Direction::Down => target.x == position.x && target.y + collider.half_height
                    == row_floor(top_sample(collider, position)),
                Direction::Left => target.y == position.y && target.x + collider.half_width
                    == column_left(right_sample(collider, position)),
                Direction::Right => target.y == position.y && target.x - collider.half_width
                    == column_right(left_sample(collider, position)),
            }
        }),
{
}

/// A rectangle that spans no more than a tile touches a wall exactly when
/// one of its corners lies on one.
pub proof fn lemma_corners_witness_contact(
    region: Region,
    collider: RectangleCollider,
    position: Position,
)
    requires
        region.wf(),
        has_area(collider),
        fits_in_tile(collider),
    ensures
        touches_wall(region, collider, position) <==> blocked_corners(
            region,
            collider,
            position,
        ).any(),
{
    let left = left_sample(collider, position);
    let right = right_sample(collider, position);
    let bottom = bottom_sample(collider, position);
    let top = top_sample(collider, position);
    let corners = blocked_corners(region, collider, position);
    assert(occupies(collider, position, left, bottom));
    assert(occupies(collider, position, right, bottom));
    assert(occupies(collider, position, left, top));
    assert(occupies(collider, position, right, top));
    assert forall|x: int, y: int| #[trigger]
        occupies(collider, position, x, y) && region.blocks(x, y) implies corners.any() by {
        let near_x = if left >= 0 && column_of(left) == column_of(x) {
            left
        } else {
            right
        };
        let near_y = if top <= 0 && row_of(top) == row_of(y) {
            top
        } else {
            bottom
        };
        assert(near_x >= 0 && column_of(near_x) == column_of(x));
        assert(near_y <= 0 && row_of(near_y) == row_of(y));
        assert(region.blocks(near_x, near_y));
    }
}

/// The resolver moves a rectangle exactly when the rectangle touches a wall.
pub proof fn lemma_resolver_moves_what_touches(
    region: Region,
    collider: RectangleCollider,
    position: Position,
)
    requires
        region.wf(),
        fits_in_tile(collider),
    ensures
        resolved_position(region, collider, position) == position <==> !touches_wall(
            region,
            collider,
            position,
        ),
{
    let corners = blocked_corners(region, collider, position);
    if has_area(collider) {
        lemma_corners_witness_contact(region, collider, position);
        lemma_corners_allow_pushes(region, collider, position);
        if corners.has_blocked_edge() {
        } else if corners.any() {
            let pushes = corner_pushes(corners, collider, position);
            lemma_least_push_exists(corners, collider, position);
            let winner = choose|index: int| is_least_push(pushes, index);
            lemma_push_reaches_boundary(collider, position, pushes[winner].direction);
        }
    } else {
        assert forall|x: int, y: int| !#[trigger] occupies(collider, position, x, y) by {}
    }
}

/// Resolving a second time changes nothing exactly when the first time left
/// the rectangle clear of every wall.
pub proof fn lemma_resolving_twice(region: Region, collider: RectangleCollider, position: Position)
    requires
        region.wf(),
        fits_in_tile(collider),
    ensures
        ({
            let once = resolved_position(region, collider, position);
            resolved_position(region, collider, once) == once <==> !touches_wall(
                region,
                collider,
                once,
            )
        }),
{
    lemma_resolver_moves_what_touches(
        region,
        collider,
        resolved_position(region, collider, position),
    );
}

/// Unless the rectangle has all four corners in walls, or exactly two
/// opposite ones, the resolver leaves it clear of every wall.
pub proof fn lemma_resolver_clears_walls(
    region: Region,
    collider: RectangleCollider,
    position: Position,
)
    requires
        region.wf(),
        fits_in_tile(collider),
        !blocked_corners(region, collider, position).all(),
        !blocked_corners(region, collider, position).is_diagonal(),
    ensures
        !touches_wall(region, collider, resolved_position(region, collider, position)),
{
    let corners = blocked_corners(region, collider, position);
    let once = resolved_position(region, collider, position);
    if !has_area(collider) {
        assert forall|x: int, y: int| !#[trigger] occupies(collider, once, x, y) by {}
    } else if !corners.any() {
        lemma_corners_witness_contact(region, collider, position);
    } else {
        lemma_corners_allow_pushes(region, collider, position);
        if !corners.has_blocked_edge() {
            let pushes = corner_pushes(corners, collider, position);
            lemma_least_push_exists(corners, collider, position);
            let winner = choose|index: int| is_least_push(pushes, index);
            lemma_push_reaches_boundary(collider, position, pushes[winner].direction);
        }
        lemma_corners_witness_contact(region, collider, once);
        let after = blocked_corners(region, collider, once);
        assert(!after.bottom_left);
        assert(!after.bottom_right);
        assert(!after.top_left);
        assert(!after.top_right);
    }
}

/// Unless the rectangle has all four corners in walls, or exactly two
/// opposite ones, resolving it a second time changes nothing.
pub proof fn lemma_resolver_is_idempotent(
    region: Region,
    collider: RectangleCollider,
    position: Position,
)
    requires
        region.wf(),
        fits_in_tile(collider),
        !blocked_corners(region, collider, position).all(),
        !blocked_corners(region, collider, position).is_diagonal(),
    ensures
        ({
            let once = resolved_position(region, collider, position);
            resolved_position(region, collider, once) == once
        }),
{
    lemma_resolver_clears_walls(region, collider, position);
    lemma_resolving_twice(region, collider, position);
}

/// A rectangle with exactly two opposite corners in walls still touches a
/// wall after it was resolved, so that resolving it again moves it again.
pub proof fn lemma_opposite_corners_stay_blocked(
    region: Region,
    collider: RectangleCollider,
    position: Position,
)
    requires
        region.wf(),
        has_area(collider),
        fits_in_tile(collider),
        blocked_corners(region, collider, position).is_diagonal(),
    ensures
        ({
            let once = resolved_position(region, collider, position);
            &&& touches_wall(region, collider, once)
            &&& resolved_position(region, collider, once) != once
        }),
{
    let corners = blocked_corners(region, collider, position);
    let once = resolved_position(region, collider, position);
    lemma_corners_allow_pushes(region, collider, position);
    let pushes = corner_pushes(corners, collider, position);
    lemma_least_push_exists(corners, collider, position);
    let winner = choose|index: int| is_least_push(pushes, index);
    lemma_push_reaches_boundary(collider, position, pushes[winner].direction);
    lemma_corners_witness_contact(region, collider, once);
    let after = blocked_corners(region, collider, once);
    assert(after.any());
    lemma_resolver_moves_what_touches(region, collider, once);
}

/// A rectangle with both corners of an edge in walls is pushed wholly out
/// of the tiles that the two corners lay on: it comes to rest against their
/// boundary. The bottom edge and the left edge are always seen to; the top
/// edge and the right edge where the edge across is not in walls as well.
pub proof fn lemma_blocked_edge_is_pushed_out(
    region: Region,
    collider: RectangleCollider,
    position: Position,
)
    requires
        region.wf(),
        has_area(collider),
        fits_in_tile(collider),
    ensures
        ({
            let corners = blocked_corners(region, collider, position);
            let once = resolved_position(region, collider, position);
            &&& corners.bottom_left && corners.bottom_right ==> once.y - collider.half_height
                == row_top(bottom_sample(collider, position)) && forall|x: int, y: int| #[trigger]
                occupies(collider, once, x, y) ==> y > row_top(bottom_sample(collider, position))
            &&& corners.top_left && corners.top_right && !(corners.bottom_left
                && corners.bottom_right) ==> once.y + collider.half_height == row_floor(
                top_sample(collider, position),
            ) && forall|x: int, y: int| #[trigger]
                occupies(collider, once, x, y) ==> y <= row_floor(top_sample(collider, position))
            &&& corners.bottom_left && corners.top_left ==> once.x - collider.half_width
                == column_right(left_sample(collider, position)) && forall|x: int, y: int| #[trigger]
                occupies(collider, once, x, y) ==> x >= column_right(
                    left_sample(collider, position),
                )
            &&& corners.bottom_right && corners.top_right && !(corners.bottom_left
                && corners.top_left) ==> once.x + collider.half_width == column_left(
                right_sample(collider, position),
            ) && forall|x: int, y: int| #[trigger]
                occupies(collider, once, x, y) ==> x < column_left(
                    right_sample(collider, position),
                )
        }),
{
    lemma_corners_allow_pushes(region, collider, position);
    let corners = blocked_corners(region, collider, position);
    if corners.bottom_left || corners.bottom_right {
        lemma_push_reaches_boundary(collider, position, Direction::Up);
    }
    if corners.top_left || corners.top_right {
        lemma_push_reaches_boundary(collider, position, Direction::Down);
    }
    if corners.bottom_left || corners.top_left {
        lemma_push_reaches_boundary(collider, position, Direction::Right);
    }
    if corners.bottom_right || corners.top_right {
        lemma_push_reaches_boundary(collider, position, Direction::Left);
    }
}

/// Every blocked corner lies where the region has tiles, so that the pushes
/// that would free it are within reach.
pub proof fn lemma_corners_allow_pushes(
    region: Region,
    collider: RectangleCollider,
    position: Position,
)
    requires
        region.wf(),
    ensures
        ({
            let corners = blocked_corners(region, collider, position);
            &&& corners.bottom_left || corners.bottom_right ==> can_be_pushed(
                collider,
                position,
                Direction::Up,
            )
            &&& corners.top_left || corners.top_right ==> can_be_pushed(
                collider,
                position,
                Direction::Down,
            )
            &&& corners.bottom_left || corners.top_left ==> can_be_pushed(
                collider,
                position,
                Direction::Right,
            )
            &&& corners.bottom_right || corners.top_right ==> can_be_pushed(
                collider,
                position,
                Direction::Left,
            )
        }),
{
}

/// Where a corner is blocked, one of the pushes that would free a corner is
/// the least.
pub proof fn lemma_least_push_exists(
    corners: crate::system::terrain_response::BlockedCorners,
    collider: RectangleCollider,
    position: Position,
)
    requires
        corners.any(),
    ensures
        ({
            let pushes = corner_pushes(corners, collider, position);
            let winner = choose|index: int| is_least_push(pushes, index);
            &&& is_least_push(pushes, winner)
            &&& winner == 0 || winner == 1 ==> corners.bottom_left
            &&& winner == 2 || winner == 3 ==> corners.bottom_right
            &&& winner == 4 || winner == 5 ==> corners.top_left
            &&& winner == 6 || winner == 7 ==> corners.top_right
        }),
{
    let pushes = corner_pushes(corners, collider, position);
    assert(pushes.len() == 8);
    assert(pushes.take(8) =~= pushes);
    assert(pushes[0].wanted || pushes[2].wanted || pushes[4].wanted || pushes[6].wanted);
    lemma_some_push_is_least(pushes, 8);
    let winner = choose|index: int| is_least_push(pushes, index);
    assert(pushes[winner].wanted);
}

/// Among the first `count` pushes, if one is wanted then one is the least
/// of them.
proof fn lemma_some_push_is_least(pushes: Seq<crate::system::terrain_response::Push>, count: int)
    requires
        0 <= count <= pushes.len(),
    ensures
        (exists|index: int| 0 <= index < count && #[trigger] pushes[index].wanted) ==> exists|
            index: int,
        |
            is_least_push(pushes.take(count), index),
    decreases count,
{
    if count > 0 {
        lemma_some_push_is_least(pushes, count - 1);
        let shorter = pushes.take(count - 1);
        let longer = pushes.take(count);
        let last = pushes[count - 1];
        assert forall|index: int| 0 <= index < count - 1 implies shorter[index] == longer[index] by {}
        if exists|index: int| 0 <= index < count - 1 && #[trigger] pushes[index].wanted {
            let witness = choose|index: int| 0 <= index < count - 1 && #[trigger] pushes[index].wanted;
            assert(pushes[witness].wanted);
            let before = choose|index: int| is_least_push(shorter, index);
            assert(is_least_push(shorter, before));
            if last.wanted && last.distance < shorter[before].distance {
                assert forall|other: int|
                    0 <= other < longer.len() && longer[other].wanted implies longer[count
                        - 1].distance <= #[trigger] longer[other].distance by {
                    if other < count - 1 {
                        assert(shorter[before].distance <= shorter[other].distance);
                    }
                }
                assert forall|other: int|
                    0 <= other < count - 1 && longer[other].wanted implies longer[count
                        - 1].distance < #[trigger] longer[other].distance by {
                    assert(shorter[before].distance <= shorter[other].distance);
                }
                assert(is_least_push(longer, count - 1));
            } else {
                assert forall|other: int|
                    0 <= other < longer.len() && longer[other].wanted implies longer[before].distance
                        <= #[trigger] longer[other].distance by {
                    if other < count - 1 {
                        assert(shorter[before].distance <= shorter[other].distance);
                    }
                }
                assert forall|other: int|
                    0 <= other < before && longer[other].wanted implies longer[before].distance
                        < #[trigger] longer[other].distance by {
                    assert(shorter[before].distance < shorter[other].distance);
                }
                assert(is_least_push(longer, before));
            }
        } else if last.wanted {
            assert forall|other: int|
                0 <= other < longer.len() && longer[other].wanted implies longer[count
                    - 1].distance <= #[trigger] longer[other].distance by {
                if other < count - 1 {
                    assert(!pushes[other].wanted);
                }
            }
            assert forall|other: int|
                0 <= other < count - 1 && longer[other].wanted implies longer[count - 1].distance
                    < #[trigger] longer[other].distance by {
                assert(!pushes[other].wanted);
            }
            assert(is_least_push(longer, count - 1));
        } else {
            assert forall|index: int| 0 <= index < count implies !#[trigger] pushes[index].wanted by {
                if index < count - 1 {
                }
            }
        }
    }
}

} // verus!
