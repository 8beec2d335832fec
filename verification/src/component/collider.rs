//! Collider shapes and the intersection tests between them.

use vstd::prelude::*;

use crate::component::direction::Direction;
use crate::component::position::Position;

verus! {

/// Axis-aligned rectangle collider, centred on its entity's position.
#[derive(PartialEq, Eq, Structural, Copy, Clone, Debug)]
pub struct RectangleCollider {
    pub half_width: i32,
    pub half_height: i32,
}

/// Axis-aligned half-disk collider. Its flat edge runs through its entity's
/// position.
#[derive(PartialEq, Eq, Structural, Copy, Clone, Debug)]
pub struct HalfDiskCollider {
    pub radius: i32,
    /// The direction towards which the half-disk extends.
    pub direction: Direction,
}

/// The smaller of two numbers.
pub open spec fn lesser(a: int, b: int) -> int {
    if a <= b {
        a
    } else {
        b
    }
}

/// The larger of two numbers.
pub open spec fn greater(a: int, b: int) -> int {
    if a >= b {
        a
    } else {
        b
    }
}

/// `val` if it lies strictly between `min` and `max`, else the bound it
/// reached; `min` wins where the bounds are out of order.
pub open spec fn clamped(val: int, min: int, max: int) -> int {
    if val > min {
        if val < max {
            val
        } else {
            max
        }
    } else {
        min
    }
}

impl RectangleCollider {
    /// The x coordinate of the left edge of the collider placed at `position`.
    pub open spec fn left(&self, position: Position) -> int {
        position.x - self.half_width
    }

    /// The x coordinate of the right edge of the collider placed at `position`.
    pub open spec fn right(&self, position: Position) -> int {
        position.x + self.half_width
    }

    /// The y coordinate of the bottom edge of the collider placed at `position`.
    pub open spec fn bottom(&self, position: Position) -> int {
        position.y - self.half_height
    }

    /// The y coordinate of the top edge of the collider placed at `position`.
    pub open spec fn top(&self, position: Position) -> int {
        position.y + self.half_height
    }

    /// Whether the point lies in the closed rectangle that the collider
    /// covers when placed at `position`.
    pub open spec fn contains(&self, position: Position, x: int, y: int) -> bool {
        self.left(position) <= x <= self.right(position) && self.bottom(position) <= y <= self.top(
            position,
        )
    }
}

/// The length over which two rectangles overlap along the x axis.
pub open spec fn overlap_width(
    first: RectangleCollider,
    first_position: Position,
    second: RectangleCollider,
    second_position: Position,
) -> int {
    greater(
        0,
        lesser(first.right(first_position), second.right(second_position)) - greater(
            first.left(first_position),
            second.left(second_position),
        ),
    )
}

/// The length over which two rectangles overlap along the y axis.
pub open spec fn overlap_height(
    first: RectangleCollider,
    first_position: Position,
    second: RectangleCollider,
    second_position: Position,
) -> int {
    greater(
        0,
        lesser(first.top(first_position), second.top(second_position)) - greater(
            first.bottom(first_position),
            second.bottom(second_position),
        ),
    )
}

/// The area that two rectangles have in common.
pub open spec fn overlap_area(
    first: RectangleCollider,
    first_position: Position,
    second: RectangleCollider,
    second_position: Position,
) -> int {
    overlap_width(first, first_position, second, second_position) * overlap_height(
        first,
        first_position,
        second,
        second_position,
    )
}

/// Determines the area of intersection between two rectangle colliders. It is
/// zero where they are apart or only touch.
pub fn rect_rect_intersection_area(
    first: (&RectangleCollider, &Position),
    second: (&RectangleCollider, &Position),
) -> (area: u64)
    ensures
        area == overlap_area(*first.0, *first.1, *second.0, *second.1),
{
    let (collider1, pos1) = first;
    let (collider2, pos2) = second;
    let right1: i64 = pos1.x as i64 + collider1.half_width as i64;
    let right2: i64 = pos2.x as i64 + collider2.half_width as i64;
    let left1: i64 = pos1.x as i64 - collider1.half_width as i64;
    let left2: i64 = pos2.x as i64 - collider2.half_width as i64;
    let top1: i64 = pos1.y as i64 + collider1.half_height as i64;
    let top2: i64 = pos2.y as i64 + collider2.half_height as i64;
    let bottom1: i64 = pos1.y as i64 - collider1.half_height as i64;
    let bottom2: i64 = pos2.y as i64 - collider2.half_height as i64;
    let min_right: i64 = if right1 <= right2 { right1 } else { right2 };
    let max_left: i64 = if left1 >= left2 { left1 } else { left2 };
    let min_top: i64 = if top1 <= top2 { top1 } else { top2 };
    let max_bottom: i64 = if bottom1 >= bottom2 { bottom1 } else { bottom2 };
    let width: u64 = if min_right > max_left { (min_right - max_left) as u64 } else { 0 };
    let height: u64 = if min_top > max_bottom { (min_top - max_bottom) as u64 } else { 0 };
    assert(width * height <= 0xffff_ffff * 0xffff_ffff) by (nonlinear_arith)
        requires
            width <= 0xffff_ffff,
            height <= 0xffff_ffff,
    ;
    width * height
}

/// The point of the rectangle that is nearest to `target`.
pub open spec fn closest_point(
    rectangle: RectangleCollider,
    position: Position,
    target: Position,
) -> (int, int) {
    (
        clamped(target.x as int, rectangle.left(position), rectangle.right(position)),
        clamped(target.y as int, rectangle.bottom(position), rectangle.top(position)),
    )
}

impl HalfDiskCollider {
    /// Whether the point lies strictly on the far side of the flat edge of
    /// the half-disk placed at `position`: in the half-plane it faces away
    /// from.
    pub open spec fn is_behind(&self, position: Position, x: int, y: int) -> bool {
        match self.direction {
            Direction::Up => y < position.y,
            Direction::Down => y > position.y,
            Direction::Left => x > position.x,
            Direction::Right => x < position.x,
        }
    }

    /// Whether the point lies within the half-disk placed at `position`, its
    /// flat edge and its arc included.
    pub open spec fn contains(&self, position: Position, x: int, y: int) -> bool {
        !self.is_behind(position, x, y) && (x - position.x) * (x - position.x) + (y - position.y)
            * (y - position.y) <= self.radius * self.radius
    }
}

/// Whether the point of the rectangle nearest the half-disk's centre lies
/// within the half-disk.
pub open spec fn nearest_point_is_hit(
    rectangle: RectangleCollider,
    rectangle_position: Position,
    half_disk: HalfDiskCollider,
    half_disk_position: Position,
) -> bool {
    let nearest = closest_point(rectangle, rectangle_position, half_disk_position);
    half_disk.contains(half_disk_position, nearest.0, nearest.1)
}

/// Calls `nalgebra::clamp`.
///
/// Trusted: the result is `val` where `val` lies strictly between `min` and
/// `max`, `max` where `val` lies above `min` but not below `max`, and `min`
/// otherwise, as the three comparisons in the function's source read.
#[verifier::external_body]
fn clamp_coordinate(val: i64, min: i64, max: i64) -> (within: i64)
    ensures
        within == clamped(val as int, min as int, max as int),
{
    nalgebra::clamp(val, min, max)
}

/// Determines whether `rectangle` and `half_disk` intersect.
pub fn rect_intersects_half_disk(
    rectangle: (&RectangleCollider, &Position),
    half_disk: (&HalfDiskCollider, &Position),
) -> (intersecting: bool)
    ensures
        intersecting == nearest_point_is_hit(
            *rectangle.0,
            *rectangle.1,
            *half_disk.0,
            *half_disk.1,
        ),
{
    let (rect_collider, rect_pos) = rectangle;
    let (half_disk_collider, disk_pos) = half_disk;
    // Find the point inside the rectangle that is closest to the disk's center.
    let closest_x: i64 = clamp_coordinate(
        disk_pos.x as i64,
        rect_pos.x as i64 - rect_collider.half_width as i64,
        rect_pos.x as i64 + rect_collider.half_width as i64,
    );
    let closest_y: i64 = clamp_coordinate(
        disk_pos.y as i64,
        rect_pos.y as i64 - rect_collider.half_height as i64,
        rect_pos.y as i64 + rect_collider.half_height as i64,
    );
    // Check whether this closest point is in the opposite half plane from the half disk.
    let in_different_half_planes: bool = match half_disk_collider.direction {
        Direction::Up => closest_y < disk_pos.y as i64,
        Direction::Down => closest_y > disk_pos.y as i64,
        Direction::Left => closest_x > disk_pos.x as i64,
        Direction::Right => closest_x < disk_pos.x as i64,
    };
    if in_different_half_planes {
        return false;
    }
    // Check whether this closest point is within the disk.
    let apart_x: i128 = closest_x as i128 - disk_pos.x as i128;
    let apart_y: i128 = closest_y as i128 - disk_pos.y as i128;
    let radius: i128 = half_disk_collider.radius as i128;
    assert(apart_x * apart_x <= 0x2_0000_0000 * 0x2_0000_0000 && apart_x * apart_x >= 0)
        by (nonlinear_arith)
        requires
            -0x2_0000_0000 <= apart_x <= 0x2_0000_0000,
    ;
    assert(apart_y * apart_y <= 0x2_0000_0000 * 0x2_0000_0000 && apart_y * apart_y >= 0)
        by (nonlinear_arith)
        requires
            -0x2_0000_0000 <= apart_y <= 0x2_0000_0000,
    ;
    assert(radius * radius <= 0x8000_0000 * 0x8000_0000 && radius * radius >= 0)
        by (nonlinear_arith)
        requires
            -0x8000_0000 <= radius <= 0x8000_0000,
    ;
    let distance_squared: i128 = apart_x * apart_x + apart_y * apart_y;
    distance_squared <= radius * radius
}

/// The overlap of two rectangles does not depend on the order in which they
/// are given.
pub proof fn lemma_overlap_is_symmetric(
    first: RectangleCollider,
    first_position: Position,
    second: RectangleCollider,
    second_position: Position,
)
    ensures
        overlap_area(first, first_position, second, second_position) == overlap_area(
            second,
            second_position,
            first,
            first_position,
        ),
{
}

/// Two rectangles have area in common exactly when both have an interior and
/// their centres are nearer than the sum of their half-extents on both axes.
pub proof fn lemma_overlap_is_positive_when_interiors_meet(
    first: RectangleCollider,
    first_position: Position,
    second: RectangleCollider,
    second_position: Position,
)
    ensures
        overlap_area(first, first_position, second, second_position) >= 0,
        overlap_area(first, first_position, second, second_position) > 0 <==> {
            &&& first.half_width > 0 && first.half_height > 0
            &&& second.half_width > 0 && second.half_height > 0
            &&& -(first.half_width + second.half_width) < first_position.x - second_position.x < (
            first.half_width + second.half_width)
            &&& -(first.half_height + second.half_height) < first_position.y - second_position.y < (
            first.half_height + second.half_height)
        },
{
    let w = overlap_width(first, first_position, second, second_position);
    let h = overlap_height(first, first_position, second, second_position);
    assert(w * h >= 0 && (w * h > 0 <==> (w > 0 && h > 0))) by (nonlinear_arith)
        requires
            w >= 0,
            h >= 0,
    ;
}

/// The test by the nearest point is exact: it succeeds exactly when some
/// point of the rectangle lies within the half-disk.
pub proof fn lemma_half_disk_test_is_exact(
    rectangle: RectangleCollider,
    rectangle_position: Position,
    half_disk: HalfDiskCollider,
    half_disk_position: Position,
)
    requires
        rectangle.half_width >= 0,
        rectangle.half_height >= 0,
    ensures
        nearest_point_is_hit(rectangle, rectangle_position, half_disk, half_disk_position) <==> (
        exists|x: int, y: int|
            #[trigger] rectangle.contains(rectangle_position, x, y) && half_disk.contains(
                half_disk_position,
                x,
                y,
            )),
{
    let nearest = closest_point(rectangle, rectangle_position, half_disk_position);
    let cx = half_disk_position.x as int;
    let cy = half_disk_position.y as int;
    assert(rectangle.contains(rectangle_position, nearest.0, nearest.1));
    assert forall|x: int, y: int|
        #[trigger] rectangle.contains(rectangle_position, x, y) && half_disk.contains(
            half_disk_position,
            x,
            y,
        ) implies half_disk.contains(half_disk_position, nearest.0, nearest.1) by {
        lemma_square_grows_with_distance(nearest.0 - cx, x - cx);
        lemma_square_grows_with_distance(nearest.1 - cy, y - cy);
    }
}

/// A rectangle that lies wholly behind the flat edge of a half-disk is never
/// hit by it, however large the radius and however near the rectangle.
pub proof fn lemma_half_disk_misses_what_lies_behind(
    rectangle: RectangleCollider,
    rectangle_position: Position,
    half_disk: HalfDiskCollider,
    half_disk_position: Position,
)
    requires
        rectangle.half_width >= 0,
        rectangle.half_height >= 0,
        forall|x: int, y: int| #[trigger]
            rectangle.contains(rectangle_position, x, y) ==> half_disk.is_behind(
                half_disk_position,
                x,
                y,
            ),
    ensures
        !nearest_point_is_hit(rectangle, rectangle_position, half_disk, half_disk_position),
{
    let nearest = closest_point(rectangle, rectangle_position, half_disk_position);
    assert(rectangle.contains(rectangle_position, nearest.0, nearest.1));
}

/// Of two offsets on the same side of zero, the nearer has the smaller square.
proof fn lemma_square_grows_with_distance(near: int, far: int)
    requires
        (0 <= near <= far) || (far <= near <= 0),
    ensures
        near * near <= far * far,
{
    assert(near * near <= far * far) by (nonlinear_arith)
        requires
            (0 <= near <= far) || (far <= near <= 0),
    ;
}

} // verus!
