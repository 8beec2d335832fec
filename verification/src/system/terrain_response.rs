//! How a single rectangle is pushed out of the terrain that blocks it.
//!
//! A rectangle with half-extents `w` and `h` at `(x, y)` occupies the points
//! from `x - w` up to, but not including, `x + w`, and from `y + h` down to,
//! but not including, `y - h`: the same half-open convention by which a tile
//! owns its left and top edges. A rectangle that rests against a wall
//! therefore does not touch it, and a rectangle without area touches nothing.

use vstd::prelude::*;

use crate::component::collider::RectangleCollider;
use crate::component::direction::Direction;
use crate::component::position::{column_of, row_of, Position};
use crate::constants::{HALF_TILE, MAX_REGION_SPAN, TILE_SIZE};
use crate::resource::region::Region;

verus! {

/// The x coordinate of the leftmost points that the rectangle occupies.
pub open spec fn left_sample(collider: RectangleCollider, position: Position) -> int {
    position.x - collider.half_width
}

/// The x coordinate of the rightmost points that the rectangle occupies.
pub open spec fn right_sample(collider: RectangleCollider, position: Position) -> int {
    position.x + collider.half_width - 1
}

/// The y coordinate of the lowest points that the rectangle occupies.
pub open spec fn bottom_sample(collider: RectangleCollider, position: Position) -> int {
    position.y - collider.half_height + 1
}

/// The y coordinate of the highest points that the rectangle occupies.
pub open spec fn top_sample(collider: RectangleCollider, position: Position) -> int {
    position.y + collider.half_height
}

/// Whether the rectangle occupies any point at all.
pub open spec fn has_area(collider: RectangleCollider) -> bool {
    collider.half_width > 0 && collider.half_height > 0
}

/// Whether the rectangle is small enough for the terrain resolver: it spans
/// no more than one tile in either direction.
pub open spec fn fits_in_tile(collider: RectangleCollider) -> bool {
    collider.half_width <= HALF_TILE && collider.half_height <= HALF_TILE
}

/// Whether the rectangle placed at `position` occupies the point.
pub open spec fn occupies(collider: RectangleCollider, position: Position, x: int, y: int) -> bool {
    left_sample(collider, position) <= x <= right_sample(collider, position) && bottom_sample(
        collider,
        position,
    ) <= y <= top_sample(collider, position)
}

/// Whether the rectangle placed at `position` occupies a point of a tile that
/// blocks movement.
pub open spec fn touches_wall(region: Region, collider: RectangleCollider, position: Position) -> bool {
    exists|x: int, y: int| #[trigger]
        occupies(collider, position, x, y) && region.blocks(x, y)
}

/// The y coordinate of the upper edge of the row of tiles that covers `y`.
pub open spec fn row_top(y: int) -> int {
    -(row_of(y) * TILE_SIZE)
}

/// The y coordinate of the upper edge of the row of tiles below the one
/// that covers `y`.
pub open spec fn row_floor(y: int) -> int {
    -((row_of(y) + 1) * TILE_SIZE)
}

/// The x coordinate of the left edge of the column of tiles that covers `x`.
pub open spec fn column_left(x: int) -> int {
    column_of(x) * TILE_SIZE
}

/// The x coordinate of the left edge of the column of tiles to the right of
/// the one that covers `x`.
pub open spec fn column_right(x: int) -> int {
    (column_of(x) + 1) * TILE_SIZE
}

/// Which corners of a rectangle lie on tiles that block movement.
pub struct BlockedCorners {
    pub bottom_left: bool,
    pub bottom_right: bool,
    pub top_left: bool,
    pub top_right: bool,
}

impl BlockedCorners {
    /// Whether any corner is blocked.
    pub open spec fn any(&self) -> bool {
        self.bottom_left || self.bottom_right || self.top_left || self.top_right
    }

    /// Whether all four corners are blocked.
    pub open spec fn all(&self) -> bool {
        self.bottom_left && self.bottom_right && self.top_left && self.top_right
    }

    /// Whether both corners of some edge are blocked.
    pub open spec fn has_blocked_edge(&self) -> bool {
        (self.bottom_left && self.bottom_right) || (self.top_left && self.top_right) || (
        self.bottom_left && self.top_left) || (self.bottom_right && self.top_right)
    }

    /// Whether the blocked corners are two opposite ones and no others.
    pub open spec fn is_diagonal(&self) -> bool {
        (self.bottom_left && self.top_right && !self.bottom_right && !self.top_left) || (
        self.bottom_right && self.top_left && !self.bottom_left && !self.top_right)
    }
}

/// The corners of the rectangle placed at `position` that lie on tiles that
/// block movement.
pub open spec fn blocked_corners(
    region: Region,
    collider: RectangleCollider,
    position: Position,
) -> BlockedCorners {
    let left = left_sample(collider, position);
    let right = right_sample(collider, position);
    let bottom = bottom_sample(collider, position);
    let top = top_sample(collider, position);
    BlockedCorners {
        bottom_left: region.blocks(left, bottom),
        bottom_right: region.blocks(right, bottom),
        top_left: region.blocks(left, top),
        top_right: region.blocks(right, top),
    }
}

/// How far the rectangle must move in `direction` for its edge that trails
/// the movement to reach the next boundary between tiles: what it takes to
/// leave the tiles that its trailing corners lie on.
pub open spec fn push_distance(
    collider: RectangleCollider,
    position: Position,
    direction: Direction,
) -> int {
    match direction {
        Direction::Up => row_top(bottom_sample(collider, position)) - (position.y
            - collider.half_height),
        Direction::Down => (position.y + collider.half_height) - row_floor(
            top_sample(collider, position),
        ),
        Direction::Left => (position.x + collider.half_width) - column_left(
            right_sample(collider, position),
        ),
        Direction::Right => column_right(left_sample(collider, position)) - (position.x
            - collider.half_width),
    }
}

/// Where the rectangle stands after it was pushed in `direction` by
/// `push_distance`.
pub open spec fn pushed(
    collider: RectangleCollider,
    position: Position,
    direction: Direction,
) -> Position {
    let distance = push_distance(collider, position, direction);
    match direction {
        Direction::Up => Position { x: position.x, y: (position.y + distance) as i32 },
        Direction::Down => Position { x: position.x, y: (position.y - distance) as i32 },
        Direction::Left => Position { x: (position.x - distance) as i32, y: position.y },
        Direction::Right => Position { x: (position.x + distance) as i32, y: position.y },
    }
}

/// One way to free a blocked corner: a push, and whether the corner that
/// asks for it is blocked.
pub struct Push {
    pub wanted: bool,
    pub direction: Direction,
    pub distance: int,
}

/// The pushes that would free the single corners of the rectangle, in the
/// order in which they are weighed: corner by corner from bottom-left over
/// bottom-right and top-left to top-right, and for each corner the vertical
/// push before the horizontal one.
pub open spec fn corner_pushes(
    corners: BlockedCorners,
    collider: RectangleCollider,
    position: Position,
) -> Seq<Push> {
    let up = push_distance(collider, position, Direction::Up);
    let down = push_distance(collider, position, Direction::Down);
    let left = push_distance(collider, position, Direction::Left);
    let right = push_distance(collider, position, Direction::Right);
    seq![
        Push { wanted: corners.bottom_left, direction: Direction::Up, distance: up },
        Push { wanted: corners.bottom_left, direction: Direction::Right, distance: right },
        Push { wanted: corners.bottom_right, direction: Direction::Up, distance: up },
        Push { wanted: corners.bottom_right, direction: Direction::Left, distance: left },
        Push { wanted: corners.top_left, direction: Direction::Down, distance: down },
        Push { wanted: corners.top_left, direction: Direction::Right, distance: right },
        Push { wanted: corners.top_right, direction: Direction::Down, distance: down },
        Push { wanted: corners.top_right, direction: Direction::Left, distance: left },
    ]
}

/// Whether the push at `index` is the one to apply: it is wanted, no wanted
/// push is shorter, and no wanted push before it is as short.
pub open spec fn is_least_push(pushes: Seq<Push>, index: int) -> bool {
    &&& 0 <= index < pushes.len()
    &&& pushes[index].wanted
    &&& forall|other: int|
        0 <= other < pushes.len() && pushes[other].wanted ==> pushes[index].distance
            <= #[trigger] pushes[other].distance
    &&& forall|other: int|
        0 <= other < index && pushes[other].wanted ==> pushes[index].distance
            < #[trigger] pushes[other].distance
}

/// Where the terrain resolver leaves a rectangle that stood at `position`.
///
/// A rectangle of which both corners of an edge are blocked is pushed away
/// from that edge until it has left the tiles that the two corners lay on;
/// the bottom edge is seen to before the top, the left before the right, and
/// one edge of each axis may be pushed away from. Otherwise the single
/// blocked corners are weighed against each other and the least push that
/// frees one of them is applied. A rectangle that touches no blocked corner
/// stays where it is.
pub open spec fn resolved_position(
    region: Region,
    collider: RectangleCollider,
    position: Position,
) -> Position {
    let corners = blocked_corners(region, collider, position);
    if !has_area(collider) {
        position
    } else if corners.has_blocked_edge() {
        let vertical = if corners.bottom_left && corners.bottom_right {
            pushed(collider, position, Direction::Up)
        } else if corners.top_left && corners.top_right {
            pushed(collider, position, Direction::Down)
        } else {
            position
        };
        let horizontal = if corners.bottom_left && corners.top_left {
            pushed(collider, position, Direction::Right)
        } else if corners.bottom_right && corners.top_right {
            pushed(collider, position, Direction::Left)
        } else {
            position
        };
        Position { x: horizontal.x, y: vertical.y }
    } else if corners.any() {
        let pushes = corner_pushes(corners, collider, position);
        let winner = choose|index: int| is_least_push(pushes, index);
        pushed(collider, position, pushes[winner].direction)
    } else {
        position
    }
}

/// Whether the corner that trails a push in `direction` lies where a region
/// can have tiles, so that the boundary to push to is within reach.
pub open spec fn can_be_pushed(
    collider: RectangleCollider,
    position: Position,
    direction: Direction,
) -> bool {
    match direction {
        Direction::Up => bottom_sample(collider, position) <= 0 && row_of(
            bottom_sample(collider, position),
        ) < MAX_REGION_SPAN,
        Direction::Down => top_sample(collider, position) <= 0 && row_of(
            top_sample(collider, position),
        ) < MAX_REGION_SPAN,
        Direction::Left => right_sample(collider, position) >= 0 && column_of(
            right_sample(collider, position),
        ) < MAX_REGION_SPAN,
        Direction::Right => left_sample(collider, position) >= 0 && column_of(
            left_sample(collider, position),
        ) < MAX_REGION_SPAN,
    }
}

/// Computes how far the rectangle must be pushed in `direction` to leave the
/// tiles that its trailing corners lie on, and where that takes it.
pub fn push_toward(collider: &RectangleCollider, position: Position, direction: Direction) -> (push:
    (i64, Position))
    requires
        has_area(*collider),
        fits_in_tile(*collider),
        can_be_pushed(*collider, position, direction),
    ensures
        push.0 == push_distance(*collider, position, direction),
        push.1 == pushed(*collider, position, direction),
        1 <= push.0 <= TILE_SIZE,
{
    let tile: i64 = TILE_SIZE as i64;
    match direction {
        Direction::Up => {
            let bottom: i64 = position.y as i64 - collider.half_height as i64 + 1;
            let row: i64 = (-bottom) / tile;
            let target: i64 = -(row * tile) + collider.half_height as i64;
            (target - position.y as i64, Position { x: position.x, y: target as i32 })
        },
        Direction::Down => {
            let top: i64 = position.y as i64 + collider.half_height as i64;
            let row: i64 = (-top) / tile;
            let target: i64 = -((row + 1) * tile) - collider.half_height as i64;
            (position.y as i64 - target, Position { x: position.x, y: target as i32 })
        },
        Direction::Left => {
            let right: i64 = position.x as i64 + collider.half_width as i64 - 1;
            let col: i64 = right / tile;
            let target: i64 = col * tile - collider.half_width as i64;
            (position.x as i64 - target, Position { x: target as i32, y: position.y })
        },
        Direction::Right => {
            let left: i64 = position.x as i64 - collider.half_width as i64;
            let col: i64 = left / tile;
            let target: i64 = (col + 1) * tile + collider.half_width as i64;
            (target - position.x as i64, Position { x: target as i32, y: position.y })
        },
    }
}

/// A point on a blocking tile lies where the region has tiles.
pub proof fn lemma_blocked_point_is_on_grid(region: Region, x: int, y: int)
    requires
        region.wf(),
        region.blocks(x, y),
    ensures
        x >= 0,
        y <= 0,
        0 <= column_of(x) < region.cols(),
        0 <= row_of(y) < region.rows(),
        column_of(x) < MAX_REGION_SPAN,
        row_of(y) < MAX_REGION_SPAN,
{
}

/// Pushes a rectangle out of the tiles that block it, and returns where
/// it stands afterwards.
pub fn push_out_of_terrain(region: &Region, collider: &RectangleCollider, position: Position) -> (resolved:
    Position)
    requires
        region.wf(),
        fits_in_tile(*collider),
    ensures
        resolved == resolved_position(*region, *collider, position),
{
    if collider.half_width <= 0 || collider.half_height <= 0 {
        return position;
    }
    let left: i64 = position.x as i64 - collider.half_width as i64;
    let right: i64 = position.x as i64 + collider.half_width as i64 - 1;
    let bottom: i64 = position.y as i64 - collider.half_height as i64 + 1;
    let top: i64 = position.y as i64 + collider.half_height as i64;
    // Check for collisions with walls on each corner.
    let bottom_left: bool = region.is_wall(left, bottom);
    let bottom_right: bool = region.is_wall(right, bottom);
    let top_left: bool = region.is_wall(left, top);
    let top_right: bool = region.is_wall(right, top);
    let ghost corners = blocked_corners(*region, *collider, position);
    proof {
        if bottom_left {
            lemma_blocked_point_is_on_grid(*region, left as int, bottom as int);
        }
        if bottom_right {
            lemma_blocked_point_is_on_grid(*region, right as int, bottom as int);
        }
        if top_left {
            lemma_blocked_point_is_on_grid(*region, left as int, top as int);
        }
        if top_right {
            lemma_blocked_point_is_on_grid(*region, right as int, top as int);
        }
    }
    // Easy cases: a whole edge is in the wall.
    let mut resolved: Position = position;
    let mut edge_hit: bool = false;
    if bottom_left && bottom_right {
        resolved.y = push_toward(collider, position, Direction::Up).1.y;
        edge_hit = true;
    } else if top_left && top_right {
        resolved.y = push_toward(collider, position, Direction::Down).1.y;
        edge_hit = true;
    }
    if bottom_left && top_left {
        resolved.x = push_toward(collider, position, Direction::Right).1.x;
        edge_hit = true;
    } else if bottom_right && top_right {
        resolved.x = push_toward(collider, position, Direction::Left).1.x;
        edge_hit = true;
    }
    if edge_hit {
        return resolved;
    }
    // Harder case: single corners are in the wall. Find the least push that frees one.
    let ghost pushes = corner_pushes(corners, *collider, position);
    let ghost mut winner: int = -1;
    let mut push_direction: Option<Direction> = None;
    let mut min_push: i64 = i64::MAX;
    if bottom_left {
        let push: i64 = push_toward(collider, position, Direction::Up).0;
        if push < min_push {
            min_push = push;
            push_direction = Some(Direction::Up);
            proof {
                winner = 0;
            }
        }
        let push: i64 = push_toward(collider, position, Direction::Right).0;
        if push < min_push {
            min_push = push;
            push_direction = Some(Direction::Right);
            proof {
                winner = 1;
            }
        }
    }
    if bottom_right {
        let push: i64 = push_toward(collider, position, Direction::Up).0;
        if push < min_push {
            min_push = push;
            push_direction = Some(Direction::Up);
            proof {
                winner = 2;
            }
        }
        let push: i64 = push_toward(collider, position, Direction::Left).0;
        if push < min_push {
            min_push = push;
            push_direction = Some(Direction::Left);
            proof {
                winner = 3;
            }
        }
    }
    if top_left {
        let push: i64 = push_toward(collider, position, Direction::Down).0;
        if push < min_push {
            min_push = push;
            push_direction = Some(Direction::Down);
            proof {
                winner = 4;
            }
        }
        let push: i64 = push_toward(collider, position, Direction::Right).0;
        if push < min_push {
            min_push = push;
            push_direction = Some(Direction::Right);
            proof {
                winner = 5;
            }
        }
    }
    if top_right {
        let push: i64 = push_toward(collider, position, Direction::Down).0;
        if push < min_push {
            min_push = push;
            push_direction = Some(Direction::Down);
            proof {
                winner = 6;
            }
        }
        let push: i64 = push_toward(collider, position, Direction::Left).0;
        if push < min_push {
            min_push = push;
            push_direction = Some(Direction::Left);
            proof {
                winner = 7;
            }
        }
    }
    // If a corner was hit, perform the push.
    match push_direction {
        Some(push_direction) => {
            proof {
                assert(pushes.len() == 8);
                assert(is_least_push(pushes, winner));
                lemma_least_push_is_unique(pushes, winner, choose|index: int| is_least_push(pushes, index));
            }
            push_toward(collider, position, push_direction).1
        },
        None => position,
    }
}

/// At most one push is the least.
pub proof fn lemma_least_push_is_unique(pushes: Seq<Push>, first: int, second: int)
    requires
        is_least_push(pushes, first),
        is_least_push(pushes, second),
    ensures
        first == second,
{
    if first < second {
        assert(pushes[second].distance < pushes[first].distance);
        assert(pushes[first].distance <= pushes[second].distance);
    } else if second < first {
        assert(pushes[first].distance < pushes[second].distance);
        assert(pushes[second].distance <= pushes[first].distance);
    }
}

/// The coordinate that is sampled at `step` when the span from `low` to
/// `high` is walked in strides of one tile: every stride lands on a sample,
/// and so does the far end.
pub open spec fn stride_sample(low: int, high: int, step: int) -> int {
    if step * TILE_SIZE < high - low {
        low + step * TILE_SIZE
    } else {
        high
    }
}

/// Every column that a span of x coordinates reaches holds one of the
/// samples taken along the span.
pub proof fn lemma_strides_reach_every_column(low: int, high: int, x: int)
    requires
        low <= x <= high,
        x >= 0,
    ensures
        exists|step: int|
            0 <= step && #[trigger] stride_sample(low, high, step) >= 0 && column_of(
                stride_sample(low, high, step),
            ) == column_of(x),
{
    let step = (x - low) / (TILE_SIZE as int);
    let here = stride_sample(low, high, step);
    let next = stride_sample(low, high, step + 1);
    assert(here == low + step * TILE_SIZE || here == high);
    if here >= 0 && column_of(here) == column_of(x) {
    } else {
        assert(next >= 0 && column_of(next) == column_of(x));
    }
}

/// Every row that a span of y coordinates reaches holds one of the samples
/// taken along the span.
pub proof fn lemma_strides_reach_every_row(low: int, high: int, y: int)
    requires
        low <= y <= high,
        y <= 0,
    ensures
        exists|step: int|
            0 <= step && #[trigger] stride_sample(low, high, step) <= 0 && row_of(
                stride_sample(low, high, step),
            ) == row_of(y),
{
    let step = (y - low) / (TILE_SIZE as int);
    let here = stride_sample(low, high, step);
    let next = stride_sample(low, high, step + 1);
    assert(here == low + step * TILE_SIZE || here == high);
    if here <= 0 && row_of(here) == row_of(y) {
    } else {
        assert(next <= 0 && row_of(next) == row_of(y));
    }
}

/// A rectangle none of whose samples lies on a wall touches no wall.
pub proof fn lemma_free_samples_mean_no_contact(
    region: Region,
    collider: RectangleCollider,
    position: Position,
)
    requires
        region.wf(),
        has_area(collider),
        forall|step_x: int, step_y: int|
            0 <= step_x && 0 <= step_y ==> !region.blocks(
                #[trigger] stride_sample(
                    left_sample(collider, position),
                    right_sample(collider, position),
                    step_x,
                ),
                #[trigger] stride_sample(
                    bottom_sample(collider, position),
                    top_sample(collider, position),
                    step_y,
                ),
            ),
    ensures
        !touches_wall(region, collider, position),
{
    let left = left_sample(collider, position);
    let right = right_sample(collider, position);
    let bottom = bottom_sample(collider, position);
    let top = top_sample(collider, position);
    assert forall|x: int, y: int| #[trigger]
        occupies(collider, position, x, y) implies !region.blocks(x, y) by {
        if region.blocks(x, y) {
            lemma_strides_reach_every_column(left, right, x);
            lemma_strides_reach_every_row(bottom, top, y);
            let step_x = choose|step: int|
                0 <= step && #[trigger] stride_sample(left, right, step) >= 0 && column_of(
                    stride_sample(left, right, step),
                ) == column_of(x);
            let step_y = choose|step: int|
                0 <= step && #[trigger] stride_sample(bottom, top, step) <= 0 && row_of(
                    stride_sample(bottom, top, step),
                ) == row_of(y);
            assert(region.blocks(
                stride_sample(left, right, step_x),
                stride_sample(bottom, top, step_y),
            ));
        }
    }
}

/// Determines whether a rectangle of any size touches a wall. The rectangle
/// is sampled at strides of one tile across its full width and height.
pub fn overlaps_wall(region: &Region, collider: &RectangleCollider, position: Position) -> (touching:
    bool)
    requires
        region.wf(),
    ensures
        touching == touches_wall(*region, *collider, position),
{
    if collider.half_width <= 0 || collider.half_height <= 0 {
        assert forall|x: int, y: int| !#[trigger] occupies(*collider, position, x, y) by {}
        return false;
    }
    let tile: i64 = TILE_SIZE as i64;
    let left: i64 = position.x as i64 - collider.half_width as i64;
    let right: i64 = position.x as i64 + collider.half_width as i64 - 1;
    let bottom: i64 = position.y as i64 - collider.half_height as i64 + 1;
    let top: i64 = position.y as i64 + collider.half_height as i64;
    let mut step_x: i64 = 0;
    let mut x_done: bool = false;
    while !x_done
        invariant
            region.wf(),
            tile == TILE_SIZE,
            left == left_sample(*collider, position),
            right == right_sample(*collider, position),
            bottom == bottom_sample(*collider, position),
            top == top_sample(*collider, position),
            left <= right,
            bottom <= top,
            0 <= step_x,
            step_x > 0 ==> (step_x - 1) * tile < right - left,
            x_done ==> step_x * tile >= right - left,
            forall|i: int, j: int|
                0 <= i < step_x && 0 <= j ==> !region.blocks(
                    #[trigger] stride_sample(left as int, right as int, i),
                    #[trigger] stride_sample(bottom as int, top as int, j),
                ),
            x_done ==> forall|i: int, j: int|
                0 <= i && 0 <= j ==> !region.blocks(
                    #[trigger] stride_sample(left as int, right as int, i),
                    #[trigger] stride_sample(bottom as int, top as int, j),
                ),
        decreases
            if x_done {
                0
            } else {
                right - left + tile - step_x * tile
            },
    {
        let x: i64 = if step_x * tile < right - left {
            left + step_x * tile
        } else {
            right
        };
        let mut step_y: i64 = 0;
        let mut y_done: bool = false;
        while !y_done
            invariant
                region.wf(),
                tile == TILE_SIZE,
                left == left_sample(*collider, position),
                right == right_sample(*collider, position),
                bottom == bottom_sample(*collider, position),
                top == top_sample(*collider, position),
                left <= right,
                bottom <= top,
                0 <= step_x,
                x == stride_sample(left as int, right as int, step_x as int),
                0 <= step_y,
                step_y > 0 ==> (step_y - 1) * tile < top - bottom,
                y_done ==> step_y * tile >= top - bottom,
                forall|j: int|
                    0 <= j < step_y ==> !region.blocks(
                        x as int,
                        #[trigger] stride_sample(bottom as int, top as int, j),
                    ),
                y_done ==> forall|j: int|
                    0 <= j ==> !region.blocks(
                        x as int,
                        #[trigger] stride_sample(bottom as int, top as int, j),
                    ),
            decreases
                if y_done {
                    0
                } else {
                    top - bottom + tile - step_y * tile
                },
        {
            let y: i64 = if step_y * tile < top - bottom {
                bottom + step_y * tile
            } else {
                top
            };
            if region.is_wall(x, y) {
                assert(occupies(*collider, position, x as int, y as int));
                return true;
            }
            if step_y * tile >= top - bottom {
                y_done = true;
                assert forall|j: int| 0 <= j implies !region.blocks(
                    x as int,
                    #[trigger] stride_sample(bottom as int, top as int, j),
                ) by {
                    if j >= step_y {
                        assert(stride_sample(bottom as int, top as int, j) == top);
                    }
                }
            } else {
                step_y = step_y + 1;
            }
        }
        if step_x * tile >= right - left {
            x_done = true;
            assert forall|i: int, j: int| 0 <= i && 0 <= j implies !region.blocks(
                #[trigger] stride_sample(left as int, right as int, i),
                #[trigger] stride_sample(bottom as int, top as int, j),
            ) by {
                if i >= step_x {
                    assert(stride_sample(left as int, right as int, i) == right);
                }
            }
        } else {
            assert forall|i: int, j: int| 0 <= i < step_x + 1 && 0 <= j implies !region.blocks(
                #[trigger] stride_sample(left as int, right as int, i),
                #[trigger] stride_sample(bottom as int, top as int, j),
            ) by {}
            step_x = step_x + 1;
        }
    }
    proof {
        lemma_free_samples_mean_no_contact(*region, *collider, position);
    }
    false
}

} // verus!
