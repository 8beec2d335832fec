use vstd::prelude::*;

use crate::component::position::Position;
use crate::component::velocity::Velocity;
use crate::constants::{KNOCKBACK_FRAMES, KNOCKBACK_SPEED};

verus! {

/// The forced movement of a character that was just hit.
#[derive(PartialEq, Eq, Structural, Copy, Clone, Debug)]
pub struct KnockedBack {
    velocity: Velocity,
    frames_left: u32,
}

/// Tells whether a knockback has run its course.
#[derive(PartialEq, Eq, Structural, Copy, Clone, Debug)]
pub enum KnockedBackFinished {
    /// The knockback has finished.
    Yes,
    /// The knockback has not yet finished.
    No,
}

/// Whether `root` is the square root of `square`, rounded down.
pub open spec fn is_floor_sqrt(square: int, root: int) -> bool {
    0 <= root && root * root <= square < (root + 1) * (root + 1)
}

/// The square root of `square`, rounded down.
pub open spec fn floor_sqrt(square: int) -> int {
    choose|root: int| is_floor_sqrt(square, root)
}

/// How far a knockback at standard speed moves a character per tick along
/// one axis, when the hit came from `along` steps away on that axis and
/// `across` steps away on the other: the share of the speed that `along`
/// has in the distance, rounded towards zero.
pub open spec fn knockback_component(along: int, across: int) -> int {
    let share = floor_sqrt(
        (along * along * (KNOCKBACK_SPEED * KNOCKBACK_SPEED)) / (along * along + across * across),
    );
    if along < 0 {
        -share
    } else {
        share
    }
}

/// The velocity of a knockback that pushes from `from` towards `to` at
/// standard speed, and to the right where the two coincide.
pub open spec fn knockback_velocity(from: Position, to: Position) -> Velocity {
    if from == to {
        Velocity { x: KNOCKBACK_SPEED, y: 0 }
    } else {
        Velocity {
            x: knockback_component(to.x - from.x, to.y - from.y) as i32,
            y: knockback_component(to.y - from.y, to.x - from.x) as i32,
        }
    }
}

/// A number has at most one rounded-down square root.
pub proof fn lemma_floor_sqrt_is_unique(square: int, first: int, second: int)
    requires
        is_floor_sqrt(square, first),
        is_floor_sqrt(square, second),
    ensures
        first == second,
{
    assert(first == second) by (nonlinear_arith)
        requires
            0 <= first,
            0 <= second,
            first * first <= square < (first + 1) * (first + 1),
            second * second <= square < (second + 1) * (second + 1),
    ;
}

/// Whatever passes for the rounded-down square root is the one.
pub proof fn lemma_floor_sqrt_is_the_root(square: int, root: int)
    requires
        is_floor_sqrt(square, root),
    ensures
        floor_sqrt(square) == root,
{
    lemma_floor_sqrt_is_unique(square, floor_sqrt(square), root);
}

/// Computes the square root of `square`, rounded down.
pub fn integer_sqrt(square: u64) -> (root: u64)
    ensures
        is_floor_sqrt(square as int, root as int),
        root == floor_sqrt(square as int),
        root <= 0xffff_ffff,
{
    let mut low: u64 = 0;
    let mut high: u64 = 0x1_0000_0000;
    assert(0x1_0000_0000 * 0x1_0000_0000 > u64::MAX) by (nonlinear_arith);
    while high - low > 1
        invariant
            low < high <= 0x1_0000_0000,
            low * low <= square < high * high,
        decreases high - low,
    {
        let middle: u64 = low + (high - low) / 2;
        assert(middle * middle <= 0xffff_ffff * 0xffff_ffff) by (nonlinear_arith)
            requires
                middle <= 0xffff_ffff,
        ;
        if middle * middle <= square {
            low = middle;
        } else {
            high = middle;
        }
    }
    proof {
        lemma_floor_sqrt_is_the_root(square as int, low as int);
    }
    low
}

/// Computes `knockback_component(along, across)`.
fn compute_knockback_component(along: i64, across: i64) -> (component: i32)
    requires
        -0x1_0000_0000 < along < 0x1_0000_0000,
        -0x1_0000_0000 < across < 0x1_0000_0000,
        along != 0 || across != 0,
    ensures
        component == knockback_component(along as int, across as int),
        -KNOCKBACK_SPEED <= component <= KNOCKBACK_SPEED,
{
    proof {
        lemma_squares_are_bounded(along as int);
        lemma_squares_are_bounded(across as int);
    }
    let along_squared: u128 = (along as i128 * along as i128) as u128;
    let across_squared: u128 = (across as i128 * across as i128) as u128;
    let speed_squared: u128 = (KNOCKBACK_SPEED as u128) * (KNOCKBACK_SPEED as u128);
    proof {
        assert(along_squared == along * along);
        assert(across_squared == across * across);
        assert(along_squared + across_squared > 0) by (nonlinear_arith)
            requires
                along_squared == along * along,
                across_squared == across * across,
                along != 0 || across != 0,
        ;
        assert(along_squared * speed_squared <= 0x1_0000_0000_0000_0000 * 156_250_000)
            by (nonlinear_arith)
            requires
                along_squared <= 0x1_0000_0000_0000_0000,
                speed_squared == 156_250_000,
        ;
        lemma_share_is_bounded(
            along_squared as int,
            across_squared as int,
            speed_squared as int,
        );
    }
    let share_squared: u128 = (along_squared * speed_squared) / (along_squared + across_squared);
    let share: u64 = integer_sqrt(share_squared as u64);
    proof {
        assert(share <= KNOCKBACK_SPEED) by (nonlinear_arith)
            requires
                share * share <= share_squared,
                share_squared <= 12_500 * 12_500,
                KNOCKBACK_SPEED == 12_500,
        ;
    }
    if along < 0 {
        -(share as i32)
    } else {
        share as i32
    }
}

impl KnockedBack {
    /// The velocity forced upon the character.
    pub closed spec fn velocity(&self) -> Velocity {
        self.velocity
    }

    /// The number of ticks for which the knockback still lasts.
    pub closed spec fn spec_frames_left(&self) -> u32 {
        self.frames_left
    }

    /// A knockback is removed as soon as it has no frames left.
    pub open spec fn wf(&self) -> bool {
        self.spec_frames_left() > 0
    }

    /// The knockback that pushes from `from` towards `to` at standard speed
    /// for the standard time.
    pub closed spec fn spec_from_positions(from: Position, to: Position) -> KnockedBack {
        KnockedBack { velocity: knockback_velocity(from, to), frames_left: KNOCKBACK_FRAMES }
    }

    /// This knockback one tick later.
    pub closed spec fn ticked(&self) -> KnockedBack {
        KnockedBack { velocity: self.velocity, frames_left: (self.frames_left - 1) as u32 }
    }

    /// Creates a knockback in the direction from `from` to `to`, at standard
    /// speed (`constants::KNOCKBACK_SPEED`).
    pub fn from_positions(from: &Position, to: &Position) -> (knocked_back: KnockedBack)
        ensures
            knocked_back == KnockedBack::spec_from_positions(*from, *to),
            knocked_back.wf(),
            knocked_back.velocity() == knockback_velocity(*from, *to),
            knocked_back.spec_frames_left() == KNOCKBACK_FRAMES,
    {
        let apart_x: i64 = to.x as i64 - from.x as i64;
        let apart_y: i64 = to.y as i64 - from.y as i64;
        let velocity = if apart_x != 0 || apart_y != 0 {
            Velocity {
                x: compute_knockback_component(apart_x, apart_y),
                y: compute_knockback_component(apart_y, apart_x),
            }
        } else {
            // To and from are on top of each other. Knock towards the right arbitrarily.
            Velocity { x: KNOCKBACK_SPEED, y: 0 }
        };
        KnockedBack { velocity, frames_left: KNOCKBACK_FRAMES }
    }

    /// The number of ticks for which the knockback still lasts.
    #[verifier::when_used_as_spec(spec_frames_left)]
    pub fn frames_left(&self) -> (frames_left: u32)
        ensures
            frames_left == self.spec_frames_left(),
    {
        self.frames_left
    }

    /// Updates velocity and time left and returns whether the knockback
    /// effect has finished. To be called once per frame.
    /// `velocity` - The velocity of the character that is being knocked back.
    #[must_use]
    pub fn update(&mut self, velocity: &mut Velocity) -> (finished: KnockedBackFinished)
        requires
            old(self).wf(),
        ensures
            *final(self) == old(self).ticked(),
            *final(velocity) == old(self).velocity(),
            final(self).velocity() == old(self).velocity(),
            final(self).spec_frames_left() == old(self).spec_frames_left() - 1,
            finished == KnockedBackFinished::Yes <==> final(self).spec_frames_left() == 0,
            finished == KnockedBackFinished::No <==> final(self).wf(),
    {
        *velocity = self.velocity;
        self.frames_left -= 1;
        if self.frames_left == 0 {
            KnockedBackFinished::Yes
        } else {
            KnockedBackFinished::No
        }
    }
}

/// A fresh knockback lasts the standard time at the velocity that
/// `knockback_velocity` gives, and each tick takes one frame off a knockback.
pub proof fn lemma_knockback_lifecycle(from: Position, to: Position, knocked_back: KnockedBack)
    ensures
        KnockedBack::spec_from_positions(from, to).wf(),
        KnockedBack::spec_from_positions(from, to).velocity() == knockback_velocity(from, to),
        KnockedBack::spec_from_positions(from, to).spec_frames_left() == KNOCKBACK_FRAMES,
        knocked_back.wf() ==> knocked_back.ticked().spec_frames_left()
            == knocked_back.spec_frames_left() - 1,
        knocked_back.ticked().velocity() == knocked_back.velocity(),
{
}

/// The square of an offset between two coordinates fits in 64 bits.
proof fn lemma_squares_are_bounded(offset: int)
    requires
        -0x1_0000_0000 < offset < 0x1_0000_0000,
    ensures
        0 <= offset * offset <= 0x1_0000_0000_0000_0000,
{
    assert(0 <= offset * offset <= 0x1_0000_0000_0000_0000) by (nonlinear_arith)
        requires
            -0x1_0000_0000 < offset < 0x1_0000_0000,
    ;
}

/// The share that one axis has in a squared speed is at most the whole.
proof fn lemma_share_is_bounded(along_squared: int, across_squared: int, speed_squared: int)
    requires
        0 <= along_squared,
        0 <= across_squared,
        0 < along_squared + across_squared,
        0 <= speed_squared,
    ensures
        0 <= (along_squared * speed_squared) / (along_squared + across_squared) <= speed_squared,
{
    let total = along_squared + across_squared;
    assert(0 <= along_squared * speed_squared <= total * speed_squared) by (nonlinear_arith)
        requires
            0 <= along_squared <= total,
            0 <= speed_squared,
    ;
    vstd::arithmetic::div_mod::lemma_div_is_ordered(
        along_squared * speed_squared,
        total * speed_squared,
        total,
    );
    vstd::arithmetic::div_mod::lemma_div_multiples_vanish(speed_squared, total);
    vstd::arithmetic::mul::lemma_mul_is_commutative(total, speed_squared);
    vstd::arithmetic::div_mod::lemma_div_pos_is_pos(along_squared * speed_squared, total);
}

/// A knockback never moves a character faster than the standard speed, and
/// it moves the character away from where the hit came from.
pub proof fn lemma_knockback_speed_is_bounded(from: Position, to: Position)
    ensures
        ({
            let velocity = knockback_velocity(from, to);
            &&& velocity.x * velocity.x + velocity.y * velocity.y <= KNOCKBACK_SPEED
                * KNOCKBACK_SPEED
            &&& to.x >= from.x ==> velocity.x >= 0
            &&& to.x <= from.x && to != from ==> velocity.x <= 0
            &&& to.y >= from.y ==> velocity.y >= 0
            &&& to.y <= from.y ==> velocity.y <= 0
        }),
{
    if from != to {
        let dx = to.x - from.x;
        let dy = to.y - from.y;
        let s2 = KNOCKBACK_SPEED * KNOCKBACK_SPEED;
        let total = dx * dx + dy * dy;
        lemma_squares_are_bounded(dx);
        lemma_squares_are_bounded(dy);
        assert(total > 0) by (nonlinear_arith)
            requires
                total == dx * dx + dy * dy,
                dx != 0 || dy != 0,
        ;
        let qx = (dx * dx * s2) / total;
        let qy = (dy * dy * s2) / total;
        lemma_share_is_bounded(dx * dx, dy * dy, s2);
        lemma_share_is_bounded(dy * dy, dx * dx, s2);
        assert(dy * dy + dx * dx == total);
        lemma_floor_sqrt_exists(qx);
        lemma_floor_sqrt_exists(qy);
        let rx = floor_sqrt(qx);
        let ry = floor_sqrt(qy);
        // The two shares add up to no more than the whole.
        assert((dx * dx * s2) + (dy * dy * s2) == total * s2) by (nonlinear_arith)
            requires
                total == dx * dx + dy * dy,
        ;
        assert(qx + qy <= s2) by (nonlinear_arith)
            requires
                total > 0,
                qx == (dx * dx * s2) / total,
                qy == (dy * dy * s2) / total,
                (dx * dx * s2) + (dy * dy * s2) == total * s2,
        ;
        assert(rx <= 12_500) by (nonlinear_arith)
            requires
                0 <= rx,
                rx * rx <= qx,
                qx <= 12_500 * 12_500,
        ;
        assert(ry <= 12_500) by (nonlinear_arith)
            requires
                0 <= ry,
                ry * ry <= qy,
                qy <= 12_500 * 12_500,
        ;
        assert(dx == 0 ==> rx == 0) by (nonlinear_arith)
            requires
                0 <= rx,
                rx * rx <= qx,
                qx == (dx * dx * s2) / total,
                total > 0,
        ;
        assert(dy == 0 ==> ry == 0) by (nonlinear_arith)
            requires
                0 <= ry,
                ry * ry <= qy,
                qy == (dy * dy * s2) / total,
                total > 0,
        ;
        let velocity = knockback_velocity(from, to);
        assert(velocity.x == if dx < 0 { -rx } else { rx });
        assert(velocity.y == if dy < 0 { -ry } else { ry });
        assert(velocity.x * velocity.x == rx * rx) by (nonlinear_arith)
            requires
                velocity.x == rx || velocity.x == -rx,
        ;
        assert(velocity.y * velocity.y == ry * ry) by (nonlinear_arith)
            requires
                velocity.y == ry || velocity.y == -ry,
        ;
    }
}

/// Every number that is not negative has a rounded-down square root.
pub proof fn lemma_floor_sqrt_exists(square: int)
    requires
        0 <= square,
    ensures
        is_floor_sqrt(square, floor_sqrt(square)),
    decreases square,
{
    if square == 0 {
        assert(is_floor_sqrt(0, 0));
    } else {
        lemma_floor_sqrt_exists(square - 1);
        let before = floor_sqrt(square - 1);
        if (before + 1) * (before + 1) <= square {
            assert(is_floor_sqrt(square, before + 1)) by (nonlinear_arith)
                requires
                    0 <= before,
                    before * before <= square - 1 < (before + 1) * (before + 1),
                    (before + 1) * (before + 1) <= square,
            ;
        } else {
            assert(is_floor_sqrt(square, before));
        }
    }
}

} // verus!
