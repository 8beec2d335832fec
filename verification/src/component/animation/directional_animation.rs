use vstd::prelude::*;

use crate::component::animation::{is_frame_duration, Reel};
use crate::component::direction::Direction;

verus! {

/// One frame of a directional animation, with a sprite for each way to
/// face.
#[derive(PartialEq, Eq, Structural, Copy, Clone, Debug)]
pub struct DirectionalFrame {
    /// Sprite number for the up direction.
    pub up: usize,
    /// Sprite number for the down direction.
    pub down: usize,
    /// Sprite number for the left direction.
    pub left: usize,
    /// Sprite number for the right direction.
    pub right: usize,
    /// Duration of this animation frame, in game frames. If `None`, the
    /// animation stops on this frame.
    pub duration: Option<u32>,
}

impl DirectionalFrame {
    /// The sprite of this frame for the given direction.
    pub open spec fn sprite_for(&self, direction: Direction) -> usize {
        match direction {
            Direction::Up => self.up,
            Direction::Down => self.down,
            Direction::Left => self.left,
            Direction::Right => self.right,
        }
    }

    /// Picks the sprite of this frame for the given direction.
    pub fn sprite_number(&self, direction: Direction) -> (sprite_number: usize)
        ensures
            sprite_number == self.sprite_for(direction),
    {
        match direction {
            Direction::Up => self.up,
            Direction::Down => self.down,
            Direction::Left => self.left,
            Direction::Right => self.right,
        }
    }
}

/// Whether every frame lasts for at least one tick, if it ends at all.
pub open spec fn directional_frames_last(frames: Seq<DirectionalFrame>) -> bool {
    forall|index: int| 0 <= index < frames.len() ==> is_frame_duration((#[trigger] frames[index]).duration)
}

/// An animation that can use different sprites for the four different
/// directions.
#[derive(Debug)]
pub struct DirectionalAnimation {
    frames: Vec<DirectionalFrame>,
    reel: Reel,
    direction: Direction,
}

impl DirectionalAnimation {
    /// The frames of the animation.
    pub closed spec fn frames(&self) -> Seq<DirectionalFrame> {
        self.frames@
    }

    /// Where the animation is.
    pub closed spec fn reel(&self) -> Reel {
        self.reel
    }

    /// The way that the animated entity faces.
    pub closed spec fn direction(&self) -> Direction {
        self.direction
    }

    /// The animation has frames that last, and is at one of them.
    pub open spec fn wf(&self) -> bool {
        &&& directional_frames_last(self.frames())
        &&& 0 <= self.reel().frame_number < self.frames().len()
        &&& self.reel().wf(
            self.frames().len() as int,
            self.frames()[self.reel().frame_number as int].duration,
        )
    }

    /// An animation at the start of the given frames, facing up.
    pub fn new(frames: Vec<DirectionalFrame>) -> (animation: DirectionalAnimation)
        requires
            frames@.len() > 0,
            directional_frames_last(frames@),
        ensures
            animation.wf(),
            animation.frames() == frames@,
            animation.reel() == Reel::start(),
            animation.direction() == Direction::Up,
    {
        DirectionalAnimation {
            frames,
            reel: Reel { frame_number: 0, frame_progress: 0 },
            direction: Direction::Up,
        }
    }

    /// The number of the sprite with which the entity is rendered now.
    pub fn current_sprite_render(&self) -> (sprite_number: usize)
        requires
            self.wf(),
        ensures
            sprite_number == self.frames()[self.reel().frame_number as int].sprite_for(
                self.direction(),
            ),
    {
        self.frames[self.reel.frame_number].sprite_number(self.direction)
    }

    /// Advances the animation by one game frame.
    pub fn advance(&mut self)
        requires
            old(self).wf(),
        ensures
            final(self).wf(),
            final(self).frames() == old(self).frames(),
            final(self).direction() == old(self).direction(),
            final(self).reel() == old(self).reel().advanced(
                old(self).frames().len() as int,
                old(self).frames()[old(self).reel().frame_number as int].duration,
            ),
    {
        let duration: Option<u32> = self.frames[self.reel.frame_number].duration;
        self.reel.advance(self.frames.len(), duration);
    }

    /// Turns the animation the way that the animated entity faces.
    pub fn set_direction(&mut self, direction: Direction)
        ensures
            final(self).direction() == direction,
            final(self).frames() == old(self).frames(),
            final(self).reel() == old(self).reel(),
    {
        self.direction = direction;
    }
}

} // verus!
