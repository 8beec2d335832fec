//! Which sprite stands for an entity at each tick.

pub mod directional_animation;
pub mod simple_animation;

use vstd::prelude::*;

use crate::component::direction::Direction;

verus! {

/// One frame of an animation, with a sprite for each way to face.
#[derive(PartialEq, Eq, Structural, Copy, Clone, Debug)]
pub struct Frame {
    /// Sprite number for the up direction.
    pub up: usize,
    /// Sprite number for the down direction.
    pub down: usize,
    /// Sprite number for the left direction.
    pub left: usize,
    /// Sprite number for the right direction.
    pub right: usize,
    /// Duration of this animation frame, in game frames. If `None`, the
    /// animation stops on this frame.
    pub duration: Option<u32>,
}

/// Where an animation is: at which frame, and for how many ticks already.
#[derive(PartialEq, Eq, Structural, Copy, Clone, Debug)]
pub struct Reel {
    pub frame_number: usize,
    pub frame_progress: u32,
}

/// Whether the duration is one that a frame can have: a frame that is shown
/// at all is shown for at least one tick.
pub open spec fn is_frame_duration(duration: Option<u32>) -> bool {
    duration != Some(0u32)
}

impl Reel {
    /// The start of an animation.
    pub open spec fn start() -> Reel {
        Reel { frame_number: 0, frame_progress: 0 }
    }

    /// Whether the reel is at one of `frame_count` frames, and has not
    /// shown it for longer than the frame lasts.
    pub open spec fn wf(&self, frame_count: int, duration: Option<u32>) -> bool {
        &&& 0 <= self.frame_number < frame_count
        &&& is_frame_duration(duration)
        &&& duration matches Some(ticks) ==> self.frame_progress < ticks
    }

    /// The reel one tick later, when the frame that it is at lasts for
    /// `duration` and the animation has `frame_count` frames: the frame is
    /// shown for one tick more, and when its time is up the next frame
    /// follows, or the first after the last. A frame without a duration
    /// stays.
    pub open spec fn advanced(&self, frame_count: int, duration: Option<u32>) -> Reel {
        match duration {
            Some(ticks) => if self.frame_progress + 1 == ticks {
                Reel {
                    frame_number: ((self.frame_number + 1) % frame_count) as usize,
                    frame_progress: 0,
                }
            } else {
                Reel {
                    frame_number: self.frame_number,
                    frame_progress: (self.frame_progress + 1) as u32,
                }
            },
            None => *self,
        }
    }

    /// Advances the reel by one tick.
    pub fn advance(&mut self, frame_count: usize, duration: Option<u32>)
        requires
            old(self).wf(frame_count as int, duration),
        ensures
            *final(self) == old(self).advanced(frame_count as int, duration),
            final(self).frame_number < frame_count,
            final(self).frame_number == old(self).frame_number || final(self).frame_progress == 0,
    {
        match duration {
            Some(frame_duration) => {
                self.frame_progress += 1;
                if self.frame_progress == frame_duration {
                    self.frame_progress = 0;
                    self.frame_number = (self.frame_number + 1) % frame_count;
                }
            },
            None => {},
        }
    }
}

impl Frame {
    /// The sprite of this frame for the given direction.
    pub open spec fn sprite_for(&self, direction: Direction) -> usize {
        match direction {
            Direction::Up => self.up,
            Direction::Down => self.down,
            Direction::Left => self.left,
            Direction::Right => self.right,
        }
    }

    /// Picks the sprite of this frame for the given direction.
    pub fn sprite_number(&self, direction: Direction) -> (sprite_number: usize)
        ensures
            sprite_number == self.sprite_for(direction),
    {
        match direction {
            Direction::Up => self.up,
            Direction::Down => self.down,
            Direction::Left => self.left,
            Direction::Right => self.right,
        }
    }
}

/// Whether every frame lasts for at least one tick, if it ends at all.
pub open spec fn frames_last(frames: Seq<Frame>) -> bool {
    forall|index: int| 0 <= index < frames.len() ==> is_frame_duration((#[trigger] frames[index]).duration)
}

/// An animation that uses different sprites for the four directions.
#[derive(Debug)]
pub struct Animation {
    frames: Vec<Frame>,
    reel: Reel,
    direction: Direction,
}

impl Animation {
    /// The frames of the animation.
    pub closed spec fn frames(&self) -> Seq<Frame> {
        self.frames@
    }

    /// Where the animation is.
    pub closed spec fn reel(&self) -> Reel {
        self.reel
    }

    /// The way that the animated entity faces.
    pub closed spec fn direction(&self) -> Direction {
        self.direction
    }

    /// The animation has frames that last, and is at one of them.
    pub open spec fn wf(&self) -> bool {
        &&& frames_last(self.frames())
        &&& 0 <= self.reel().frame_number < self.frames().len()
        &&& self.reel().wf(
            self.frames().len() as int,
            self.frames()[self.reel().frame_number as int].duration,
        )
    }

    /// An animation at the start of the given frames, facing up.
    pub fn new(frames: Vec<Frame>) -> (animation: Animation)
        requires
            frames@.len() > 0,
            frames_last(frames@),
        ensures
            animation.wf(),
            animation.frames() == frames@,
            animation.reel() == Reel::start(),
            animation.direction() == Direction::Up,
    {
        Animation { frames, reel: Reel { frame_number: 0, frame_progress: 0 }, direction: Direction::Up }
    }

    /// The number of the sprite with which the entity is rendered now.
    pub fn current_sprite_render(&self) -> (sprite_number: usize)
        requires
            self.wf(),
        ensures
            sprite_number == self.frames()[self.reel().frame_number as int].sprite_for(
                self.direction(),
            ),
    {
        self.frames[self.reel.frame_number].sprite_number(self.direction)
    }

    /// Advances the animation by one game frame.
    pub fn advance(&mut self)
        requires
            old(self).wf(),
        ensures
            final(self).wf(),
            final(self).frames() == old(self).frames(),
            final(self).direction() == old(self).direction(),
            final(self).reel() == old(self).reel().advanced(
                old(self).frames().len() as int,
                old(self).frames()[old(self).reel().frame_number as int].duration,
            ),
    {
        let duration: Option<u32> = self.frames[self.reel.frame_number].duration;
        self.reel.advance(self.frames.len(), duration);
    }

    /// Turns the animation the way that the animated entity faces.
    pub fn set_direction(&mut self, direction: Direction)
        ensures
            final(self).direction() == direction,
            final(self).frames() == old(self).frames(),
            final(self).reel() == old(self).reel(),
    {
        self.direction = direction;
    }
}

/// A frame that lasts for `ticks` ticks is shown for exactly that long: the
/// reel stays at it while fewer ticks have passed, and leaves it for the
/// next frame, or the first after the last, with the tick that completes
/// them.
pub proof fn lemma_frame_is_shown_for_its_duration(reel: Reel, frame_count: usize, ticks: u32)
    requires
        reel.wf(frame_count as int, Some(ticks)),
    ensures
        ({
            let next = reel.advanced(frame_count as int, Some(ticks));
            &&& reel.frame_progress + 1 < ticks ==> next.frame_number == reel.frame_number
                && next.frame_progress == reel.frame_progress + 1
            &&& reel.frame_progress + 1 == ticks ==> next.frame_progress == 0
                && next.frame_number == (if reel.frame_number + 1 == frame_count {
                0int
            } else {
                reel.frame_number + 1
            })
            &&& 0 <= next.frame_number < frame_count
        }),
{
    if reel.frame_number + 1 == frame_count {
        vstd::arithmetic::div_mod::lemma_mod_self_0(frame_count as int);
    } else {
        vstd::arithmetic::div_mod::lemma_small_mod((reel.frame_number + 1) as nat, frame_count as nat);
    }
}

} // verus!
