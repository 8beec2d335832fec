use vstd::prelude::*;

use crate::component::animation::{is_frame_duration, Reel};

verus! {

/// One frame of a basic animation.
#[derive(PartialEq, Eq, Structural, Copy, Clone, Debug)]
pub struct SimpleFrame {
    pub sprite_number: usize,
    /// Duration of this animation frame, in game frames. If `None`, the
    /// animation stops on this frame.
    pub duration: Option<u32>,
}

/// Whether every frame lasts for at least one tick, if it ends at all.
pub open spec fn simple_frames_last(frames: Seq<SimpleFrame>) -> bool {
    forall|index: int| 0 <= index < frames.len() ==> is_frame_duration((#[trigger] frames[index]).duration)
}

/// A basic animation. See also `DirectionalAnimation`.
#[derive(Debug)]
pub struct SimpleAnimation {
    frames: Vec<SimpleFrame>,
    reel: Reel,
}

impl SimpleAnimation {
    /// The frames of the animation.
    pub closed spec fn frames(&self) -> Seq<SimpleFrame> {
        self.frames@
    }

    /// Where the animation is.
    pub closed spec fn reel(&self) -> Reel {
        self.reel
    }

    /// The animation has frames that last, and is at one of them.
    pub open spec fn wf(&self) -> bool {
        &&& simple_frames_last(self.frames())
        &&& 0 <= self.reel().frame_number < self.frames().len()
        &&& self.reel().wf(
            self.frames().len() as int,
            self.frames()[self.reel().frame_number as int].duration,
        )
    }

    /// An animation at the start of the given frames.
    pub fn new(frames: Vec<SimpleFrame>) -> (animation: SimpleAnimation)
        requires
            frames@.len() > 0,
            simple_frames_last(frames@),
        ensures
            animation.wf(),
            animation.frames() == frames@,
            animation.reel() == Reel::start(),
    {
        SimpleAnimation { frames, reel: Reel { frame_number: 0, frame_progress: 0 } }
    }

    /// The number of the sprite with which the entity is rendered now.
    pub fn current_sprite_render(&self) -> (sprite_number: usize)
        requires
            self.wf(),
        ensures
            sprite_number == self.frames()[self.reel().frame_number as int].sprite_number,
    {
        self.frames[self.reel.frame_number].sprite_number
    }

    /// Advances the animation by one game frame.
    pub fn advance(&mut self)
        requires
            old(self).wf(),
        ensures
            final(self).wf(),
            final(self).frames() == old(self).frames(),
            final(self).reel() == old(self).reel().advanced(
                old(self).frames().len() as int,
                old(self).frames()[old(self).reel().frame_number as int].duration,
            ),
    {
        let duration: Option<u32> = self.frames[self.reel.frame_number].duration;
        self.reel.advance(self.frames.len(), duration);
    }
}

} // verus!
