use vstd::prelude::*;

use crate::constants::{INVULNERABLE_BLINK_PERIOD, INVULNERABLE_FRAMES};

verus! {

/// Makes a character immune to damage for a number of frames.
#[derive(PartialEq, Eq, Structural, Copy, Clone, Debug)]
pub struct Invulnerable {
    frames_left: u32,
}

/// Tells whether an invulnerability has worn off.
#[derive(PartialEq, Eq, Structural, Copy, Clone, Debug)]
pub enum InvulnerableFinished {
    /// The invulnerability has worn off.
    Yes,
    /// The invulnerability has not yet worn off.
    No,
}

/// Whether a character with `frames_left` frames of invulnerability left is
/// drawn dimmed: the blinking alternates every `INVULNERABLE_BLINK_PERIOD`
/// frames and ends undimmed.
pub open spec fn blink_is_dim(frames_left: u32) -> bool {
    (frames_left / INVULNERABLE_BLINK_PERIOD) % 2 != 0
}

impl Invulnerable {
    /// The number of ticks for which the invulnerability still lasts.
    pub closed spec fn spec_frames_left(&self) -> u32 {
        self.frames_left
    }

    /// An invulnerability is removed as soon as it has no frames left.
    pub open spec fn wf(&self) -> bool {
        self.spec_frames_left() > 0
    }

    /// Whether the character is to be drawn dimmed at this point of the
    /// blinking.
    pub open spec fn spec_is_dimmed(&self) -> bool {
        blink_is_dim(self.spec_frames_left())
    }

    /// A fresh invulnerability, which lasts the standard time.
    pub closed spec fn fresh() -> Invulnerable {
        Invulnerable { frames_left: INVULNERABLE_FRAMES }
    }

    /// This invulnerability one tick later.
    pub closed spec fn ticked(&self) -> Invulnerable {
        Invulnerable { frames_left: (self.frames_left - 1) as u32 }
    }

    /// A fresh invulnerability, which lasts the standard time.
    pub fn new() -> (invulnerable: Invulnerable)
        ensures
            invulnerable == Invulnerable::fresh(),
            invulnerable.wf(),
            invulnerable.spec_frames_left() == INVULNERABLE_FRAMES,
    {
        Invulnerable { frames_left: INVULNERABLE_FRAMES }
    }

    /// The number of ticks for which the invulnerability still lasts.
    #[verifier::when_used_as_spec(spec_frames_left)]
    pub fn frames_left(&self) -> (frames_left: u32)
        ensures
            frames_left == self.spec_frames_left(),
    {
        self.frames_left
    }

    /// Whether the character is to be drawn dimmed at this point of the
    /// blinking.
    #[verifier::when_used_as_spec(spec_is_dimmed)]
    pub fn is_dimmed(&self) -> (dimmed: bool)
        ensures
            dimmed == self.spec_is_dimmed(),
    {
        (self.frames_left / INVULNERABLE_BLINK_PERIOD) % 2 != 0
    }

    /// Updates time left and returns whether the invulnerable effect has worn
    /// off. The blinking that goes with it is read off `is_dimmed`.
    #[must_use]
    pub fn update(&mut self) -> (finished: InvulnerableFinished)
        requires
            old(self).wf(),
        ensures
            *final(self) == old(self).ticked(),
            final(self).spec_frames_left() == old(self).spec_frames_left() - 1,
            finished == InvulnerableFinished::Yes <==> final(self).spec_frames_left() == 0,
            finished == InvulnerableFinished::No <==> final(self).wf(),
            finished == InvulnerableFinished::Yes ==> !final(self).spec_is_dimmed(),
    {
        self.frames_left -= 1;
        if self.frames_left == 0 {
            InvulnerableFinished::Yes
        } else {
            InvulnerableFinished::No
        }
    }
}

/// A fresh invulnerability lasts the standard time, and each tick takes one
/// frame off an invulnerability.
pub proof fn lemma_invulnerable_lifecycle(invulnerable: Invulnerable)
    ensures
        Invulnerable::fresh().wf(),
        Invulnerable::fresh().spec_frames_left() == INVULNERABLE_FRAMES,
        invulnerable.wf() ==> invulnerable.ticked().spec_frames_left()
            == invulnerable.spec_frames_left() - 1,
{
}

} // verus!
