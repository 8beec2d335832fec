use vstd::prelude::*;

use crate::constants::{MAX_ARROW_DELAY, MIN_ARROW_DELAY};
use crate::random::random_in_range;

verus! {

/// Behavior that causes an enemy to shoot arrows at random intervals.
#[derive(PartialEq, Eq, Structural, Copy, Clone, Debug)]
pub struct ShootArrows {
    delay: u32,
}

/// Tells whether an archer lets an arrow fly this tick.
#[derive(PartialEq, Eq, Structural, Copy, Clone, Debug)]
pub enum ShouldShootArrow {
    Yes,
    No,
}

/// Whether `delay` is a time that an archer may wait between two arrows.
pub open spec fn is_arrow_delay(delay: u32) -> bool {
    MIN_ARROW_DELAY <= delay < MAX_ARROW_DELAY
}

impl ShootArrows {
    /// The number of ticks to wait before the next arrow.
    pub closed spec fn spec_delay(&self) -> u32 {
        self.delay
    }

    /// The archer that waits `delay` ticks before its next arrow.
    pub closed spec fn waiting(delay: u32) -> ShootArrows {
        ShootArrows { delay }
    }

    /// An archer that waits `delay` ticks before its first arrow.
    pub fn with_delay(delay: u32) -> (behavior: ShootArrows)
        ensures
            behavior == ShootArrows::waiting(delay),
            behavior.spec_delay() == delay,
    {
        ShootArrows { delay }
    }

    /// An archer that waits a random time before its first arrow.
    pub fn new() -> (behavior: ShootArrows)
        ensures
            is_arrow_delay(behavior.spec_delay()),
    {
        ShootArrows::with_delay(random_in_range(MIN_ARROW_DELAY, MAX_ARROW_DELAY))
    }

    /// The number of ticks to wait before the next arrow.
    #[verifier::when_used_as_spec(spec_delay)]
    pub fn delay(&self) -> (delay: u32)
        ensures
            delay == self.spec_delay(),
    {
        self.delay
    }

    /// Counts one tick down. When the wait is over, an arrow is due and the
    /// archer starts to wait `next_delay` ticks for the one after.
    pub fn update_with(&mut self, next_delay: u32) -> (shoot: ShouldShootArrow)
        ensures
            shoot == (if old(self).spec_delay() == 0 {
                ShouldShootArrow::Yes
            } else {
                ShouldShootArrow::No
            }),
            final(self).spec_delay() == (if old(self).spec_delay() == 0 {
                next_delay as int
            } else {
                old(self).spec_delay() - 1
            }),
    {
        if self.delay == 0 {
            self.delay = next_delay;
            ShouldShootArrow::Yes
        } else {
            self.delay -= 1;
            ShouldShootArrow::No
        }
    }

    /// Counts one tick down. When the wait is over, an arrow is due and the
    /// archer starts to wait a random time for the one after.
    pub fn update(&mut self) -> (shoot: ShouldShootArrow)
        ensures
            shoot == (if old(self).spec_delay() == 0 {
                ShouldShootArrow::Yes
            } else {
                ShouldShootArrow::No
            }),
            old(self).spec_delay() == 0 ==> is_arrow_delay(final(self).spec_delay()),
            old(self).spec_delay() != 0 ==> final(self).spec_delay() == old(self).spec_delay() - 1,
    {
        if self.delay == 0 {
            self.update_with(random_in_range(MIN_ARROW_DELAY, MAX_ARROW_DELAY))
        } else {
            self.update_with(0)
        }
    }
}

/// An archer is told apart by its delay alone.
pub proof fn lemma_archer_is_its_delay(behavior: ShootArrows, delay: u32)
    ensures
        ShootArrows::waiting(delay).spec_delay() == delay,
        behavior == ShootArrows::waiting(behavior.spec_delay()),
{
}

} // verus!
