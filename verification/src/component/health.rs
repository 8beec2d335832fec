use vstd::prelude::*;

verus! {

/// A character's hit points.
#[derive(Copy, Clone, Debug)]
pub struct Health {
    current: i32,
    max: i32,
}

/// One step of a character's medical history.
pub enum HealthChange {
    Damage(u32),
    Heal(u32),
}

/// `current` lowered by `amount`, but not below zero.
pub open spec fn damaged(current: int, amount: int) -> int {
    if current - amount < 0 {
        0
    } else {
        current - amount
    }
}

/// `current` raised by `amount`, but not above `max`.
pub open spec fn healed(current: int, max: int, amount: int) -> int {
    if current + amount > max {
        max
    } else {
        current + amount
    }
}

/// The hit points left after the first `count` of `changes` were applied in
/// order to a character with `current` of at most `max` hit points.
pub open spec fn after_changes(current: int, max: int, changes: Seq<HealthChange>, count: nat) -> int
    decreases count,
{
    if count == 0 || count > changes.len() {
        current
    } else {
        let before = after_changes(current, max, changes, (count - 1) as nat);
        match changes[count - 1] {
            HealthChange::Damage(amount) => damaged(before, amount as int),
            HealthChange::Heal(amount) => healed(before, max, amount as int),
        }
    }
}

impl Health {
    /// Current amount of health.
    pub closed spec fn spec_current(&self) -> i32 {
        self.current
    }

    /// Maximum possible health.
    pub closed spec fn spec_max(&self) -> i32 {
        self.max
    }

    /// The current amount lies between zero and the maximum.
    pub open spec fn wf(&self) -> bool {
        0 <= self.spec_current() <= self.spec_max()
    }

    /// Full health of at most `max` points.
    pub closed spec fn full(max: i32) -> Health {
        Health { current: max, max }
    }

    /// This health after `amount` points of damage.
    pub closed spec fn after_damage(&self, amount: u32) -> Health {
        Health { current: damaged(self.current as int, amount as int) as i32, max: self.max }
    }

    /// This health after `amount` points of healing.
    pub closed spec fn after_heal(&self, amount: u32) -> Health {
        Health {
            current: healed(self.current as int, self.max as int, amount as int) as i32,
            max: self.max,
        }
    }

    /// Creates a health attribute with current and maximum set to `max`.
    pub fn new(max: i32) -> (health: Health)
        requires
            0 <= max,
        ensures
            health == Health::full(max),
            health.wf(),
            health.spec_current() == max,
            health.spec_max() == max,
    {
        Health { current: max, max }
    }

    /// Current amount of health.
    #[verifier::when_used_as_spec(spec_current)]
    pub fn current(&self) -> (current: i32)
        ensures
            current == self.spec_current(),
    {
        self.current
    }

    /// Maximum possible health.
    #[verifier::when_used_as_spec(spec_max)]
    pub fn max(&self) -> (max: i32)
        ensures
            max == self.spec_max(),
    {
        self.max
    }

    /// Decreases health by `amount`, to a minimum of 0.
    pub fn damage(&mut self, amount: u32)
        requires
            old(self).wf(),
        ensures
            *final(self) == old(self).after_damage(amount),
            final(self).wf(),
            final(self).spec_max() == old(self).spec_max(),
            final(self).spec_current() == damaged(old(self).spec_current() as int, amount as int),
    {
        let lowered: i64 = self.current as i64 - amount as i64;
        if lowered < 0 {
            self.current = 0;
        } else {
            self.current = lowered as i32;
        }
    }

    /// Increases health by `amount`, up to the maximum.
    pub fn heal(&mut self, amount: u32)
        requires
            old(self).wf(),
        ensures
            *final(self) == old(self).after_heal(amount),
            final(self).wf(),
            final(self).spec_max() == old(self).spec_max(),
            final(self).spec_current() == healed(
                old(self).spec_current() as int,
                old(self).spec_max() as int,
                amount as int,
            ),
    {
        let raised: i64 = self.current as i64 + amount as i64;
        if raised > self.max as i64 {
            self.current = self.max;
        } else {
            self.current = raised as i32;
        }
    }
}

/// Full health is as much as there can be.
pub proof fn lemma_full_health(max: i32)
    requires
        0 <= max,
    ensures
        Health::full(max).wf(),
        Health::full(max).spec_current() == max,
        Health::full(max).spec_max() == max,
{
}

/// Damage and healing change the current amount as `damaged` and `healed`
/// say, and leave the maximum alone.
pub proof fn lemma_health_changes(health: Health, amount: u32)
    requires
        health.wf(),
    ensures
        health.after_damage(amount).wf(),
        health.after_damage(amount).spec_max() == health.spec_max(),
        health.after_damage(amount).spec_current() == damaged(
            health.spec_current() as int,
            amount as int,
        ),
        health.after_heal(amount).wf(),
        health.after_heal(amount).spec_max() == health.spec_max(),
        health.after_heal(amount).spec_current() == healed(
            health.spec_current() as int,
            health.spec_max() as int,
            amount as int,
        ),
{
}

/// However damage and healing alternate, the hit points stay between zero and
/// the maximum after every single step.
pub proof fn lemma_health_stays_in_range(
    current: int,
    max: int,
    changes: Seq<HealthChange>,
    count: nat,
)
    requires
        0 <= current <= max,
    ensures
        0 <= after_changes(current, max, changes, count) <= max,
    decreases count,
{
    if count != 0 && count <= changes.len() {
        lemma_health_stays_in_range(current, max, changes, (count - 1) as nat);
    }
}

/// Healing a character that is at full health changes nothing, and damage of
/// at least the current amount leaves no health at all.
pub proof fn lemma_health_saturates(current: int, max: int, amount: int)
    requires
        0 <= current <= max,
        0 <= amount,
    ensures
        healed(max, max, amount) == max,
        amount >= current ==> damaged(current, amount) == 0,
        amount >= max - current ==> healed(current, max, amount) == max,
{
}

} // verus!
