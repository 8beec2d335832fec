use vstd::prelude::*;

use crate::component::thrust_attack::ThrustAttack;

verus! {

/// The attack of a sword that is held out in front of its bearer: a thrust.
pub type SwordAttack = ThrustAttack;

} // verus!
