use vstd::prelude::*;

verus! {

/// Marks a character that the hero fights.
#[derive(PartialEq, Eq, Structural, Copy, Clone, Debug)]
pub struct Enemy;

} // verus!
