use vstd::prelude::*;

verus! {

/// A character's relationship to the hero. All characters have a faction, so
/// the presence of this attribute tells whether an entity is a character.
#[derive(PartialEq, Eq, Structural, Copy, Clone, Debug)]
pub enum Faction {
    Ally,
    Enemy,
}

} // verus!
