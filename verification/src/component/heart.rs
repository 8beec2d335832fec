use vstd::prelude::*;

verus! {

/// A health pickup.
#[derive(PartialEq, Eq, Structural, Copy, Clone, Debug)]
pub struct Heart;

} // verus!
