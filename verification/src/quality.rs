use vstd::prelude::*;

verus! {

/// How good a trade setup is judged to be; `A` is the best.
///
/// The maximum risk is granted to `A`; every tier below divides the risk by
/// `e` once more.
#[derive(Clone, Copy, Debug, PartialEq, Eq, Structural, PartialOrd, Ord, Hash)]
pub enum Quality {
    A,
    B,
    C,
    D,
    E,
}

/// Position of a quality in the tier list, `A` first.
pub open spec fn spec_tier(q: Quality) -> nat {
    match q {
        Quality::A => 0,
        Quality::B => 1,
        Quality::C => 2,
        Quality::D => 3,
        Quality::E => 4,
    }
}

impl Quality {
    /// Number of times the maximum risk is divided by `e` for this quality.
    pub fn tier(&self) -> (t: u32)
        ensures
            t == spec_tier(*self),
    {
        match self {
            Quality::A => 0,
            Quality::B => 1,
            Quality::C => 2,
            Quality::D => 3,
            Quality::E => 4,
        }
    }
}

/// Distinct qualities sit on distinct tiers, so no two of them are granted
/// the same share of the maximum risk.
pub proof fn lemma_tier_injective(a: Quality, b: Quality)
    ensures
        spec_tier(a) == spec_tier(b) <==> a == b,
{
}

} // verus!
