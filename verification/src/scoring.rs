//! Decision reasons of the candidate chooser.

use vstd::prelude::*;

verus! {

/// Why a candidate was chosen for a frame.
#[derive(Debug, Clone, Copy, PartialEq, Eq, Structural)]
pub enum DecisionReason {
    /// The candidate had the lowest score.
    LowestScore,
    /// The sequence taxonomy prefers the candidate.
    TaxonomyPreferred,
    /// A safety constraint forced the candidate.
    SafetyConstraint,
    /// The candidate aligns with the palette strategy.
    PaletteStrategyAlignment,
    /// A tie was broken in the candidate's favour.
    TieBreaker,
    /// The fallback candidate.
    Fallback,
}

} // verus!
