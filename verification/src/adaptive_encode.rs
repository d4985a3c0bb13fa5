//! Adaptive encoding configuration and the names used in its telemetry.

use vstd::prelude::*;
use crate::candidate_gen::CandidateRepresentation;
use crate::palette_strategy::PaletteStrategy;
use crate::scoring::DecisionReason;
use crate::types::Gif;

verus! {

/// Configuration for adaptive encoding.
#[derive(Debug, Clone, Copy)]
pub struct AdaptiveConfig {
    /// Enable adaptive encoding mode.
    pub enabled: bool,
    /// Emit telemetry to stderr (if enabled).
    pub emit_telemetry: bool,
}

impl Default for AdaptiveConfig {
    /// Adaptive encoding off, no telemetry.
    fn default() -> (r: Self)
        ensures
            !r.enabled,
            !r.emit_telemetry,
    {
        AdaptiveConfig { enabled: false, emit_telemetry: false }
    }
}

/// Telemetry name of a candidate representation.
pub open spec fn repr_name_spec(repr: CandidateRepresentation) -> Seq<char> {
    match repr {
        CandidateRepresentation::FullFrame => "full-frame"@,
        CandidateRepresentation::ExactOpaqueBbox { .. } => "opaque-bbox"@,
        CandidateRepresentation::TransparentSparsePatch { .. } => "sparse-patch"@,
        CandidateRepresentation::MinimalNoOp => "minimal-noop"@,
    }
}

/// Telemetry name of a decision reason.
pub open spec fn reason_name_spec(reason: DecisionReason) -> Seq<char> {
    match reason {
        DecisionReason::LowestScore => "lowest-score"@,
        DecisionReason::TaxonomyPreferred => "taxonomy-preferred"@,
        DecisionReason::SafetyConstraint => "safety-constraint"@,
        DecisionReason::PaletteStrategyAlignment => "palette-strategy-alignment"@,
        DecisionReason::TieBreaker => "tie-breaker"@,
        DecisionReason::Fallback => "fallback"@,
    }
}

impl Gif {
    /// Telemetry name of a candidate representation.
    pub fn repr_name(repr: &CandidateRepresentation) -> (r: &'static str)
        ensures
            r@ == repr_name_spec(*repr),
    {
        match repr {
            CandidateRepresentation::FullFrame => "full-frame",
            CandidateRepresentation::ExactOpaqueBbox { .. } => "opaque-bbox",
            CandidateRepresentation::TransparentSparsePatch { .. } => "sparse-patch",
            CandidateRepresentation::MinimalNoOp => "minimal-noop",
        }
    }

    /// Telemetry name of a palette strategy.
    pub fn strategy_name(strategy: &PaletteStrategy) -> (r: &'static str)
        ensures
            r@ == strategy.name_spec(),
    {
        strategy.name()
    }

    /// Telemetry name of a decision reason.
    pub fn reason_name(reason: &DecisionReason) -> (r: &'static str)
        ensures
            r@ == reason_name_spec(*reason),
    {
        match reason {
            DecisionReason::LowestScore => "lowest-score",
            DecisionReason::TaxonomyPreferred => "taxonomy-preferred",
            DecisionReason::SafetyConstraint => "safety-constraint",
            DecisionReason::PaletteStrategyAlignment => "palette-strategy-alignment",
            DecisionReason::TieBreaker => "tie-breaker",
            DecisionReason::Fallback => "fallback",
        }
    }
}

} // verus!
