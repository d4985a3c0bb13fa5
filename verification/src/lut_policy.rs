//! LUT-aware policy model and candidate family taxonomy.
//!
//! Typed policy concepts for LUT preservation, CPU budgets and candidate
//! families: whether a sequence can keep its palette LUT across frames, how
//! candidate representations group into families, and the difficulty class
//! of a sequence.

use vstd::prelude::*;
use crate::candidate_gen::CandidateRepresentation;
use crate::profiler::SequenceTaxonomy;

verus! {

/// LUT eligibility classification for a sequence.
#[derive(Debug, Clone, Copy, PartialEq, Eq, Structural)]
pub enum LutEligibility {
    /// Sequence can preserve LUT across all frames.
    Preserving,
    /// Sequence must break LUT (palette changes, local palettes, etc.).
    Breaking,
    /// Sequence has mixed LUT eligibility.
    Mixed,
    /// LUT eligibility cannot be determined from available signals.
    Unknown,
    /// Sequence is ineligible for LUT optimization.
    Ineligible,
}

impl LutEligibility {
    /// Human-readable name.
    pub open spec fn name_spec(&self) -> Seq<char> {
        match self {
            LutEligibility::Preserving => "preserving"@,
            LutEligibility::Breaking => "breaking"@,
            LutEligibility::Mixed => "mixed"@,
            LutEligibility::Unknown => "unknown"@,
            LutEligibility::Ineligible => "ineligible"@,
        }
    }

    /// Human-readable name.
    pub fn name(&self) -> (r: &'static str)
        ensures
            r@ == self.name_spec(),
    {
        match self {
            LutEligibility::Preserving => "preserving",
            LutEligibility::Breaking => "breaking",
            LutEligibility::Mixed => "mixed",
            LutEligibility::Unknown => "unknown",
            LutEligibility::Ineligible => "ineligible",
        }
    }
}

/// Candidate family taxonomy for representation strategies.
#[derive(Debug, Clone, Copy, PartialEq, Eq, Structural)]
pub enum CandidateFamily {
    /// Full-frame replacement (always safe, always breaks LUT).
    FullFrame,
    /// Opaque bounding-box patch (LUT-preserving if palette stable).
    OpaqueBbox,
    /// Transparent sparse patch (LUT-breaking, high synthetic transparency risk).
    TransparentSparse,
    /// Minimal/no-op frame (LUT-preserving, zero cost).
    MinimalNoOp,
    /// Palette-preserving strategy (reuse global palette, no quantization).
    PalettePreserving,
    /// Palette-breaking strategy (new quantization, local palettes).
    PaletteBreaking,
}

impl CandidateFamily {
    /// Human-readable name.
    pub open spec fn name_spec(&self) -> Seq<char> {
        match self {
            CandidateFamily::FullFrame => "full-frame"@,
            CandidateFamily::OpaqueBbox => "opaque-bbox"@,
            CandidateFamily::TransparentSparse => "transparent-sparse"@,
            CandidateFamily::MinimalNoOp => "minimal-noop"@,
            CandidateFamily::PalettePreserving => "palette-preserving"@,
            CandidateFamily::PaletteBreaking => "palette-breaking"@,
        }
    }

    /// Human-readable name.
    pub fn name(&self) -> (r: &'static str)
        ensures
            r@ == self.name_spec(),
    {
        match self {
            CandidateFamily::FullFrame => "full-frame",
            CandidateFamily::OpaqueBbox => "opaque-bbox",
            CandidateFamily::TransparentSparse => "transparent-sparse",
            CandidateFamily::MinimalNoOp => "minimal-noop",
            CandidateFamily::PalettePreserving => "palette-preserving",
            CandidateFamily::PaletteBreaking => "palette-breaking",
        }
    }

    /// The family keeps the palette LUT.
    pub open spec fn lut_preserving_spec(&self) -> bool {
        matches!(self, CandidateFamily::OpaqueBbox | CandidateFamily::MinimalNoOp | CandidateFamily::PalettePreserving)
    }

    /// Whether this family is LUT-preserving.
    pub fn is_lut_preserving(&self) -> (r: bool)
        ensures
            r == self.lut_preserving_spec(),
    {
        match self {
            CandidateFamily::OpaqueBbox | CandidateFamily::MinimalNoOp | CandidateFamily::PalettePreserving => true,
            _ => false,
        }
    }

    /// Whether this family is LUT-breaking: exactly the families that do not
    /// preserve the LUT.
    pub fn is_lut_breaking(&self) -> (r: bool)
        ensures
            r == !self.lut_preserving_spec(),
            r == matches!(self, CandidateFamily::FullFrame | CandidateFamily::TransparentSparse | CandidateFamily::PaletteBreaking),
    {
        match self {
            CandidateFamily::FullFrame | CandidateFamily::TransparentSparse | CandidateFamily::PaletteBreaking => true,
            _ => false,
        }
    }
}

/// Quantization cost class for palette operations.
#[derive(Debug, Clone, Copy, PartialEq, Eq, PartialOrd, Ord, Structural)]
pub enum QuantizationCostClass {
    /// No quantization (reuse existing palette).
    Reuse,
    /// Cheap quantization (small frame, few colors).
    Cheap,
    /// Moderate quantization (medium frame, moderate colors).
    Moderate,
    /// Expensive quantization (large frame, many colors, high quality).
    Expensive,
}

/// CPU budget class for sequence difficulty.
#[derive(Debug, Clone, Copy, PartialEq, Eq, PartialOrd, Ord, Structural)]
pub enum CpuBudgetClass {
    /// Easy/LUT-friendly sequences.
    Easy,
    /// Medium sequences.
    Medium,
    /// Hard/fragile sequences.
    Hard,
}

impl CpuBudgetClass {
    /// Human-readable name.
    pub open spec fn name_spec(&self) -> Seq<char> {
        match self {
            CpuBudgetClass::Easy => "easy"@,
            CpuBudgetClass::Medium => "medium"@,
            CpuBudgetClass::Hard => "hard"@,
        }
    }

    /// Human-readable name.
    pub fn name(&self) -> (r: &'static str)
        ensures
            r@ == self.name_spec(),
    {
        match self {
            CpuBudgetClass::Easy => "easy",
            CpuBudgetClass::Medium => "medium",
            CpuBudgetClass::Hard => "hard",
        }
    }
}

/// The family of a candidate representation.
pub open spec fn family_spec(candidate: CandidateRepresentation) -> CandidateFamily {
    match candidate {
        CandidateRepresentation::FullFrame => CandidateFamily::FullFrame,
        CandidateRepresentation::ExactOpaqueBbox { .. } => CandidateFamily::OpaqueBbox,
        CandidateRepresentation::TransparentSparsePatch { .. } => CandidateFamily::TransparentSparse,
        CandidateRepresentation::MinimalNoOp => CandidateFamily::MinimalNoOp,
    }
}

/// Map a candidate representation to its family.
pub fn candidate_to_family(candidate: &CandidateRepresentation) -> (r: CandidateFamily)
    ensures
        r == family_spec(*candidate),
{
    match candidate {
        CandidateRepresentation::FullFrame => CandidateFamily::FullFrame,
        CandidateRepresentation::ExactOpaqueBbox { .. } => CandidateFamily::OpaqueBbox,
        CandidateRepresentation::TransparentSparsePatch { .. } => CandidateFamily::TransparentSparse,
        CandidateRepresentation::MinimalNoOp => CandidateFamily::MinimalNoOp,
    }
}

/// The LUT eligibility of a sequence of taxonomy `t`, given whether its
/// palette stability exceeds 0.7 and 0.6: opaque deltas preserve the LUT
/// when the palette is stable, disposal-heavy sequences are mixed when it
/// is, transparency-heavy and photographic ones break it, mixed ones are mixed.
pub open spec fn lut_eligibility_spec(t: SequenceTaxonomy, stability_above_70: bool, stability_above_60: bool) -> LutEligibility {
    match t {
        SequenceTaxonomy::OpaqueDeltaGlobalPalette => if stability_above_70 {
            LutEligibility::Preserving
        } else {
            LutEligibility::Mixed
        },
        SequenceTaxonomy::TransparencyHeavySparseDelta => LutEligibility::Breaking,
        SequenceTaxonomy::DisposalHeavyBackgroundPrevious => if stability_above_60 {
            LutEligibility::Mixed
        } else {
            LutEligibility::Breaking
        },
        SequenceTaxonomy::Photographic => LutEligibility::Breaking,
        SequenceTaxonomy::Mixed => LutEligibility::Mixed,
    }
}

/// Classify the LUT eligibility of a sequence from its taxonomy and the
/// tests of its palette stability against 0.7 and 0.6.
pub fn classify_lut_eligibility(taxonomy: SequenceTaxonomy, stability_above_70: bool, stability_above_60: bool) -> (r: LutEligibility)
    ensures
        r == lut_eligibility_spec(taxonomy, stability_above_70, stability_above_60),
{
    match taxonomy {
        SequenceTaxonomy::OpaqueDeltaGlobalPalette => {
            if stability_above_70 {
                LutEligibility::Preserving
            } else {
                LutEligibility::Mixed
            }
        },
        SequenceTaxonomy::TransparencyHeavySparseDelta => LutEligibility::Breaking,
        SequenceTaxonomy::DisposalHeavyBackgroundPrevious => {
            if stability_above_60 {
                LutEligibility::Mixed
            } else {
                LutEligibility::Breaking
            }
        },
        SequenceTaxonomy::Photographic => LutEligibility::Breaking,
        SequenceTaxonomy::Mixed => LutEligibility::Mixed,
    }
}

/// Whether a sequence of this eligibility counts as LUT-preserving in the
/// policy signals: preserving or mixed.
pub fn eligibility_keeps_lut(e: LutEligibility) -> (r: bool)
    ensures
        r == (e is Preserving || e is Mixed),
{
    match e {
        LutEligibility::Preserving | LutEligibility::Mixed => true,
        _ => false,
    }
}

/// Every family is either LUT-preserving or LUT-breaking, never both.
pub proof fn lemma_lut_families_partition(f: CandidateFamily)
    ensures
        f.lut_preserving_spec() != matches!(f, CandidateFamily::FullFrame | CandidateFamily::TransparentSparse | CandidateFamily::PaletteBreaking),
{
}

} // verus!
