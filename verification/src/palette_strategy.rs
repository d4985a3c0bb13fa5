//! Palette strategies: how a sequence's frames get their palettes.

use vstd::prelude::*;
use crate::profiler::SequenceTaxonomy;

verus! {

/// Palette strategy for a sequence or frame.
#[derive(Debug, Clone, Copy, PartialEq, Eq, Structural)]
pub enum PaletteStrategy {
    /// Reuse the source GIF's global palette if present and stable.
    ReuseGlobalPreferred,
    /// Derive a new global palette from the entire sequence.
    DeriveSequenceGlobalPreferred,
    /// Use local palettes per frame (highest flexibility, highest cost).
    LocalPaletteFallback,
}

impl PaletteStrategy {
    /// Human-readable name for the strategy.
    pub open spec fn name_spec(&self) -> Seq<char> {
        match self {
            PaletteStrategy::ReuseGlobalPreferred => "reuse-global-preferred"@,
            PaletteStrategy::DeriveSequenceGlobalPreferred => "derive-sequence-global-preferred"@,
            PaletteStrategy::LocalPaletteFallback => "local-palette-fallback"@,
        }
    }

    /// Human-readable name for the strategy.
    pub fn name(&self) -> (r: &'static str)
        ensures
            r@ == self.name_spec(),
    {
        match self {
            PaletteStrategy::ReuseGlobalPreferred => "reuse-global-preferred",
            PaletteStrategy::DeriveSequenceGlobalPreferred => "derive-sequence-global-preferred",
            PaletteStrategy::LocalPaletteFallback => "local-palette-fallback",
        }
    }
}

/// Reason code for palette strategy selection.
#[derive(Debug, Clone, Copy, PartialEq, Eq, Structural)]
pub enum StrategyReason {
    /// Source has stable global palette; reuse is safe and efficient.
    SourceGlobalStable,
    /// Source lacks global palette; derive from sequence.
    SourceNoGlobal,
    /// Source global palette is unstable; derive new one.
    SourceGlobalUnstable,
    /// Transparency pressure requires local palette flexibility.
    TransparencyPressure,
    /// Color pressure (high unique colors) requires local palettes.
    ColorPressure,
    /// Mixed/unknown structure; allow local fallback.
    MixedStructure,
    /// Disposal-heavy sequence; conservative about churn.
    DisposalHeavy,
}

/// The outcomes of the threshold tests that the strategy rules read: palette
/// stability, transparency pressure and colour pressure, each a ratio in
/// `[0, 1]`, compared (strictly greater) with the named fraction.
#[derive(Debug, Clone, Copy)]
pub struct PressureChecks {
    /// Palette stability exceeds 0.7.
    pub stability_above_70: bool,
    /// Palette stability exceeds 0.6.
    pub stability_above_60: bool,
    /// Palette stability exceeds 0.5.
    pub stability_above_50: bool,
    /// Transparency pressure exceeds 0.6.
    pub transparency_above_60: bool,
    /// Transparency pressure exceeds 0.5.
    pub transparency_above_50: bool,
    /// Colour pressure exceeds 0.7.
    pub color_above_70: bool,
    /// Colour pressure exceeds 0.6.
    pub color_above_60: bool,
}

/// Preferred and allowed palette strategies for a sequence.
#[derive(Debug)]
pub struct PaletteStrategySet {
    /// Preferred strategies in priority order.
    pub preferred: Vec<PaletteStrategy>,
    /// Allowed fallback strategies.
    pub allowed: Vec<PaletteStrategy>,
}

impl PaletteStrategySet {
    /// The highest-priority preferred strategy.
    pub fn primary(&self) -> (r: Option<PaletteStrategy>)
        ensures
            r == (if self.preferred@.len() > 0 { Some(self.preferred@[0]) } else { None::<PaletteStrategy> }),
    {
        if self.preferred.len() > 0 {
            Some(self.preferred[0])
        } else {
            None
        }
    }

    /// Whether a strategy is preferred or allowed.
    pub fn is_allowed(&self, strategy: PaletteStrategy) -> (r: bool)
        ensures
            r == (self.preferred@.contains(strategy) || self.allowed@.contains(strategy)),
    {
        contains_strategy(&self.preferred, strategy) || contains_strategy(&self.allowed, strategy)
    }
}

/// Whether `v` holds `s`.
fn contains_strategy(v: &Vec<PaletteStrategy>, s: PaletteStrategy) -> (r: bool)
    ensures
        r == v@.contains(s),
{
    let mut i: usize = 0;
    while i < v.len()
        invariant
            i <= v.len(),
            forall|j: int| 0 <= j < i ==> v@[j] != s,
        decreases v.len() - i,
    {
        if v[i] == s {
            return true;
        }
        i += 1;
    }
    false
}

/// The strategy that the rules prefer for a sequence of taxonomy `t`, with or
/// without a source global palette, given the pressure tests.
pub open spec fn preferred_spec(t: SequenceTaxonomy, has_global: bool, c: PressureChecks) -> PaletteStrategy {
    match t {
        SequenceTaxonomy::OpaqueDeltaGlobalPalette => if has_global && c.stability_above_70 {
            PaletteStrategy::ReuseGlobalPreferred
        } else {
            PaletteStrategy::DeriveSequenceGlobalPreferred
        },
        SequenceTaxonomy::TransparencyHeavySparseDelta => if c.transparency_above_60 {
            PaletteStrategy::LocalPaletteFallback
        } else if has_global && c.stability_above_60 {
            PaletteStrategy::ReuseGlobalPreferred
        } else {
            PaletteStrategy::DeriveSequenceGlobalPreferred
        },
        SequenceTaxonomy::DisposalHeavyBackgroundPrevious => if has_global && c.stability_above_60 {
            PaletteStrategy::ReuseGlobalPreferred
        } else {
            PaletteStrategy::DeriveSequenceGlobalPreferred
        },
        SequenceTaxonomy::Photographic => if c.color_above_70 {
            PaletteStrategy::LocalPaletteFallback
        } else if has_global && c.stability_above_50 {
            PaletteStrategy::ReuseGlobalPreferred
        } else {
            PaletteStrategy::DeriveSequenceGlobalPreferred
        },
        SequenceTaxonomy::Mixed => if c.transparency_above_50 || c.color_above_60 {
            PaletteStrategy::LocalPaletteFallback
        } else if has_global && c.stability_above_50 {
            PaletteStrategy::ReuseGlobalPreferred
        } else {
            PaletteStrategy::DeriveSequenceGlobalPreferred
        },
    }
}

/// The reason codes recorded for the preferred strategy.
pub open spec fn reasons_spec(t: SequenceTaxonomy, has_global: bool, c: PressureChecks) -> Seq<StrategyReason> {
    match t {
        SequenceTaxonomy::OpaqueDeltaGlobalPalette => if has_global && c.stability_above_70 {
            seq![StrategyReason::SourceGlobalStable]
        } else {
            seq![StrategyReason::SourceNoGlobal]
        },
        SequenceTaxonomy::TransparencyHeavySparseDelta => if c.transparency_above_60 {
            seq![StrategyReason::TransparencyPressure]
        } else if has_global && c.stability_above_60 {
            seq![StrategyReason::SourceGlobalStable]
        } else {
            seq![StrategyReason::SourceGlobalUnstable]
        },
        SequenceTaxonomy::DisposalHeavyBackgroundPrevious => if has_global && c.stability_above_60 {
            seq![StrategyReason::SourceGlobalStable, StrategyReason::DisposalHeavy]
        } else {
            seq![StrategyReason::SourceGlobalUnstable, StrategyReason::DisposalHeavy]
        },
        SequenceTaxonomy::Photographic => if c.color_above_70 {
            seq![StrategyReason::ColorPressure]
        } else if has_global && c.stability_above_50 {
            seq![StrategyReason::SourceGlobalStable]
        } else {
            seq![StrategyReason::SourceGlobalUnstable]
        },
        SequenceTaxonomy::Mixed => seq![StrategyReason::MixedStructure],
    }
}

/// The allowed strategies: local palettes as the last resort, then the
/// preferred strategy where it is not already there.
pub open spec fn allowed_spec(preferred: PaletteStrategy) -> Seq<PaletteStrategy> {
    if preferred == PaletteStrategy::LocalPaletteFallback {
        seq![PaletteStrategy::LocalPaletteFallback]
    } else {
        seq![PaletteStrategy::LocalPaletteFallback, preferred]
    }
}

/// Choose the preferred and allowed palette strategies of a sequence from its
/// taxonomy, whether the source has a global palette, and the pressure tests.
/// Sequences of opaque deltas lean to a global palette, transparency-heavy
/// and mixed ones may fall back to local palettes, disposal-heavy ones stay
/// conservative. Every preferred strategy is also allowed, and one always is.
pub fn choose_palette_strategies(
    taxonomy: SequenceTaxonomy,
    has_global_palette: bool,
    checks: PressureChecks,
) -> (r: (PaletteStrategySet, Vec<StrategyReason>))
    ensures
        r.0.preferred@ == seq![preferred_spec(taxonomy, has_global_palette, checks)],
        r.0.allowed@ == allowed_spec(preferred_spec(taxonomy, has_global_palette, checks)),
        r.1@ == reasons_spec(taxonomy, has_global_palette, checks),
        r.0.preferred@.len() >= 1,
        forall|i: int| 0 <= i < r.0.preferred@.len() ==> r.0.allowed@.contains(#[trigger] r.0.preferred@[i]),
{
    let mut preferred: Vec<PaletteStrategy> = Vec::new();
    let mut allowed: Vec<PaletteStrategy> = Vec::new();
    let mut reason_codes: Vec<StrategyReason> = Vec::new();
    let g = has_global_palette;
    match taxonomy {
        SequenceTaxonomy::OpaqueDeltaGlobalPalette => {
            if g && checks.stability_above_70 {
                preferred.push(PaletteStrategy::ReuseGlobalPreferred);
                reason_codes.push(StrategyReason::SourceGlobalStable);
            } else {
                preferred.push(PaletteStrategy::DeriveSequenceGlobalPreferred);
                reason_codes.push(StrategyReason::SourceNoGlobal);
            }
        },
        SequenceTaxonomy::TransparencyHeavySparseDelta => {
            if checks.transparency_above_60 {
                preferred.push(PaletteStrategy::LocalPaletteFallback);
                reason_codes.push(StrategyReason::TransparencyPressure);
            } else if g && checks.stability_above_60 {
                preferred.push(PaletteStrategy::ReuseGlobalPreferred);
                reason_codes.push(StrategyReason::SourceGlobalStable);
            } else {
                preferred.push(PaletteStrategy::DeriveSequenceGlobalPreferred);
                reason_codes.push(StrategyReason::SourceGlobalUnstable);
            }
        },
        SequenceTaxonomy::DisposalHeavyBackgroundPrevious => {
            if g && checks.stability_above_60 {
                preferred.push(PaletteStrategy::ReuseGlobalPreferred);
                reason_codes.push(StrategyReason::SourceGlobalStable);
            } else {
                preferred.push(PaletteStrategy::DeriveSequenceGlobalPreferred);
                reason_codes.push(StrategyReason::SourceGlobalUnstable);
            }
            reason_codes.push(StrategyReason::DisposalHeavy);
        },
        SequenceTaxonomy::Photographic => {
            if checks.color_above_70 {
                preferred.push(PaletteStrategy::LocalPaletteFallback);
                reason_codes.push(StrategyReason::ColorPressure);
            } else if g && checks.stability_above_50 {
                preferred.push(PaletteStrategy::ReuseGlobalPreferred);
                reason_codes.push(StrategyReason::SourceGlobalStable);
            } else {
                preferred.push(PaletteStrategy::DeriveSequenceGlobalPreferred);
                reason_codes.push(StrategyReason::SourceGlobalUnstable);
            }
        },
        SequenceTaxonomy::Mixed => {
            reason_codes.push(StrategyReason::MixedStructure);
            if checks.transparency_above_50 || checks.color_above_60 {
                preferred.push(PaletteStrategy::LocalPaletteFallback);
            } else if g && checks.stability_above_50 {
                preferred.push(PaletteStrategy::ReuseGlobalPreferred);
            } else {
                preferred.push(PaletteStrategy::DeriveSequenceGlobalPreferred);
            }
        },
    }
    // Local palettes stay allowed as the last resort in every case.
    allowed.push(PaletteStrategy::LocalPaletteFallback);
    // Every preferred strategy is allowed too.
    let p = preferred[0];
    if !contains_strategy(&allowed, p) {
        allowed.push(p);
    }
    proof {
        assert(preferred@ == seq![preferred_spec(taxonomy, g, checks)]);
        assert(allowed@ =~= allowed_spec(p));
        assert(reason_codes@ =~= reasons_spec(taxonomy, g, checks));
        assert(allowed@.contains(preferred@[0])) by {
            if p == PaletteStrategy::LocalPaletteFallback {
                assert(allowed@[0] == p);
            } else {
                assert(allowed@[1] == p);
            }
        }
    }
    (PaletteStrategySet { preferred, allowed }, reason_codes)
}

} // verus!
