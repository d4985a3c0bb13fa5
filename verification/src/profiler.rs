//! Sequence profiling: structural taxonomy and disposal statistics.

use vstd::prelude::*;
use crate::adaptive_ir::{CanonicalFrame, CanonicalSequence};
use crate::spec_util::{count_where, lemma_count_le};
use crate::types::DisposalMethod;

verus! {

/// Structural taxonomy of a sequence.
#[derive(Debug, Clone, Copy, PartialEq, Eq, Structural)]
pub enum SequenceTaxonomy {
    /// Opaque deltas with stable global palette.
    OpaqueDeltaGlobalPalette,
    /// Significant transparency with sparse changes.
    TransparencyHeavySparseDelta,
    /// Disposal-driven animations (background or previous disposal).
    DisposalHeavyBackgroundPrevious,
    /// High color count, dense changes, smooth gradients.
    Photographic,
    /// Mixed or unknown structure.
    Mixed,
}

impl SequenceTaxonomy {
    /// Human-readable name for the taxonomy.
    pub open spec fn name_spec(&self) -> Seq<char> {
        match self {
            SequenceTaxonomy::OpaqueDeltaGlobalPalette => "opaque-delta/global-palette"@,
            SequenceTaxonomy::TransparencyHeavySparseDelta => "transparency-heavy/sparse-delta"@,
            SequenceTaxonomy::DisposalHeavyBackgroundPrevious => "disposal-heavy/background-previous"@,
            SequenceTaxonomy::Photographic => "photographic/noisy"@,
            SequenceTaxonomy::Mixed => "mixed/unknown"@,
        }
    }

    /// Human-readable name for the taxonomy.
    pub fn name(&self) -> (r: &'static str)
        ensures
            r@ == self.name_spec(),
    {
        match self {
            SequenceTaxonomy::OpaqueDeltaGlobalPalette => "opaque-delta/global-palette",
            SequenceTaxonomy::TransparencyHeavySparseDelta => "transparency-heavy/sparse-delta",
            SequenceTaxonomy::DisposalHeavyBackgroundPrevious => "disposal-heavy/background-previous",
            SequenceTaxonomy::Photographic => "photographic/noisy",
            SequenceTaxonomy::Mixed => "mixed/unknown",
        }
    }
}

/// Disposal method distribution.
#[derive(Debug)]
pub struct DisposalDistribution {
    /// Count of frames with keep disposal.
    pub keep_count: usize,
    /// Count of frames with unspecified disposal.
    pub none_count: usize,
    /// Count of frames with background disposal.
    pub background_count: usize,
    /// Count of frames with previous disposal.
    pub previous_count: usize,
    /// Dominant disposal method.
    pub dominant: String,
}

/// Number of the first `n` frames with disposal `d`.
pub open spec fn disposal_count(frames: Seq<CanonicalFrame>, n: int, d: DisposalMethod) -> nat {
    count_where(n, |i: int| frames[i].dispose == d)
}

/// The name of the dominant disposal: the first of keep, unspecified
/// ("None"), background and previous whose count is at least every other.
pub open spec fn dominant_spec(k: int, n: int, b: int, p: int) -> Seq<char> {
    if k >= n && k >= b && k >= p {
        "Keep"@
    } else if n >= k && n >= b && n >= p {
        "None"@
    } else if b >= k && b >= n && b >= p {
        "Background"@
    } else {
        "Previous"@
    }
}

/// Count the disposal methods of a sequence's frames and name the dominant one.
pub fn extract_disposal_distribution(seq: &CanonicalSequence) -> (r: DisposalDistribution)
    ensures
        r.keep_count == disposal_count(seq.frames@, seq.frames@.len() as int, DisposalMethod::Keep),
        r.none_count == disposal_count(seq.frames@, seq.frames@.len() as int, DisposalMethod::Any),
        r.background_count == disposal_count(seq.frames@, seq.frames@.len() as int, DisposalMethod::Background),
        r.previous_count == disposal_count(seq.frames@, seq.frames@.len() as int, DisposalMethod::Previous),
        r.dominant@ == dominant_spec(r.keep_count as int, r.none_count as int, r.background_count as int, r.previous_count as int),
{
    let ghost fs = seq.frames@;
    let mut keep_count: usize = 0;
    let mut none_count: usize = 0;
    let mut background_count: usize = 0;
    let mut previous_count: usize = 0;
    let n = seq.frames.len();
    let mut i: usize = 0;
    while i < n
        invariant
            fs == seq.frames@,
            n == fs.len(),
            i <= n,
            keep_count == disposal_count(fs, i as int, DisposalMethod::Keep),
            none_count == disposal_count(fs, i as int, DisposalMethod::Any),
            background_count == disposal_count(fs, i as int, DisposalMethod::Background),
            previous_count == disposal_count(fs, i as int, DisposalMethod::Previous),
        decreases n - i,
    {
        proof {
            lemma_count_le(i as int, |j: int| fs[j].dispose == DisposalMethod::Keep);
            lemma_count_le(i as int, |j: int| fs[j].dispose == DisposalMethod::Any);
            lemma_count_le(i as int, |j: int| fs[j].dispose == DisposalMethod::Background);
            lemma_count_le(i as int, |j: int| fs[j].dispose == DisposalMethod::Previous);
        }
        match seq.frames[i].dispose {
            DisposalMethod::Keep => {
                keep_count += 1;
            },
            DisposalMethod::Any => {
                none_count += 1;
            },
            DisposalMethod::Background => {
                background_count += 1;
            },
            DisposalMethod::Previous => {
                previous_count += 1;
            },
        }
        i += 1;
    }
    let (k, nn, b, p) = (keep_count, none_count, background_count, previous_count);
    let dominant = if k >= nn && k >= b && k >= p {
        String::from_str("Keep")
    } else if nn >= k && nn >= b && nn >= p {
        String::from_str("None")
    } else if b >= k && b >= nn && b >= p {
        String::from_str("Background")
    } else {
        String::from_str("Previous")
    };
    DisposalDistribution { keep_count, none_count, background_count, previous_count, dominant }
}

/// The outcomes of the ratio tests that the taxonomy rules read.
#[derive(Debug, Clone, Copy)]
pub struct TaxonomyChecks {
    /// At least half of the frames are opaque deltas.
    pub opaque_at_least_half: bool,
    /// Fewer than a third of the frames have transparency (ratio below 0.33).
    pub transparency_below_third: bool,
    /// Palette stability exceeds 0.7.
    pub stability_above_70: bool,
    /// The average bounding-box ratio is below 0.3.
    pub bbox_ratio_below_30: bool,
    /// The average changed-area ratio exceeds 0.5.
    pub changed_above_50: bool,
    /// The average patch density exceeds 0.8.
    pub density_above_80: bool,
    /// Palette stability is below 0.5.
    pub stability_below_50: bool,
}

/// The frame counts that the taxonomy rules read.
#[derive(Debug, Clone, Copy)]
pub struct TaxonomyCounts {
    /// Number of frames.
    pub frame_count: usize,
    /// Frames with background disposal.
    pub background_count: usize,
    /// Frames with previous disposal.
    pub previous_count: usize,
    /// Frames with more than 10% transparent pixels.
    pub significant_transparency_frames: usize,
    /// Frames with a small nonzero change (below 5%).
    pub sparse_change_frames: usize,
    /// Frames with a dense change (above 50%).
    pub dense_change_frames: usize,
}

/// The taxonomy that the rules give, tried in order: any background or
/// previous disposal makes it disposal-heavy; mostly opaque, rarely
/// transparent frames with a stable palette make it opaque-delta; many
/// significantly transparent and sparse frames with small boxes make it
/// transparency-heavy; many dense, high-density changes with an unstable
/// palette make it photographic; anything else is mixed.
pub open spec fn taxonomy_spec(n: TaxonomyCounts, c: TaxonomyChecks) -> SequenceTaxonomy {
    if n.background_count > 0 || n.previous_count > 0 {
        SequenceTaxonomy::DisposalHeavyBackgroundPrevious
    } else if c.opaque_at_least_half && c.transparency_below_third && c.stability_above_70 {
        SequenceTaxonomy::OpaqueDeltaGlobalPalette
    } else if n.significant_transparency_frames > n.frame_count / 3 && n.sparse_change_frames > n.frame_count / 4
        && c.bbox_ratio_below_30 {
        SequenceTaxonomy::TransparencyHeavySparseDelta
    } else if n.dense_change_frames > n.frame_count / 2 && c.changed_above_50 && c.density_above_80
        && c.stability_below_50 {
        SequenceTaxonomy::Photographic
    } else {
        SequenceTaxonomy::Mixed
    }
}

/// Classify a sequence into its taxonomy from its frame counts and ratio tests.
pub fn classify_taxonomy(counts: TaxonomyCounts, checks: TaxonomyChecks) -> (r: SequenceTaxonomy)
    ensures
        r == taxonomy_spec(counts, checks),
{
    if counts.background_count > 0 || counts.previous_count > 0 {
        return SequenceTaxonomy::DisposalHeavyBackgroundPrevious;
    }
    if checks.opaque_at_least_half && checks.transparency_below_third && checks.stability_above_70 {
        return SequenceTaxonomy::OpaqueDeltaGlobalPalette;
    }
    if counts.significant_transparency_frames > counts.frame_count / 3
        && counts.sparse_change_frames > counts.frame_count / 4 && checks.bbox_ratio_below_30 {
        return SequenceTaxonomy::TransparencyHeavySparseDelta;
    }
    if counts.dense_change_frames > counts.frame_count / 2 && checks.changed_above_50 && checks.density_above_80
        && checks.stability_below_50 {
        return SequenceTaxonomy::Photographic;
    }
    SequenceTaxonomy::Mixed
}

/// Number of the first `n` frames whose source patch has a transparent pixel.
pub open spec fn transparent_frame_count(frames: Seq<CanonicalFrame>, n: int) -> nat {
    count_where(n, |i: int| frames[i].source_patch.has_transparency)
}

/// Number of the first `n` frames whose source patch is offset from the canvas origin.
pub open spec fn offset_frame_count(frames: Seq<CanonicalFrame>, n: int) -> nat {
    count_where(n, |i: int| frames[i].source_patch.left > 0 || frames[i].source_patch.top > 0)
}

/// Count the frames whose source patch has transparency, and the frames
/// whose source patch is offset from the origin.
pub fn count_patch_frames(seq: &CanonicalSequence) -> (r: (usize, usize))
    ensures
        r.0 == transparent_frame_count(seq.frames@, seq.frames@.len() as int),
        r.1 == offset_frame_count(seq.frames@, seq.frames@.len() as int),
        r.0 <= seq.frames@.len(),
        r.1 <= seq.frames@.len(),
{
    let ghost fs = seq.frames@;
    let mut transparent: usize = 0;
    let mut offset: usize = 0;
    let n = seq.frames.len();
    let mut i: usize = 0;
    while i < n
        invariant
            fs == seq.frames@,
            n == fs.len(),
            i <= n,
            transparent == transparent_frame_count(fs, i as int),
            offset == offset_frame_count(fs, i as int),
        decreases n - i,
    {
        proof {
            lemma_count_le(i as int, |j: int| fs[j].source_patch.has_transparency);
            lemma_count_le(i as int, |j: int| fs[j].source_patch.left > 0 || fs[j].source_patch.top > 0);
        }
        let patch = &seq.frames[i].source_patch;
        if patch.has_transparency {
            transparent += 1;
        }
        if patch.left > 0 || patch.top > 0 {
            offset += 1;
        }
        i += 1;
    }
    proof {
        lemma_count_le(n as int, |j: int| fs[j].source_patch.has_transparency);
        lemma_count_le(n as int, |j: int| fs[j].source_patch.left > 0 || fs[j].source_patch.top > 0);
    }
    (transparent, offset)
}

} // verus!
