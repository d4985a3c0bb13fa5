//! First-pass candidate frame representation generator.
//!
//! Generates GIF-native candidate representations from the canonical
//! sequence IR. Each candidate carries metadata for later scoring/selection.
//!
//! - **Full Frame**: complete canvas replacement (always generated).
//! - **Exact Opaque Bbox Patch**: opaque pixels within a tight bounding box.
//! - **Transparent Sparse Patch**: the changed region of a transparent source.
//! - **Minimal/No-op Frame**: only when no pixel changed.

use vstd::prelude::*;
use crate::adaptive_ir::{BoundingBox, CanonicalFrame, CanonicalSequence, SourcePatch};
use crate::spec_util::{BoxAcc, tight_box, lemma_grid_index, lemma_tight_box_unique};
use crate::types::DisposalMethod;

verus! {

/// Candidate representation type.
#[derive(Debug, Clone, Copy, PartialEq, Eq, Structural)]
pub enum CandidateRepresentation {
    /// Full canvas replacement.
    FullFrame,
    /// Opaque pixels within a bounding box.
    ExactOpaqueBbox {
        /// Bounding box of opaque pixels.
        bbox: BoundingBox,
    },
    /// Sparse transparent pixels (may be risky).
    TransparentSparsePatch {
        /// Bounding box of the sparse region.
        bbox: BoundingBox,
        /// Whether this candidate is marked as risky.
        is_risky: bool,
    },
    /// Minimal/no-op frame (only when safe).
    MinimalNoOp,
}

/// Safety classification for a candidate.
#[derive(Debug, Clone, Copy, PartialEq, Eq, Structural)]
pub enum SafetyReason {
    /// Always safe (full frame or opaque bbox).
    AlwaysSafe,
    /// Safe given disposal semantics.
    SafeWithDisposal,
    /// Risky: transparent sparse patch with uncertain semantics.
    RiskyTransparent,
    /// Risky: minimal frame with background disposal.
    RiskyMinimalBackground,
}

/// Metadata for candidate scoring.
#[derive(Debug, Clone, Copy, PartialEq, Eq, Structural)]
pub struct CandidateMetadata {
    /// Bounding box of changed region (from canonical IR).
    pub changed_bbox: BoundingBox,
    /// Count of changed pixels.
    pub changed_pixel_count: usize,
    /// Total canvas pixels; the changed ratio is `changed_pixel_count / canvas_pixel_count`.
    pub canvas_pixel_count: usize,
    /// Whether source was full-canvas.
    pub source_is_full_canvas: bool,
    /// Whether source has transparency.
    pub source_has_transparency: bool,
    /// Count of transparent pixels in source.
    pub source_transparent_count: usize,
    /// Count of opaque pixels in source.
    pub source_opaque_count: usize,
    /// Disposal method of this frame.
    pub disposal_method: DisposalMethod,
    /// Safety reason/flag for this candidate.
    pub safety_reason: SafetyReason,
}

/// A candidate frame representation with metadata for scoring.
#[derive(Debug, Clone, Copy, PartialEq, Eq, Structural)]
pub struct Candidate {
    /// Frame index in the sequence.
    pub frame_index: usize,
    /// The representation type.
    pub representation: CandidateRepresentation,
    /// Metadata for scoring.
    pub metadata: CandidateMetadata,
}

/// Generator for candidate representations.
pub struct CandidateGenerator;

/// The safety classification of a representation of a frame.
pub open spec fn safety_spec(frame: CanonicalFrame, rep: CandidateRepresentation) -> SafetyReason {
    match rep {
        CandidateRepresentation::FullFrame => SafetyReason::AlwaysSafe,
        CandidateRepresentation::ExactOpaqueBbox { .. } => SafetyReason::AlwaysSafe,
        CandidateRepresentation::TransparentSparsePatch { is_risky, .. } => if is_risky {
            SafetyReason::RiskyTransparent
        } else {
            SafetyReason::SafeWithDisposal
        },
        CandidateRepresentation::MinimalNoOp => if frame.dispose == DisposalMethod::Background {
            SafetyReason::RiskyMinimalBackground
        } else {
            SafetyReason::SafeWithDisposal
        },
    }
}

/// The metadata of a representation of a frame.
pub open spec fn metadata_spec(frame: CanonicalFrame, rep: CandidateRepresentation) -> CandidateMetadata {
    CandidateMetadata {
        changed_bbox: frame.changed_region.bbox,
        changed_pixel_count: frame.changed_region.changed_pixel_count,
        canvas_pixel_count: frame.changed_region.total_pixel_count,
        source_is_full_canvas: frame.changed_region.is_full_canvas_patch,
        source_has_transparency: frame.source_patch.has_transparency,
        source_transparent_count: frame.source_patch.transparent_pixel_count,
        source_opaque_count: frame.source_patch.opaque_pixel_count,
        disposal_method: frame.dispose,
        safety_reason: safety_spec(frame, rep),
    }
}

/// The candidate for a representation of frame `idx`.
pub open spec fn candidate_spec(idx: usize, frame: CanonicalFrame, rep: CandidateRepresentation) -> Candidate {
    Candidate { frame_index: idx, representation: rep, metadata: metadata_spec(frame, rep) }
}

/// Pixel `p` of the patch is fully opaque.
pub open spec fn opaque_hit(pixels: Seq<u8>) -> spec_fn(int) -> bool {
    |p: int| pixels[p * 4 + 3] == 255u8
}

/// The tight box, in patch coordinates, of the opaque pixels of a patch.
pub open spec fn local_opaque_box(patch: SourcePatch) -> (int, int, int, int) {
    choose|b: (int, int, int, int)|
        tight_box(
            opaque_hit(patch.pixels@),
            patch.width as int * patch.height as int,
            patch.width as int,
            b.0,
            b.1,
            b.2,
            b.3,
        )
}

/// `a + b` saturated to the `u16` range.
pub open spec fn sat_add(a: u16, b: int) -> u16 {
    if a + b > u16::MAX { u16::MAX } else { (a + b) as u16 }
}

/// The bounding box, in canvas coordinates, of the opaque pixels of a
/// patch (offsets saturated), or all zeros when no pixel is opaque.
pub open spec fn opaque_bbox_spec(patch: SourcePatch) -> BoundingBox {
    let b = local_opaque_box(patch);
    if exists|p: int| 0 <= p < patch.width as int * patch.height as int && #[trigger] opaque_hit(patch.pixels@)(p) {
        BoundingBox {
            left: sat_add(patch.left, b.0),
            top: sat_add(patch.top, b.1),
            right: sat_add(patch.left, b.2),
            bottom: sat_add(patch.top, b.3),
        }
    } else {
        BoundingBox { left: 0, top: 0, right: 0, bottom: 0 }
    }
}

/// The patch buffer holds all of its declared pixels.
pub open spec fn patch_complete(patch: SourcePatch) -> bool {
    patch.pixels@.len() >= patch.width as int * patch.height as int * 4
}

/// Whether a transparent sparse patch of `frame` is risky: more than half of
/// the source pixels are transparent, the frame is background-disposed, or
/// the last frame of the sequence has transparency while this frame's
/// disposal is not previous.
pub open spec fn sparse_risky_spec(frame: CanonicalFrame, last: CanonicalFrame) -> bool {
    let area = frame.source_patch.width as int * frame.source_patch.height as int;
    ||| (area > 0 && 2 * frame.source_patch.transparent_pixel_count > area)
    ||| frame.dispose == DisposalMethod::Background
    ||| (last.source_patch.has_transparency && frame.dispose != DisposalMethod::Previous)
}

/// The candidates of frame `idx` of a sequence whose last frame is `last`.
pub open spec fn frame_candidates_spec(idx: usize, frame: CanonicalFrame, last: CanonicalFrame) -> Seq<Candidate> {
    let s1 = seq![candidate_spec(idx, frame, CandidateRepresentation::FullFrame)];
    let obox = opaque_bbox_spec(frame.source_patch);
    let s2 = if !frame.source_patch.has_transparency && obox.area_spec() != 0 && obox.area_spec()
        < frame.source_patch.width as int * frame.source_patch.height as int {
        s1.push(candidate_spec(idx, frame, CandidateRepresentation::ExactOpaqueBbox { bbox: obox }))
    } else {
        s1
    };
    let cbox = frame.changed_region.bbox;
    let s3 = if frame.source_patch.has_transparency && cbox.area_spec() != 0 {
        s2.push(
            candidate_spec(
                idx,
                frame,
                CandidateRepresentation::TransparentSparsePatch {
                    bbox: cbox,
                    is_risky: sparse_risky_spec(frame, last),
                },
            ),
        )
    } else {
        s2
    };
    if frame.changed_region.changed_pixel_count == 0 {
        s3.push(candidate_spec(idx, frame, CandidateRepresentation::MinimalNoOp))
    } else {
        s3
    }
}

/// The candidates of the first `n` frames, in frame order.
pub open spec fn candidates_upto(frames: Seq<CanonicalFrame>, n: nat) -> Seq<Candidate>
    decreases n,
{
    if n == 0 {
        Seq::empty()
    } else {
        candidates_upto(frames, (n - 1) as nat) + frame_candidates_spec(
            (n - 1) as usize,
            frames[n - 1],
            frames.last(),
        )
    }
}

/// Every frame whose source has no transparency has a complete patch buffer.
pub open spec fn opaque_patches_complete(frames: Seq<CanonicalFrame>) -> bool {
    forall|i: int|
        0 <= i < frames.len() && !(#[trigger] frames[i]).source_patch.has_transparency ==> patch_complete(frames[i].source_patch)
}

impl CandidateGenerator {
    /// Generate all candidates from a canonical sequence, frame by frame:
    /// always a full-frame candidate; an opaque-bbox candidate for opaque
    /// sources whose opaque box is nonempty and smaller than the patch; a
    /// transparent-sparse candidate for transparent sources whose changed box
    /// is nonempty; and a minimal no-op candidate when no pixel changed.
    pub fn generate(seq: &CanonicalSequence) -> (r: Vec<Candidate>)
        requires
            opaque_patches_complete(seq.frames@),
            seq.frames@.len() < usize::MAX,
        ensures
            r@ == candidates_upto(seq.frames@, seq.frames@.len()),
    {
        let mut candidates: Vec<Candidate> = Vec::new();
        let n = seq.frames.len();
        let mut i: usize = 0;
        while i < n
            invariant
                n == seq.frames@.len(),
                n < usize::MAX,
                i <= n,
                opaque_patches_complete(seq.frames@),
                candidates@ == candidates_upto(seq.frames@, i as nat),
            decreases n - i,
        {
            let frame_candidates = Self::generate_frame_candidates(i, &seq.frames[i], seq);
            let mut k: usize = 0;
            let ghost before = candidates@;
            while k < frame_candidates.len()
                invariant
                    k <= frame_candidates@.len(),
                    candidates@ == before + frame_candidates@.subrange(0, k as int),
                decreases frame_candidates@.len() - k,
            {
                candidates.push(frame_candidates[k]);
                k += 1;
            }
            assert(frame_candidates@.subrange(0, frame_candidates@.len() as int) == frame_candidates@);
            i += 1;
        }
        candidates
    }

    /// Generate the candidates of one frame.
    pub fn generate_frame_candidates(frame_idx: usize, frame: &CanonicalFrame, seq: &CanonicalSequence) -> (r: Vec<Candidate>)
        requires
            seq.frames@.len() > 0,
            !frame.source_patch.has_transparency ==> patch_complete(frame.source_patch),
        ensures
            r@ == frame_candidates_spec(frame_idx, *frame, seq.frames@.last()),
    {
        let mut candidates: Vec<Candidate> = Vec::new();
        candidates.push(Self::make_candidate(frame_idx, frame, CandidateRepresentation::FullFrame));
        if !frame.source_patch.has_transparency {
            match Self::generate_opaque_bbox_candidate(frame_idx, frame) {
                Some(c) => {
                    candidates.push(c);
                },
                None => {},
            }
        }
        if frame.source_patch.has_transparency {
            match Self::generate_transparent_sparse_candidate(frame_idx, frame, seq) {
                Some(c) => {
                    candidates.push(c);
                },
                None => {},
            }
        }
        match Self::generate_minimal_noop_candidate(frame_idx, frame) {
            Some(c) => {
                candidates.push(c);
            },
            None => {},
        }
        candidates
    }

    /// A candidate of the given representation with its metadata.
    fn make_candidate(frame_idx: usize, frame: &CanonicalFrame, rep: CandidateRepresentation) -> (r: Candidate)
        ensures
            r == candidate_spec(frame_idx, *frame, rep),
    {
        Candidate { frame_index: frame_idx, representation: rep, metadata: Self::build_metadata(frame, rep) }
    }

    /// Exact opaque bbox candidate: present when the opaque box is nonempty
    /// and smaller than the source patch.
    pub fn generate_opaque_bbox_candidate(frame_idx: usize, frame: &CanonicalFrame) -> (r: Option<Candidate>)
        requires
            patch_complete(frame.source_patch),
        ensures
            ({
                let obox = opaque_bbox_spec(frame.source_patch);
                r == if obox.area_spec() != 0 && obox.area_spec() < frame.source_patch.width as int
                    * frame.source_patch.height as int {
                    Some(candidate_spec(frame_idx, *frame, CandidateRepresentation::ExactOpaqueBbox { bbox: obox }))
                } else {
                    None
                }
            }),
    {
        let bbox = Self::compute_opaque_bbox(&frame.source_patch);
        if bbox.area() == 0 {
            return None;
        }
        let _plen = frame.source_patch.pixels.len();
        let source_area = (frame.source_patch.width as usize) * (frame.source_patch.height as usize);
        if bbox.area() >= source_area {
            return None;
        }
        Some(Self::make_candidate(frame_idx, frame, CandidateRepresentation::ExactOpaqueBbox { bbox }))
    }

    /// Transparent sparse patch candidate over the changed box, when it is nonempty.
    pub fn generate_transparent_sparse_candidate(
        frame_idx: usize,
        frame: &CanonicalFrame,
        seq: &CanonicalSequence,
    ) -> (r: Option<Candidate>)
        requires
            seq.frames@.len() > 0,
        ensures
            r == if frame.changed_region.bbox.area_spec() != 0 {
                Some(
                    candidate_spec(
                        frame_idx,
                        *frame,
                        CandidateRepresentation::TransparentSparsePatch {
                            bbox: frame.changed_region.bbox,
                            is_risky: sparse_risky_spec(*frame, seq.frames@.last()),
                        },
                    ),
                )
            } else {
                None
            },
    {
        let bbox = frame.changed_region.bbox;
        if bbox.area() == 0 {
            return None;
        }
        let is_risky = Self::is_transparent_sparse_risky(frame, seq);
        Some(
            Self::make_candidate(
                frame_idx,
                frame,
                CandidateRepresentation::TransparentSparsePatch { bbox, is_risky },
            ),
        )
    }

    /// Minimal/no-op candidate: present only when no pixel changed.
    pub fn generate_minimal_noop_candidate(frame_idx: usize, frame: &CanonicalFrame) -> (r: Option<Candidate>)
        ensures
            r == if frame.changed_region.changed_pixel_count == 0 {
                Some(candidate_spec(frame_idx, *frame, CandidateRepresentation::MinimalNoOp))
            } else {
                None
            },
    {
        if frame.changed_region.changed_pixel_count != 0 {
            return None;
        }
        Some(Self::make_candidate(frame_idx, frame, CandidateRepresentation::MinimalNoOp))
    }

    /// Tight bounding box, in canvas coordinates, around the opaque pixels of a
    /// source patch; all zeros when no pixel is opaque.
    pub fn compute_opaque_bbox(patch: &SourcePatch) -> (r: BoundingBox)
        requires
            patch_complete(*patch),
        ensures
            r == opaque_bbox_spec(*patch),
    {
        let ghost hit = opaque_hit(patch.pixels@);
        let w = patch.width;
        let h = patch.height;
        let plen = patch.pixels.len();
        let mut acc = BoxAcc::new(w, h);
        let mut y: u16 = 0;
        while y < h
            invariant
                y <= h,
                w == patch.width,
                h == patch.height,
                hit == opaque_hit(patch.pixels@),
                plen == patch.pixels@.len(),
                plen >= w as int * h as int * 4,
                acc.inv(hit, y as int * w as int, w as int, h as int),
            decreases h - y,
        {
            let mut x: u16 = 0;
            while x < w
                invariant
                    y < h,
                    x <= w,
                    w == patch.width,
                    h == patch.height,
                    hit == opaque_hit(patch.pixels@),
                    plen == patch.pixels@.len(),
                    plen >= w as int * h as int * 4,
                    acc.inv(hit, y as int * w as int + x as int, w as int, h as int),
                decreases w - x,
            {
                let ghost k = y as int * w as int + x as int;
                proof {
                    lemma_grid_index(x as int, y as int, w as int, h as int);
                }
                let idx = ((y as usize) * (w as usize) + (x as usize)) * 4;
                let ghost before = acc;
                if patch.pixels[idx + 3] == 255 {
                    acc.add(x, y);
                }
                proof {
                    assert(hit(k) == (patch.pixels@[k * 4 + 3] == 255u8));
                    BoxAcc::lemma_step(before, acc, hit, k, w as int, h as int);
                    assert(k + 1 == y as int * w as int + (x + 1) as int);
                }
                x += 1;
            }
            assert(y as int * w as int + w as int == (y + 1) as int * w as int) by (nonlinear_arith);
            y += 1;
        }
        proof {
            assert(h as int * w as int == w as int * h as int) by (nonlinear_arith);
            BoxAcc::lemma_done(acc, hit, w as int * h as int, w as int, h as int);
        }
        if !acc.found {
            BoundingBox::new(0, 0, 0, 0)
        } else {
            proof {
                let b = local_opaque_box(*patch);
                let t = (acc.min_x as int, acc.min_y as int, acc.max_x as int, acc.max_y as int);
                assert(tight_box(hit, w as int * h as int, w as int, t.0, t.1, t.2, t.3));
                assert(tight_box(hit, w as int * h as int, w as int, b.0, b.1, b.2, b.3));
                lemma_tight_box_unique(
                    hit,
                    w as int * h as int,
                    w as int,
                    t.0,
                    t.1,
                    t.2,
                    t.3,
                    b.0,
                    b.1,
                    b.2,
                    b.3,
                );
            }
            BoundingBox::new(
                patch.left.saturating_add(acc.min_x),
                patch.top.saturating_add(acc.min_y),
                patch.left.saturating_add(acc.max_x),
                patch.top.saturating_add(acc.max_y),
            )
        }
    }

    /// Whether a transparent sparse patch of this frame is risky.
    pub fn is_transparent_sparse_risky(frame: &CanonicalFrame, seq: &CanonicalSequence) -> (r: bool)
        requires
            seq.frames@.len() > 0,
        ensures
            r == sparse_risky_spec(*frame, seq.frames@.last()),
            frame.dispose == DisposalMethod::Background ==> r,
            frame.source_patch.width as int * frame.source_patch.height as int > 0 && 2
                * frame.source_patch.transparent_pixel_count > frame.source_patch.width as int
                * frame.source_patch.height as int ==> r,
            seq.frames@.last().source_patch.has_transparency && frame.dispose != DisposalMethod::Previous ==> r,
    {
        let w = frame.source_patch.width as u64;
        let h = frame.source_patch.height as u64;
        assert(w * h <= 65535 * 65535) by (nonlinear_arith)
            requires
                w <= 65535,
                h <= 65535,
        ;
        let area = w * h;
        let high_transparency = area > 0 && (frame.source_patch.transparent_pixel_count as u128) * 2
            > area as u128;
        let background_disposal = frame.dispose == DisposalMethod::Background;
        let last = &seq.frames[seq.frames.len() - 1];
        let next_depends_on_transparency = last.source_patch.has_transparency && frame.dispose
            != DisposalMethod::Previous;
        high_transparency || background_disposal || next_depends_on_transparency
    }

    /// Metadata of a representation of a frame.
    pub fn build_metadata(frame: &CanonicalFrame, representation: CandidateRepresentation) -> (r: CandidateMetadata)
        ensures
            r == metadata_spec(*frame, representation),
    {
        let safety_reason = match representation {
            CandidateRepresentation::FullFrame => SafetyReason::AlwaysSafe,
            CandidateRepresentation::ExactOpaqueBbox { .. } => SafetyReason::AlwaysSafe,
            CandidateRepresentation::TransparentSparsePatch { is_risky, .. } => {
                if is_risky {
                    SafetyReason::RiskyTransparent
                } else {
                    SafetyReason::SafeWithDisposal
                }
            },
            CandidateRepresentation::MinimalNoOp => {
                if frame.dispose == DisposalMethod::Background {
                    SafetyReason::RiskyMinimalBackground
                } else {
                    SafetyReason::SafeWithDisposal
                }
            },
        };
        CandidateMetadata {
            changed_bbox: frame.changed_region.bbox,
            changed_pixel_count: frame.changed_region.changed_pixel_count,
            canvas_pixel_count: frame.changed_region.total_pixel_count,
            source_is_full_canvas: frame.changed_region.is_full_canvas_patch,
            source_has_transparency: frame.source_patch.has_transparency,
            source_transparent_count: frame.source_patch.transparent_pixel_count,
            source_opaque_count: frame.source_patch.opaque_pixel_count,
            disposal_method: frame.dispose,
            safety_reason,
        }
    }
}

/// Generation yields at least one candidate per frame: the candidates of
/// the first `n` frames number at least `n`.
pub proof fn law_at_least_one_candidate_per_frame(frames: Seq<CanonicalFrame>, n: nat)
    ensures
        candidates_upto(frames, n).len() >= n,
    decreases n,
{
    if n > 0 {
        law_at_least_one_candidate_per_frame(frames, (n - 1) as nat);
    }
}

/// Some candidate is the full-frame candidate of frame `i`.
pub open spec fn has_full_frame_candidate(cands: Seq<Candidate>, i: int) -> bool {
    exists|k: int|
        0 <= k < cands.len() && (#[trigger] cands[k]).frame_index == i && cands[k].representation
            == CandidateRepresentation::FullFrame
}

/// Every frame has a full-frame candidate, and every candidate belongs to
/// one of the frames.
pub proof fn law_full_frame_candidate_always_available(frames: Seq<CanonicalFrame>, n: nat)
    requires
        n <= usize::MAX,
    ensures
        forall|i: int| 0 <= i < n ==> #[trigger] has_full_frame_candidate(candidates_upto(frames, n), i),
        forall|k: int|
            0 <= k < candidates_upto(frames, n).len() ==> (#[trigger] candidates_upto(frames, n)[k]).frame_index < n,
    decreases n,
{
    if n > 0 {
        law_full_frame_candidate_always_available(frames, (n - 1) as nat);
        let prev = candidates_upto(frames, (n - 1) as nat);
        let fc = frame_candidates_spec((n - 1) as usize, frames[n - 1], frames.last());
        let all = candidates_upto(frames, n);
        assert(all == prev + fc);
        assert forall|i: int| 0 <= i < n implies #[trigger] has_full_frame_candidate(all, i) by {
            if i < n - 1 {
                assert(has_full_frame_candidate(prev, i));
                let k0 = choose|k: int|
                    0 <= k < prev.len() && (#[trigger] prev[k]).frame_index == i && prev[k].representation
                        == CandidateRepresentation::FullFrame;
                assert(all[k0] == prev[k0]);
            } else {
                assert(all[prev.len() as int] == fc[0]);
            }
        }
        assert forall|k: int| 0 <= k < all.len() implies (#[trigger] all[k]).frame_index < n by {
            if k < prev.len() {
                assert(all[k] == prev[k]);
            } else {
                assert(all[k] == fc[k - prev.len()]);
            }
        }
    }
}

/// A minimal no-op candidate is only ever offered for a frame in which no
/// pixel changed.
pub proof fn law_noop_only_when_unchanged(frames: Seq<CanonicalFrame>, n: nat)
    requires
        n <= frames.len(),
        n <= usize::MAX,
    ensures
        forall|k: int|
            0 <= k < candidates_upto(frames, n).len() && (#[trigger] candidates_upto(frames, n)[k]).representation
                == CandidateRepresentation::MinimalNoOp ==> frames[candidates_upto(frames, n)[k].frame_index as int].changed_region.changed_pixel_count
                == 0,
    decreases n,
{
    if n > 0 {
        law_noop_only_when_unchanged(frames, (n - 1) as nat);
        let prev = candidates_upto(frames, (n - 1) as nat);
        let fc = frame_candidates_spec((n - 1) as usize, frames[n - 1], frames.last());
        let all = candidates_upto(frames, n);
        assert forall|k: int|
            0 <= k < all.len() && (#[trigger] all[k]).representation == CandidateRepresentation::MinimalNoOp implies frames[all[k].frame_index as int].changed_region.changed_pixel_count
            == 0 by {
            if k < prev.len() {
                assert(all[k] == prev[k]);
            } else {
                assert(all[k] == fc[k - prev.len()]);
            }
        }
    }
}

/// A transparent sparse patch of a background-disposed frame is always
/// marked risky (safety: risky transparent), whatever its transparent-pixel
/// ratio and whatever the last frame holds; so is one of a frame whose
/// source is more than half transparent, and one of a frame not disposed to
/// previous when the last frame of the sequence has transparency.
pub proof fn law_background_sparse_patch_is_risky(frames: Seq<CanonicalFrame>, n: nat)
    requires
        n <= frames.len(),
        n <= usize::MAX,
    ensures
        forall|k: int|
            0 <= k < candidates_upto(frames, n).len() && (#[trigger] candidates_upto(frames, n)[k]).representation
                is TransparentSparsePatch && frames[candidates_upto(frames, n)[k].frame_index as int].dispose
                == DisposalMethod::Background ==> candidates_upto(frames, n)[k].representation->is_risky
                && candidates_upto(frames, n)[k].metadata.safety_reason == SafetyReason::RiskyTransparent,
        forall|k: int|
            0 <= k < candidates_upto(frames, n).len() && (#[trigger] candidates_upto(frames, n)[k]).representation
                is TransparentSparsePatch && ({
                let sp = frames[candidates_upto(frames, n)[k].frame_index as int].source_patch;
                sp.width as int * sp.height as int > 0 && 2 * sp.transparent_pixel_count > sp.width as int
                    * sp.height as int
            }) ==> candidates_upto(frames, n)[k].representation->is_risky
                && candidates_upto(frames, n)[k].metadata.safety_reason == SafetyReason::RiskyTransparent,
        forall|k: int|
            0 <= k < candidates_upto(frames, n).len() && (#[trigger] candidates_upto(frames, n)[k]).representation
                is TransparentSparsePatch && frames.last().source_patch.has_transparency
                && frames[candidates_upto(frames, n)[k].frame_index as int].dispose != DisposalMethod::Previous
                ==> candidates_upto(frames, n)[k].representation->is_risky
                && candidates_upto(frames, n)[k].metadata.safety_reason == SafetyReason::RiskyTransparent,
    decreases n,
{
    if n > 0 {
        law_background_sparse_patch_is_risky(frames, (n - 1) as nat);
        let prev = candidates_upto(frames, (n - 1) as nat);
        let fc = frame_candidates_spec((n - 1) as usize, frames[n - 1], frames.last());
        let all = candidates_upto(frames, n);
        assert forall|k: int| 0 <= k < all.len() implies (#[trigger] all[k]) == (if k < prev.len() {
            prev[k]
        } else {
            fc[k - prev.len()]
        }) by {}
    }
}

} // verus!
