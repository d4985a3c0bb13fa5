//! Candidate materialization: turn adaptive decisions into concrete frames.
//!
//! For each decision the chosen candidate representation is materialized
//! from the canonical frame's displayed canvas:
//! - **FullFrame**: the whole displayed canvas.
//! - **ExactOpaqueBbox** / **TransparentSparsePatch**: the box region of the
//!   displayed canvas, transparency kept; a 1x1 transparent pixel for an
//!   empty box (GIF frames cannot be empty).
//! - **MinimalNoOp**: a 1x1 transparent pixel at the origin.
//!
//! Delay and disposal come from the canonical frame; palettes are left to
//! palette realization.

use vstd::prelude::*;
use crate::adaptive_ir::{BoundingBox, CanonicalFrame, CanonicalSequence};
use crate::candidate_gen::CandidateRepresentation;
use crate::error::Error;
use crate::palette_strategy::PaletteStrategy;
use crate::text::{decimal, push_decimal};
use crate::types::{DisposalMethod, Frame, FrameView};

verus! {

/// The decision taken for one frame: which candidate to emit, with which
/// palette strategy, and why.
#[derive(Debug, Clone)]
pub struct FrameDecision {
    /// Index of the frame in the canonical sequence.
    pub frame_index: usize,
    /// The chosen candidate representation.
    pub chosen_candidate: CandidateRepresentation,
    /// The chosen palette strategy.
    pub chosen_palette_strategy: PaletteStrategy,
    /// Why the candidate was chosen.
    pub reason: crate::scoring::DecisionReason,
    /// Human-readable explanation of the choice.
    pub explanation: String,
}

/// Materializer: converts adaptive decisions into concrete Frame output.
pub struct Materializer;

/// Byte `i` of the box region of a displayed canvas with rows `seq_width`
/// pixels wide; bytes of pixels past the end of the buffer are zero.
pub open spec fn region_byte(displayed: Seq<u8>, seq_width: int, bbox: BoundingBox, i: int) -> u8 {
    let bw = bbox.width_spec();
    let p = i / 4;
    let x = bbox.left + p % bw;
    let y = bbox.top + p / bw;
    let ci = (y * seq_width + x) * 4;
    if ci + 4 <= displayed.len() {
        displayed[ci + i % 4]
    } else {
        0u8
    }
}

/// The box region of a displayed canvas, row by row.
pub open spec fn region_pixels(displayed: Seq<u8>, seq_width: int, bbox: BoundingBox) -> Seq<u8> {
    Seq::new(
        (bbox.width_spec() * bbox.height_spec() * 4) as nat,
        |i: int| region_byte(displayed, seq_width, bbox, i),
    )
}

/// A frame with the given pixels and geometry, and the canonical frame's timing.
pub open spec fn frame_view_of(frame: CanonicalFrame, pixels: Seq<u8>, left: u16, top: u16, width: u16, height: u16) -> FrameView {
    FrameView {
        pixels,
        delay: frame.delay,
        dispose: frame.dispose,
        local_palette: None,
        left,
        top,
        width,
        height,
    }
}

/// A 1x1 transparent pixel.
pub open spec fn clear_pixel() -> Seq<u8> {
    seq![0u8, 0u8, 0u8, 0u8]
}

/// The frame materialized from a box region (1x1 transparent at the box's
/// corner when the box is empty).
pub open spec fn box_frame_spec(frame: CanonicalFrame, seq_width: u16, bbox: BoundingBox) -> FrameView {
    if bbox.width_spec() == 0 || bbox.height_spec() == 0 {
        frame_view_of(frame, clear_pixel(), bbox.left, bbox.top, 1, 1)
    } else {
        frame_view_of(
            frame,
            region_pixels(frame.displayed_canvas.pixels@, seq_width as int, bbox),
            bbox.left,
            bbox.top,
            bbox.width_spec() as u16,
            bbox.height_spec() as u16,
        )
    }
}

/// The frame materialized from a candidate of a canonical frame.
pub open spec fn materialized_spec(rep: CandidateRepresentation, frame: CanonicalFrame, seq_width: u16, seq_height: u16) -> FrameView {
    match rep {
        CandidateRepresentation::FullFrame => frame_view_of(
            frame,
            frame.displayed_canvas.pixels@,
            0,
            0,
            seq_width,
            seq_height,
        ),
        CandidateRepresentation::ExactOpaqueBbox { bbox } => box_frame_spec(frame, seq_width, bbox),
        CandidateRepresentation::TransparentSparsePatch { bbox, .. } => box_frame_spec(frame, seq_width, bbox),
        CandidateRepresentation::MinimalNoOp => frame_view_of(frame, clear_pixel(), 0, 0, 1, 1),
    }
}

/// The decision names a frame of a sequence with `n` frames.
pub open spec fn decision_in_range(d: FrameDecision, n: int) -> bool {
    d.frame_index < n
}

/// The message of the error for a decision naming a frame past the end.
pub open spec fn out_of_range_message(index: usize, n: usize) -> Seq<char> {
    "Frame index "@ + decimal(index as nat) + " out of bounds (sequence has "@ + decimal(n as nat)
        + " frames)"@
}

impl Materializer {
    /// Materialize a single frame decision into a concrete frame.
    pub fn materialize_frame(decision: &FrameDecision, frame: &CanonicalFrame, seq: &CanonicalSequence) -> (r: crate::error::Result<Frame>)
        ensures
            r matches Ok(f) && f@ == materialized_spec(decision.chosen_candidate, *frame, seq.width, seq.height),
    {
        match decision.chosen_candidate {
            CandidateRepresentation::FullFrame => Self::materialize_full_frame(frame, seq),
            CandidateRepresentation::ExactOpaqueBbox { bbox } => Self::materialize_opaque_bbox(frame, seq, bbox),
            CandidateRepresentation::TransparentSparsePatch { bbox, .. } => {
                Self::materialize_transparent_sparse(frame, seq, bbox)
            },
            CandidateRepresentation::MinimalNoOp => Self::materialize_minimal_noop(frame, seq),
        }
    }

    /// The whole displayed canvas, full canvas geometry.
    fn materialize_full_frame(frame: &CanonicalFrame, seq: &CanonicalSequence) -> (r: crate::error::Result<Frame>)
        ensures
            r matches Ok(f) && f@ == materialized_spec(CandidateRepresentation::FullFrame, *frame, seq.width, seq.height),
    {
        Ok(
            Frame {
                pixels: crate::types::copy_bytes(&frame.displayed_canvas.pixels),
                delay: frame.delay,
                dispose: frame.dispose,
                local_palette: None,
                left: 0,
                top: 0,
                width: seq.width,
                height: seq.height,
            },
        )
    }

    /// The box region of the displayed canvas, or a 1x1 transparent pixel
    /// for an empty box.
    fn materialize_box(frame: &CanonicalFrame, seq: &CanonicalSequence, bbox: BoundingBox) -> (r: Frame)
        ensures
            r@ == box_frame_spec(*frame, seq.width, bbox),
    {
        let width = bbox.width();
        let height = bbox.height();
        if width == 0 || height == 0 {
            let pixels = vec![0u8, 0u8, 0u8, 0u8];
            assert(pixels@ =~= clear_pixel());
            return Frame {
                pixels,
                delay: frame.delay,
                dispose: frame.dispose,
                local_palette: None,
                left: bbox.left,
                top: bbox.top,
                width: 1,
                height: 1,
            };
        }
        let ghost disp = frame.displayed_canvas.pixels@;
        let dlen = frame.displayed_canvas.pixels.len();
        let sw = seq.width;
        let mut pixels: Vec<u8> = Vec::new();
        let mut y: u16 = bbox.top;
        assert((y - bbox.top) * width * 4 == 0) by (nonlinear_arith)
            requires
                y == bbox.top,
        ;
        while y < bbox.bottom
            invariant
                disp == frame.displayed_canvas.pixels@,
                dlen == disp.len(),
                sw == seq.width,
                width == bbox.width_spec(),
                height == bbox.height_spec(),
                width > 0,
                height > 0,
                bbox.top <= y <= bbox.bottom,
                pixels@.len() == (y - bbox.top) * width * 4,
                forall|i: int| 0 <= i < pixels@.len() ==> #[trigger] pixels@[i] == region_byte(disp, sw as int, bbox, i),
            decreases bbox.bottom - y,
        {
            let mut x: u16 = bbox.left;
            while x < bbox.right
                invariant
                    disp == frame.displayed_canvas.pixels@,
                    dlen == disp.len(),
                    sw == seq.width,
                    width == bbox.width_spec(),
                    height == bbox.height_spec(),
                    width > 0,
                    height > 0,
                    bbox.top <= y < bbox.bottom,
                    bbox.left <= x <= bbox.right,
                    pixels@.len() == ((y - bbox.top) * width + (x - bbox.left)) * 4,
                    forall|i: int| 0 <= i < pixels@.len() ==> #[trigger] pixels@[i] == region_byte(disp, sw as int, bbox, i),
                decreases bbox.right - x,
            {
                let ghost k = (y - bbox.top) * width + (x - bbox.left);
                let ghost before = pixels@;
                proof {
                    crate::spec_util::lemma_grid_index(
                        (x - bbox.left) as int,
                        (y - bbox.top) as int,
                        width as int,
                        height as int,
                    );
                }
                assert((y as u64) * (sw as u64) <= 65535 * 65535) by (nonlinear_arith)
                    requires
                        y <= 65535,
                        sw <= 65535,
                ;
                let ci: u64 = ((y as u64) * (sw as u64) + (x as u64)) * 4;
                if ci + 4 <= dlen as u64 {
                    let c = ci as usize;
                    pixels.push(frame.displayed_canvas.pixels[c]);
                    pixels.push(frame.displayed_canvas.pixels[c + 1]);
                    pixels.push(frame.displayed_canvas.pixels[c + 2]);
                    pixels.push(frame.displayed_canvas.pixels[c + 3]);
                } else {
                    pixels.push(0u8);
                    pixels.push(0u8);
                    pixels.push(0u8);
                    pixels.push(0u8);
                }
                proof {
                    assert forall|i: int| 0 <= i < pixels@.len() implies #[trigger] pixels@[i]
                        == region_byte(disp, sw as int, bbox, i) by {
                        if i >= k * 4 {
                            assert(i / 4 == k);
                            assert(i % 4 == i - k * 4);
                        } else {
                            assert(pixels@[i] == before[i]);
                        }
                    }
                    assert(pixels@.len() == ((y - bbox.top) * width + (x + 1 - bbox.left)) * 4);
                }
                x += 1;
            }
            assert((y - bbox.top) * width + width == (y + 1 - bbox.top) * width) by (nonlinear_arith);
            y += 1;
        }
        assert(height * width == width * height) by (nonlinear_arith);
        assert(pixels@ =~= region_pixels(disp, sw as int, bbox));
        Frame {
            pixels,
            delay: frame.delay,
            dispose: frame.dispose,
            local_palette: None,
            left: bbox.left,
            top: bbox.top,
            width,
            height,
        }
    }

    /// Materialize an exact opaque bbox candidate.
    fn materialize_opaque_bbox(frame: &CanonicalFrame, seq: &CanonicalSequence, bbox: BoundingBox) -> (r: crate::error::Result<Frame>)
        ensures
            r matches Ok(f) && f@ == box_frame_spec(*frame, seq.width, bbox),
    {
        Ok(Self::materialize_box(frame, seq, bbox))
    }

    /// Materialize a transparent sparse patch candidate (transparency kept).
    fn materialize_transparent_sparse(frame: &CanonicalFrame, seq: &CanonicalSequence, bbox: BoundingBox) -> (r: crate::error::Result<Frame>)
        ensures
            r matches Ok(f) && f@ == box_frame_spec(*frame, seq.width, bbox),
    {
        Ok(Self::materialize_box(frame, seq, bbox))
    }

    /// Materialize a minimal/no-op candidate: a 1x1 transparent pixel at the origin.
    fn materialize_minimal_noop(frame: &CanonicalFrame, _seq: &CanonicalSequence) -> (r: crate::error::Result<Frame>)
        ensures
            r matches Ok(f) && f@ == frame_view_of(*frame, clear_pixel(), 0, 0, 1, 1),
    {
        let pixels = vec![0u8, 0u8, 0u8, 0u8];
        assert(pixels@ =~= clear_pixel());
        Ok(
            Frame {
                pixels,
                delay: frame.delay,
                dispose: frame.dispose,
                local_palette: None,
                left: 0,
                top: 0,
                width: 1,
                height: 1,
            },
        )
    }

    /// Materialize a sequence of decisions into frames, in order. Fails with
    /// an encode error at the first decision naming a frame past the end of
    /// the sequence.
    pub fn materialize_sequence(decisions: &[FrameDecision], seq: &CanonicalSequence) -> (r: crate::error::Result<Vec<Frame>>)
        ensures
            r is Ok <==> forall|k: int| 0 <= k < decisions@.len() ==> decision_in_range(#[trigger] decisions@[k], seq.frames@.len() as int),
            r matches Ok(v) ==> v@.len() == decisions@.len() && forall|k: int|
                0 <= k < decisions@.len() ==> (#[trigger] v@[k])@ == materialized_spec(
                    decisions@[k].chosen_candidate,
                    seq.frames@[decisions@[k].frame_index as int],
                    seq.width,
                    seq.height,
                ),
            r matches Err(e) ==> exists|k: int|
                0 <= k < decisions@.len() && !decision_in_range(#[trigger] decisions@[k], seq.frames@.len() as int)
                    && (forall|j: int| 0 <= j < k ==> decision_in_range(#[trigger] decisions@[j], seq.frames@.len() as int))
                    && (e matches Error::EncodeError(m) && m@ == out_of_range_message(decisions@[k].frame_index, seq.frames@.len() as usize)),
    {
        let mut materialized: Vec<Frame> = Vec::new();
        let n = decisions.len();
        let mut k: usize = 0;
        while k < n
            invariant
                n == decisions@.len(),
                k <= n,
                materialized@.len() == k,
                forall|j: int| 0 <= j < k ==> decision_in_range(#[trigger] decisions@[j], seq.frames@.len() as int),
                forall|j: int|
                    0 <= j < k ==> (#[trigger] materialized@[j])@ == materialized_spec(
                        decisions@[j].chosen_candidate,
                        seq.frames@[decisions@[j].frame_index as int],
                        seq.width,
                        seq.height,
                    ),
            decreases n - k,
        {
            let decision = &decisions[k];
            let frame_idx = decision.frame_index;
            if frame_idx >= seq.frames.len() {
                let mut msg = String::from_str("Frame index ");
                push_decimal(&mut msg, frame_idx);
                msg.append(" out of bounds (sequence has ");
                push_decimal(&mut msg, seq.frames.len());
                msg.append(" frames)");
                assert(!decision_in_range(decisions@[k as int], seq.frames@.len() as int));
                return Err(Error::EncodeError(msg));
            }
            let canonical_frame = &seq.frames[frame_idx];
            let f = match Self::materialize_frame(decision, canonical_frame, seq) {
                Ok(f) => f,
                Err(e) => {
                    return Err(e);
                },
            };
            materialized.push(f);
            k += 1;
        }
        Ok(materialized)
    }
}

/// A transparent sparse patch over box `b` materializes exactly as an opaque
/// bounding box over `b` does: a frame placed at `(b.left, b.top)`, `b`'s
/// width by `b`'s height, whose pixel `(x, y)` is the displayed canvas's
/// pixel `(b.left + x, b.top + y)` (zero where the canvas buffer ends); an
/// empty box gives a 1x1 transparent pixel at `(b.left, b.top)`. Timing and
/// disposal are the canonical frame's.
pub proof fn law_sparse_patch_is_box_region(
    frame: CanonicalFrame,
    bbox: BoundingBox,
    is_risky: bool,
    seq_width: u16,
    seq_height: u16,
)
    ensures
        ({
            let m = materialized_spec(
                CandidateRepresentation::TransparentSparsePatch { bbox, is_risky },
                frame,
                seq_width,
                seq_height,
            );
            let disp = frame.displayed_canvas.pixels@;
            let w = bbox.width_spec();
            let h = bbox.height_spec();
            &&& m == materialized_spec(CandidateRepresentation::ExactOpaqueBbox { bbox }, frame, seq_width, seq_height)
            &&& m.left == bbox.left && m.top == bbox.top
            &&& m.delay == frame.delay && m.dispose == frame.dispose && m.local_palette is None
            &&& (w == 0 || h == 0) ==> m.width == 1 && m.height == 1 && m.pixels == seq![0u8, 0u8, 0u8, 0u8]
            &&& (w > 0 && h > 0) ==> {
                &&& m.width == w && m.height == h
                &&& m.pixels.len() == w * h * 4
                &&& forall|x: int, y: int, c: int|
                    0 <= x < w && 0 <= y < h && 0 <= c < 4 ==> #[trigger] m.pixels[(y * w + x) * 4 + c] == {
                        let ci = ((bbox.top + y) * seq_width + bbox.left + x) * 4;
                        if ci + 4 <= disp.len() { disp[ci + c] } else { 0u8 }
                    }
            }
        }),
{
    let m = materialized_spec(
        CandidateRepresentation::TransparentSparsePatch { bbox, is_risky },
        frame,
        seq_width,
        seq_height,
    );
    let w = bbox.width_spec();
    let h = bbox.height_spec();
    if w > 0 && h > 0 {
        assert(w <= 65535 && h <= 65535);
        let disp = frame.displayed_canvas.pixels@;
        assert forall|x: int, y: int, c: int| 0 <= x < w && 0 <= y < h && 0 <= c < 4 implies #[trigger] m.pixels[(y
            * w + x) * 4 + c] == {
            let ci = ((bbox.top + y) * seq_width + bbox.left + x) * 4;
            if ci + 4 <= disp.len() { disp[ci + c] } else { 0u8 }
        } by {
            crate::spec_util::lemma_grid_index(x, y, w, h);
            let i = (y * w + x) * 4 + c;
            assert(i / 4 == y * w + x);
            assert(i % 4 == c);
            assert(m.pixels[i] == region_byte(disp, seq_width as int, bbox, i));
        }
        assert(m.width == w && m.height == h);
        assert(m.pixels.len() == w * h * 4);
    } else {
        assert(m.pixels == seq![0u8, 0u8, 0u8, 0u8]);
    }
    assert(m == materialized_spec(CandidateRepresentation::ExactOpaqueBbox { bbox }, frame, seq_width, seq_height));
}

} // verus!
