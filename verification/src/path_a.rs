//! Path A: conservative opaque-delta reconstruction from displayed canvases.
//!
//! Input is a sequence of full displayed canvases (RGBA, already composited).
//! Frame 0 is emitted whole; each later frame becomes:
//! - a 1x1 patch at the origin when nothing changed,
//! - the exact changed bounding box when its area is within the threshold,
//! - the full canvas otherwise.
//!
//! No transparency is introduced: patches copy canvas pixels as they are,
//! and every frame is emitted with the unspecified (keep) disposal.

use vstd::prelude::*;
use std::time::Duration;
use crate::adaptive_ir::{
    BoundingBox, Canvas, CanvasView, changed_bbox_of, lemma_changed_bbox_of, scan_changes,
};
use crate::gif_ops::bbox_region;
use crate::types::DisposalMethod;

verus! {

/// Configuration for Path A optimization.
#[derive(Debug, Clone, Copy)]
pub struct PathAConfig {
    /// Threshold for the changed bounding-box area, in thousandths of the
    /// canvas area. Above it the full frame is emitted instead of a patch.
    pub bbox_area_threshold_permille: u32,
}

impl PathAConfig {
    /// The default configuration: patches up to 70% of the canvas area.
    pub fn default_config() -> (r: Self)
        ensures
            r.bbox_area_threshold_permille == 700,
    {
        PathAConfig { bbox_area_threshold_permille: 700 }
    }
}

impl Default for PathAConfig {
    fn default() -> (r: Self)
        ensures
            r.bbox_area_threshold_permille == 700,
    {
        PathAConfig::default_config()
    }
}

/// Result of Path A optimization for a single frame.
#[derive(Debug)]
pub struct PathAFrame {
    /// RGBA pixel data (copied from the canvas, no synthetic transparency).
    pub pixels: Vec<u8>,
    /// Horizontal offset on canvas.
    pub left: u16,
    /// Vertical offset on canvas.
    pub top: u16,
    /// Width of the frame.
    pub width: u16,
    /// Height of the frame.
    pub height: u16,
    /// Delay before displaying the next frame.
    pub delay: Duration,
    /// Disposal method (always the unspecified, keep-like one).
    pub dispose: DisposalMethod,
}

/// Compute the exact changed bounding box between two canvases of the same
/// size; all zeros when they are identical.
pub fn compute_changed_bbox(prev_canvas: &Canvas, curr_canvas: &Canvas) -> (r: BoundingBox)
    requires
        prev_canvas@.wf(),
        curr_canvas@.pixels.len() >= prev_canvas@.pixels.len(),
    ensures
        r == changed_bbox_of(
            prev_canvas@.pixels,
            curr_canvas@.pixels,
            prev_canvas.width as int,
            prev_canvas.height as int,
        ),
        crate::adaptive_ir::changed_bbox_spec(
            prev_canvas@.pixels,
            curr_canvas@.pixels,
            prev_canvas.width as int,
            prev_canvas.height as int,
            r,
        ),
{
    let (bbox, _count) = scan_changes(
        prev_canvas.pixels.as_slice(),
        curr_canvas.pixels.as_slice(),
        prev_canvas.width,
        prev_canvas.height,
    );
    proof {
        lemma_changed_bbox_of(
            prev_canvas@.pixels,
            curr_canvas@.pixels,
            prev_canvas.width as int,
            prev_canvas.height as int,
            bbox,
        );
    }
    bbox
}

/// The box lies inside a `w x h` canvas.
pub open spec fn bbox_within(bbox: BoundingBox, w: int, h: int) -> bool {
    bbox.left <= bbox.right <= w && bbox.top <= bbox.bottom <= h
}

/// Extract the pixels of a bounding box lying inside the canvas, row by row.
pub fn extract_bbox_region(canvas: &Canvas, bbox: BoundingBox) -> (r: Vec<u8>)
    requires
        canvas@.wf(),
        bbox_within(bbox, canvas.width as int, canvas.height as int),
    ensures
        r@ == bbox_region(canvas@.pixels, canvas.width as int, bbox),
{
    proof {
        if bbox.width_spec() > 0 && bbox.height_spec() > 0 {
            let w = canvas.width as int;
            let y = bbox.top + bbox.height_spec() - 1;
            assert((y * w + bbox.left + bbox.width_spec()) * 4 <= w * canvas.height as int * 4) by (nonlinear_arith)
                requires
                    0 <= y < canvas.height,
                    bbox.left + bbox.width_spec() <= w,
            ;
        }
    }
    crate::gif_ops::extract_bbox_region(canvas.pixels.as_slice(), canvas.width as usize, &bbox)
}

/// The canvases all have the size of the first and hold exactly that many pixels.
pub open spec fn canvases_uniform(canvases: Seq<Canvas>) -> bool {
    forall|i: int|
        0 <= i < canvases.len() ==> {
            &&& (#[trigger] canvases[i])@.wf()
            &&& canvases[i].width == canvases[0].width
            &&& canvases[i].height == canvases[0].height
        }
}

/// Largest bounding-box area emitted as a patch.
pub open spec fn area_threshold(c: CanvasView, permille: u32) -> int {
    (c.width as int * c.height as int * permille as int) / 1000
}

/// `f` is the Path A frame for canvas `curr` following `prev`.
pub open spec fn is_path_a_frame(f: PathAFrame, prev: CanvasView, curr: CanvasView, delay: Duration, threshold: int) -> bool {
    let bbox = changed_bbox_of(prev.pixels, curr.pixels, prev.width as int, prev.height as int);
    &&& f.delay == delay
    &&& f.dispose == DisposalMethod::Any
    &&& if bbox.area_spec() == 0 {
        &&& f.pixels@ == curr.pixels.subrange(0, 4)
        &&& f.left == 0 && f.top == 0 && f.width == 1 && f.height == 1
    } else if bbox.area_spec() <= threshold {
        &&& f.pixels@ == bbox_region(curr.pixels, curr.width as int, bbox)
        &&& f.left == bbox.left && f.top == bbox.top
        &&& f.width == bbox.width_spec() && f.height == bbox.height_spec()
    } else {
        &&& f.pixels@ == curr.pixels
        &&& f.left == 0 && f.top == 0 && f.width == curr.width && f.height == curr.height
    }
}

/// The changed box of two equal-size canvases lies inside them.
pub proof fn lemma_changed_bbox_within(a: Seq<u8>, b: Seq<u8>, w: int, h: int, bb: BoundingBox)
    requires
        0 <= w,
        0 <= h,
        crate::adaptive_ir::changed_bbox_spec(a, b, w, h, bb),
    ensures
        bbox_within(bb, w, h),
{
    let hit = |p: int| crate::adaptive_ir::pixel_differs(a, b, p);
    if exists|p: int| 0 <= p < w * h && #[trigger] hit(p) {
        let p1 = choose|p: int| 0 <= p < w * h && #[trigger] hit(p) && p % w == bb.left;
        let p2 = choose|p: int| 0 <= p < w * h && #[trigger] hit(p) && p % w + 1 == bb.right;
        let p3 = choose|p: int| 0 <= p < w * h && #[trigger] hit(p) && p / w == bb.top;
        let p4 = choose|p: int| 0 <= p < w * h && #[trigger] hit(p) && p / w + 1 == bb.bottom;
        assert(hit(p1) && hit(p2) && hit(p3) && hit(p4));
        crate::spec_util::lemma_grid_coords(p1, w, h);
        crate::spec_util::lemma_grid_coords(p2, w, h);
        crate::spec_util::lemma_grid_coords(p3, w, h);
        crate::spec_util::lemma_grid_coords(p4, w, h);
    }
}

/// Optimize a sequence of displayed canvases with Path A.
///
/// Frame 0 is the whole first canvas; every later frame is a 1x1 patch at
/// the origin when the canvas equals the one before, the exact changed
/// bounding box when its area is at most the threshold, or the whole canvas.
/// Every frame keeps its delay and uses the unspecified disposal. When the
/// canvases are fully opaque, drawing the frames in order onto a transparent
/// canvas gives back each canvas in turn.
pub fn optimize_path_a(canvases: &[Canvas], delays: &[Duration], config: PathAConfig) -> (r:
    crate::error::Result<Vec<PathAFrame>>)
    requires
        delays@.len() == canvases@.len(),
        canvases_uniform(canvases@),
        canvases@.len() > 1 ==> canvases@[0].width as int * canvases@[0].height as int > 0,
    ensures
        r matches Ok(frames) && frames@.len() == canvases@.len(),
        r matches Ok(frames) && (canvases@.len() > 0 ==> {
            &&& frames@[0].pixels@ == canvases@[0]@.pixels
            &&& frames@[0].left == 0 && frames@[0].top == 0
            &&& frames@[0].width == canvases@[0].width && frames@[0].height == canvases@[0].height
            &&& frames@[0].delay == delays@[0]
            &&& frames@[0].dispose == DisposalMethod::Any
        }),
        r matches Ok(frames) && forall|i: int|
            1 <= i < canvases@.len() ==> is_path_a_frame(
                #[trigger] frames@[i],
                canvases@[i - 1]@,
                canvases@[i]@,
                delays@[i],
                area_threshold(canvases@[0]@, config.bbox_area_threshold_permille),
            ),
        r matches Ok(frames) && (canvases@.len() > 0 && canvases@[0].width as int * canvases@[0].height as int > 0
            && (forall|i: int| 0 <= i < canvases@.len() ==> all_opaque((#[trigger] canvases@[i])@.pixels))
            ==> forall|i: int|
                0 <= i < canvases@.len() ==> path_a_replay(
                    frames@,
                    (i + 1) as nat,
                    canvases@[0].width as int,
                    canvases@[0].height as int,
                ) == (#[trigger] canvases@[i])@.pixels),
{
    let mut result: Vec<PathAFrame> = Vec::new();
    let n = canvases.len();
    if n == 0 {
        return Ok(result);
    }
    let c0 = &canvases[0];
    assert(c0@.wf());
    assert(c0.width as int * c0.height as int <= 65535 * 65535) by (nonlinear_arith)
        requires
            c0.width <= 65535,
            c0.height <= 65535,
    ;
    let canvas_area = (c0.width as u64) * (c0.height as u64);
    assert(canvas_area * config.bbox_area_threshold_permille <= u64::MAX) by (nonlinear_arith)
        requires
            canvas_area <= 65535 * 65535,
            config.bbox_area_threshold_permille <= u32::MAX,
    ;
    let threshold: u64 = canvas_area * (config.bbox_area_threshold_permille as u64) / 1000;
    assert(threshold == area_threshold(c0@, config.bbox_area_threshold_permille));
    result.push(
        PathAFrame {
            pixels: crate::types::copy_bytes(&c0.pixels),
            left: 0,
            top: 0,
            width: c0.width,
            height: c0.height,
            delay: delays[0],
            dispose: DisposalMethod::Any,
        },
    );
    let mut i: usize = 1;
    while i < n
        invariant
            n == canvases@.len(),
            n == delays@.len(),
            1 <= i <= n,
            canvases_uniform(canvases@),
            n > 1 ==> canvases@[0].width as int * canvases@[0].height as int > 0,
            threshold == area_threshold(canvases@[0]@, config.bbox_area_threshold_permille),
            result@.len() == i,
            result@[0].pixels@ == canvases@[0]@.pixels,
            result@[0].left == 0 && result@[0].top == 0,
            result@[0].width == canvases@[0].width && result@[0].height == canvases@[0].height,
            result@[0].delay == delays@[0],
            result@[0].dispose == DisposalMethod::Any,
            forall|j: int|
                1 <= j < i ==> is_path_a_frame(
                    #[trigger] result@[j],
                    canvases@[j - 1]@,
                    canvases@[j]@,
                    delays@[j],
                    threshold as int,
                ),
        decreases n - i,
    {
        let prev = &canvases[i - 1];
        let curr = &canvases[i];
        assert(prev@.wf() && curr@.wf());
        let bbox = compute_changed_bbox(prev, curr);
        proof {
            lemma_changed_bbox_within(prev@.pixels, curr@.pixels, prev.width as int, prev.height as int, bbox);
        }
        let area = bbox.area();
        let frame = if area == 0 {
            let ghost cw = curr.width as int;
            let ghost chh = curr.height as int;
            assert(cw * chh >= 1);
            let px = vec![curr.pixels[0], curr.pixels[1], curr.pixels[2], curr.pixels[3]];
            assert(px@ =~= curr@.pixels.subrange(0, 4));
            PathAFrame { pixels: px, left: 0, top: 0, width: 1, height: 1, delay: delays[i], dispose: DisposalMethod::Any }
        } else if (area as u64) <= threshold {
            let pixels = extract_bbox_region(curr, bbox);
            PathAFrame {
                pixels,
                left: bbox.left,
                top: bbox.top,
                width: bbox.width(),
                height: bbox.height(),
                delay: delays[i],
                dispose: DisposalMethod::Any,
            }
        } else {
            PathAFrame {
                pixels: crate::types::copy_bytes(&curr.pixels),
                left: 0,
                top: 0,
                width: curr.width,
                height: curr.height,
                delay: delays[i],
                dispose: DisposalMethod::Any,
            }
        };
        result.push(frame);
        i += 1;
    }
    proof {
        if canvases@[0].width as int * canvases@[0].height as int > 0 && (forall|k: int|
            0 <= k < canvases@.len() ==> all_opaque((#[trigger] canvases@[k])@.pixels)) {
            law_path_a_rebuilds_canvases(result@, canvases@, delays@, threshold as int);
        }
    }
    Ok(result)
}

/// Every pixel of the buffer is fully opaque.
pub open spec fn all_opaque(pixels: Seq<u8>) -> bool {
    forall|j: int| 0 <= j < pixels.len() && j % 4 == 3 ==> #[trigger] pixels[j] == 255
}

/// Path A introduces no transparency: when the canvas a frame is cut from
/// is fully opaque, so is the frame.
pub proof fn law_path_a_no_synthetic_transparency(
    f: PathAFrame,
    prev: CanvasView,
    curr: CanvasView,
    delay: Duration,
    threshold: int,
)
    requires
        is_path_a_frame(f, prev, curr, delay, threshold),
        prev.wf(),
        curr.wf(),
        prev.width == curr.width,
        prev.height == curr.height,
        curr.pixels.len() >= 4,
        all_opaque(curr.pixels),
    ensures
        all_opaque(f.pixels@),
{
    let w = curr.width as int;
    let h = curr.height as int;
    let bbox = changed_bbox_of(prev.pixels, curr.pixels, w, h);
    crate::adaptive_ir::lemma_changed_bbox_exists(prev.pixels, curr.pixels, prev.width, prev.height);
    lemma_changed_bbox_within(prev.pixels, curr.pixels, w, h, bbox);
    if bbox.area_spec() == 0 {
        assert forall|j: int| 0 <= j < f.pixels@.len() && j % 4 == 3 implies #[trigger] f.pixels@[j] == 255 by {
            assert(j == 3);
            assert(curr.pixels[3] == 255);
        }
    } else if bbox.area_spec() <= threshold {
        let bw = bbox.width_spec();
        let bh = bbox.height_spec();
        assert(bw > 0 && bh > 0) by (nonlinear_arith)
            requires
                bbox.area_spec() == bw * bh,
                bbox.area_spec() != 0,
                bw >= 0,
                bh >= 0,
        ;
        assert forall|j: int| 0 <= j < f.pixels@.len() && j % 4 == 3 implies #[trigger] f.pixels@[j] == 255 by {
            let p = j / 4;
            assert(0 <= p < bw * bh);
            crate::spec_util::lemma_grid_coords(p, bw, bh);
            let x = bbox.left + p % bw;
            let y = bbox.top + p / bw;
            assert(x < w && y < h);
            crate::spec_util::lemma_grid_index(x, y, w, h);
            let idx = (y * w + x) * 4 + 3;
            assert(idx % 4 == 3);
            assert(f.pixels@[j] == curr.pixels[idx]);
        }
    }
}

/// Drawing a frame over `pre` gives `curr` when, inside the frame's
/// rectangle, every frame pixel is opaque and holds `curr`'s bytes, and
/// outside it `pre` already agrees with `curr`.
proof fn lemma_composite_rebuilds(
    pre: Seq<u8>,
    curr: Seq<u8>,
    w: int,
    h: int,
    frame: Seq<u8>,
    fw: int,
    fh: int,
    left: int,
    top: int,
)
    requires
        pre.len() == curr.len(),
        curr.len() == w * h * 4,
        forall|i: int|
            0 <= i < curr.len() && #[trigger] crate::adaptive_ir::byte_in_region(i, w, h, left, top, fw, fh) ==> {
                let base = crate::adaptive_ir::frame_byte_base(i, w, fw, left, top);
                &&& frame[base + i % 4] == curr[i]
                &&& frame[base + 3] == 255
            },
        forall|i: int|
            0 <= i < curr.len() && !#[trigger] crate::adaptive_ir::byte_in_region(i, w, h, left, top, fw, fh)
                ==> pre[i] == curr[i],
    ensures
        crate::adaptive_ir::composited(pre, w, h, frame, fw, fh, left, top) == curr,
{
    let c = crate::adaptive_ir::composited(pre, w, h, frame, fw, fh, left, top);
    assert forall|i: int| 0 <= i < curr.len() implies c[i] == curr[i] by {
        if crate::adaptive_ir::byte_in_region(i, w, h, left, top, fw, fh) {
            assert(crate::adaptive_ir::region_done(i, w, h, left, top, fw, fh, fh, 0));
        } else {
            assert(!crate::adaptive_ir::region_done(i, w, h, left, top, fw, fh, fh, 0));
        }
    }
    assert(c =~= curr);
}

/// Drawing a Path A frame over the canvas before it gives back the canvas
/// it was cut from, when that canvas is fully opaque.
pub proof fn law_path_a_frame_rebuilds_canvas(
    f: PathAFrame,
    prev: CanvasView,
    curr: CanvasView,
    delay: Duration,
    threshold: int,
)
    requires
        is_path_a_frame(f, prev, curr, delay, threshold),
        prev.wf(),
        curr.wf(),
        prev.width == curr.width,
        prev.height == curr.height,
        curr.pixels.len() >= 4,
        all_opaque(curr.pixels),
    ensures
        crate::adaptive_ir::composited(
            prev.pixels,
            curr.width as int,
            curr.height as int,
            f.pixels@,
            f.width as int,
            f.height as int,
            f.left as int,
            f.top as int,
        ) == curr.pixels,
{
    let w = curr.width as int;
    let h = curr.height as int;
    let bbox = changed_bbox_of(prev.pixels, curr.pixels, w, h);
    crate::adaptive_ir::lemma_changed_bbox_exists(prev.pixels, curr.pixels, prev.width, prev.height);
    lemma_changed_bbox_within(prev.pixels, curr.pixels, w, h, bbox);
    assert(w > 0 && h > 0) by (nonlinear_arith)
        requires
            curr.pixels.len() == w * h * 4,
            curr.pixels.len() >= 4,
            w >= 0,
            h >= 0,
    ;
    let hit = |p: int| crate::adaptive_ir::pixel_differs(prev.pixels, curr.pixels, p);
    // Pixels outside the changed box are the same in both canvases.
    assert forall|p: int|
        0 <= p < w * h && !(bbox.left <= p % w < bbox.right && bbox.top <= p / w < bbox.bottom) implies !#[trigger] hit(p) by {
    }
    let fw = f.width as int;
    let fh = f.height as int;
    let fl = f.left as int;
    let ft = f.top as int;
    assert forall|i: int|
        0 <= i < curr.pixels.len() && #[trigger] crate::adaptive_ir::byte_in_region(i, w, h, fl, ft, fw, fh) implies {
            let base = crate::adaptive_ir::frame_byte_base(i, w, fw, fl, ft);
            &&& f.pixels@[base + i % 4] == curr.pixels[i]
            &&& f.pixels@[base + 3] == 255
        } by {
        let p = i / 4;
        crate::spec_util::lemma_grid_coords(p, w, h);
        let x = p % w;
        let y = p / w;
        let q = (y - ft) * fw + (x - fl);
        crate::spec_util::lemma_grid_index(x - fl, y - ft, fw, fh);
        assert(crate::adaptive_ir::frame_byte_base(i, w, fw, fl, ft) == q * 4);
        assert(i == p * 4 + i % 4);
        if bbox.area_spec() == 0 {
            // The frame is the canvas's first pixel, at the origin.
            assert(x == 0 && y == 0);
            assert(p == 0) by (nonlinear_arith)
                requires
                    p == y * w + x,
                    x == 0,
                    y == 0,
            ;
            assert(q == 0);
            assert(curr.pixels[p * 4 + 3] == 255);
        } else if bbox.area_spec() > threshold {
            // The frame is the canvas itself.
            assert(fw == w && fl == 0 && ft == 0);
            assert(q == p);
            assert(curr.pixels[p * 4 + 3] == 255);
        } else {
            assert(q / fw == y - ft && q % fw == x - fl);
            assert((q * 4 + i % 4) / 4 == q);
            assert((q * 4 + i % 4) % 4 == i % 4);
            assert((q * 4 + 3) / 4 == q);
            assert((q * 4 + 3) % 4 == 3);
            crate::spec_util::lemma_grid_index(x, y, w, h);
            assert(curr.pixels[p * 4 + 3] == 255);
        }
    }
    assert forall|i: int|
        0 <= i < curr.pixels.len() && !#[trigger] crate::adaptive_ir::byte_in_region(i, w, h, fl, ft, fw, fh)
            implies prev.pixels[i] == curr.pixels[i] by {
        let p = i / 4;
        crate::spec_util::lemma_grid_coords(p, w, h);
        if bbox.area_spec() == 0 {
            if hit(p) {
                assert(bbox.left <= p % w < bbox.right && bbox.top <= p / w < bbox.bottom);
                assert(bbox.width_spec() > 0 && bbox.height_spec() > 0);
                assert(bbox.area_spec() > 0) by (nonlinear_arith)
                    requires
                        bbox.width_spec() > 0,
                        bbox.height_spec() > 0,
                        bbox.area_spec() == bbox.width_spec() * bbox.height_spec(),
                ;
            }
        } else if bbox.area_spec() <= threshold {
            assert(!hit(p));
        } else {
            assert(false);
        }
        assert(!hit(p));
        assert(i == p * 4 + i % 4);
    }
    lemma_composite_rebuilds(prev.pixels, curr.pixels, w, h, f.pixels@, fw, fh, fl, ft);
}

/// The canvas after drawing the first `n` Path A frames, in order, onto a
/// transparent `w x h` canvas.
pub open spec fn path_a_replay(frames: Seq<PathAFrame>, n: nat, w: int, h: int) -> Seq<u8>
    decreases n,
{
    if n == 0 {
        crate::adaptive_ir::zeros(w * h * 4)
    } else {
        let f = frames[n - 1];
        crate::adaptive_ir::composited(
            path_a_replay(frames, (n - 1) as nat, w, h),
            w,
            h,
            f.pixels@,
            f.width as int,
            f.height as int,
            f.left as int,
            f.top as int,
        )
    }
}

/// Drawing a full-canvas opaque frame over any canvas of its size gives the frame.
proof fn lemma_full_frame_rebuilds(pre: Seq<u8>, curr: Seq<u8>, w: int, h: int)
    requires
        pre.len() == curr.len(),
        curr.len() == w * h * 4,
        w > 0,
        h > 0,
        all_opaque(curr),
    ensures
        crate::adaptive_ir::composited(pre, w, h, curr, w, h, 0, 0) == curr,
{
    assert forall|i: int|
        0 <= i < curr.len() && #[trigger] crate::adaptive_ir::byte_in_region(i, w, h, 0, 0, w, h) implies {
            let base = crate::adaptive_ir::frame_byte_base(i, w, w, 0, 0);
            &&& curr[base + i % 4] == curr[i]
            &&& curr[base + 3] == 255
        } by {
        let p = i / 4;
        crate::spec_util::lemma_grid_coords(p, w, h);
        assert(crate::adaptive_ir::frame_byte_base(i, w, w, 0, 0) == p * 4);
        assert(i == p * 4 + i % 4);
        assert(curr[p * 4 + 3] == 255);
    }
    assert forall|i: int|
        0 <= i < curr.len() && !#[trigger] crate::adaptive_ir::byte_in_region(i, w, h, 0, 0, w, h)
            implies pre[i] == curr[i] by {
        let p = i / 4;
        crate::spec_util::lemma_grid_coords(p, w, h);
    }
    lemma_composite_rebuilds(pre, curr, w, h, curr, w, h, 0, 0);
}

/// Path A rebuilds every canvas: drawing its frames in order onto a
/// transparent canvas gives each displayed canvas in turn, when the
/// canvases are fully opaque. (The frames are those `optimize_path_a`
/// returns: the first canvas whole, then a Path A frame per canvas.)
pub proof fn law_path_a_rebuilds_canvases(
    frames: Seq<PathAFrame>,
    canvases: Seq<Canvas>,
    delays: Seq<Duration>,
    threshold: int,
)
    requires
        canvases.len() > 0,
        frames.len() == canvases.len(),
        delays.len() == canvases.len(),
        canvases_uniform(canvases),
        canvases[0].width as int * canvases[0].height as int > 0,
        frames[0].pixels@ == canvases[0]@.pixels,
        frames[0].left == 0 && frames[0].top == 0,
        frames[0].width == canvases[0].width && frames[0].height == canvases[0].height,
        forall|i: int| 1 <= i < canvases.len() ==> is_path_a_frame(
            #[trigger] frames[i],
            canvases[i - 1]@,
            canvases[i]@,
            delays[i],
            threshold,
        ),
        forall|i: int| 0 <= i < canvases.len() ==> all_opaque((#[trigger] canvases[i])@.pixels),
    ensures
        forall|i: int|
            0 <= i < canvases.len() ==> path_a_replay(
                frames,
                (i + 1) as nat,
                canvases[0].width as int,
                canvases[0].height as int,
            ) == (#[trigger] canvases[i])@.pixels,
{
    let w = canvases[0].width as int;
    let h = canvases[0].height as int;
    assert(canvases[0]@.wf());
    assert forall|i: int| 0 <= i < canvases.len() implies path_a_replay(frames, (i + 1) as nat, w, h)
        == (#[trigger] canvases[i])@.pixels by {
        lemma_path_a_replay_prefix(frames, canvases, delays, threshold, i);
    }
}

/// The replay of the first `i + 1` frames is canvas `i`.
proof fn lemma_path_a_replay_prefix(
    frames: Seq<PathAFrame>,
    canvases: Seq<Canvas>,
    delays: Seq<Duration>,
    threshold: int,
    i: int,
)
    requires
        0 <= i < canvases.len(),
        frames.len() == canvases.len(),
        delays.len() == canvases.len(),
        canvases_uniform(canvases),
        canvases[0].width as int * canvases[0].height as int > 0,
        frames[0].pixels@ == canvases[0]@.pixels,
        frames[0].left == 0 && frames[0].top == 0,
        frames[0].width == canvases[0].width && frames[0].height == canvases[0].height,
        forall|k: int| 1 <= k < canvases.len() ==> is_path_a_frame(
            #[trigger] frames[k],
            canvases[k - 1]@,
            canvases[k]@,
            delays[k],
            threshold,
        ),
        forall|k: int| 0 <= k < canvases.len() ==> all_opaque((#[trigger] canvases[k])@.pixels),
    ensures
        path_a_replay(frames, (i + 1) as nat, canvases[0].width as int, canvases[0].height as int)
            == canvases[i]@.pixels,
    decreases i,
{
    let w = canvases[0].width as int;
    let h = canvases[0].height as int;
    let c0 = canvases[0]@;
    assert(c0.wf());
    assert(w > 0 && h > 0) by (nonlinear_arith)
        requires
            w * h > 0,
            w >= 0,
            h >= 0,
    ;
    if i == 0 {
        assert(all_opaque(c0.pixels));
        assert(path_a_replay(frames, 0, w, h).len() == w * h * 4);
        lemma_full_frame_rebuilds(path_a_replay(frames, 0, w, h), c0.pixels, w, h);
    } else {
        lemma_path_a_replay_prefix(frames, canvases, delays, threshold, i - 1);
        let prev = canvases[i - 1]@;
        let curr = canvases[i]@;
        assert(prev.wf() && curr.wf());
        assert(is_path_a_frame(frames[i], prev, curr, delays[i], threshold));
        assert(all_opaque(curr.pixels));
        assert(curr.pixels.len() >= 4) by (nonlinear_arith)
            requires
                curr.pixels.len() == w * h * 4,
                w > 0,
                h > 0,
        ;
        law_path_a_frame_rebuilds_canvas(frames[i], prev, curr, delays[i], threshold);
    }
}

} // verus!
