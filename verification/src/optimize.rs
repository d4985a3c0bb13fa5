//! Frame optimization: structural transparency optimization for GIF frames.
//!
//! Marks pixels that did not change as transparent to reduce file size.
//! `optimize` is lossless: it compares exactly and only ever clears alpha;
//! `O3` also crops each frame to the bounding box of its changed pixels.
//! `lossy(quality)` compares within a threshold that grows as the quality
//! falls, always cropping.
//!
//! Each frame is compared against the canvas it will be drawn on, obtained
//! by replaying the disposal of the frames before it. A frame identical to
//! that canvas collapses to a 1x1 transparent frame, but only when its
//! disposal leaves the canvas as displayed; background and previous
//! disposals change the canvas, so such frames are kept.

use vstd::prelude::*;
use rayon::iter::{IndexedParallelIterator, IntoParallelRefIterator, ParallelIterator};
use crate::adaptive_ir::{
    blend_channel, frame_byte_base, lemma_blend_bound, lemma_region_rows, lemma_region_step,
    region_done, visible_count, visible_extent, zeros,
};
use crate::analysis_kernels::{abs_diff, byte_diff};
use crate::decode::{duration_from_millis, millis_duration};
use crate::simd_opt::{DiffRect, diff_rect_spec, find_diff_bounding_box, marked_unchanged, mark_unchanged_pixels_simd, unchanged_at};
use crate::spec_util::{lemma_grid_index, lemma_mul_nonneg};
use crate::types::{DisposalMethod, Frame, FrameView, Gif, OptLevel, frames_view};

verus! {

/// Alpha of a partially transparent patch pixel drawn over a background alpha.
pub open spec fn patch_alpha_blend(a: u8, bg: u8) -> u8 {
    ((a as int * 255 + bg as int * (255 - a as int)) / 255) as u8
}

/// Byte `c` of the patch pixel at byte `fi` drawn over background byte `bg`:
/// a pixel missing from the patch buffer or fully transparent leaves the
/// background, an opaque one replaces it, a partially transparent one blends.
pub open spec fn over_byte_patch(patch: Seq<u8>, fi: int, c: int, bg: u8) -> u8 {
    if fi + 3 < patch.len() {
        let a = patch[fi + 3];
        if a == 0 {
            bg
        } else if a == 255 {
            patch[fi + c]
        } else if c < 3 {
            blend_channel(patch[fi + c], bg, a)
        } else {
            patch_alpha_blend(a, bg)
        }
    } else {
        bg
    }
}

/// The canvas after drawing the patch rows before `ry` (and the first `rx`
/// pixels of row `ry`) at `(left, top)`.
pub open spec fn patch_composited_upto(
    canvas: Seq<u8>,
    cw: int,
    ch: int,
    patch: Seq<u8>,
    pw: int,
    ph: int,
    left: int,
    top: int,
    ry: int,
    rx: int,
) -> Seq<u8> {
    Seq::new(
        canvas.len(),
        |i: int|
            if region_done(i, cw, ch, left, top, pw, ph, ry, rx) {
                over_byte_patch(patch, frame_byte_base(i, cw, pw, left, top), i % 4, canvas[i])
            } else {
                canvas[i]
            },
    )
}

/// The canvas after drawing the whole patch at `(left, top)`, clipped to the canvas.
pub open spec fn patch_composited(canvas: Seq<u8>, cw: int, ch: int, patch: Seq<u8>, pw: int, ph: int, left: int, top: int) -> Seq<u8> {
    patch_composited_upto(canvas, cw, ch, patch, pw, ph, left, top, ph, 0)
}

/// The canvas frame `base` with the patch frame drawn onto it.
pub open spec fn composite_onto_spec(base: FrameView, patch: FrameView, cw: u16, ch: u16) -> FrameView {
    FrameView {
        pixels: patch_composited(
            base.pixels,
            cw as int,
            ch as int,
            patch.pixels,
            patch.width as int,
            patch.height as int,
            patch.left as int,
            patch.top as int,
        ),
        ..base
    }
}

/// A fully transparent full-canvas frame.
pub open spec fn transparent_frame(w: u16, h: u16) -> FrameView {
    FrameView {
        pixels: zeros(w as int * h as int * 4),
        delay: millis_duration(0),
        dispose: DisposalMethod::Keep,
        local_palette: None,
        left: 0,
        top: 0,
        width: w,
        height: h,
    }
}

/// Check if two pixels are similar within threshold (per-channel).
pub fn pixels_similar(a: &[u8; 4], b: &[u8; 4], threshold: u8) -> (r: bool)
    ensures
        r == (byte_diff(a[0], b[0]) <= threshold && byte_diff(a[1], b[1]) <= threshold && byte_diff(a[2], b[2])
            <= threshold && byte_diff(a[3], b[3]) <= threshold),
{
    abs_diff(a[0], b[0]) <= threshold && abs_diff(a[1], b[1]) <= threshold && abs_diff(a[2], b[2])
        <= threshold && abs_diff(a[3], b[3]) <= threshold
}

/// Weighted RGB distance, alpha ignored: `(3 dr + 5 dg + 2 db) / 10`.
pub open spec fn weighted_distance(a: [u8; 4], b: [u8; 4]) -> int {
    (byte_diff(a[0], b[0]) * 3 + byte_diff(a[1], b[1]) * 5 + byte_diff(a[2], b[2]) * 2) / 10
}

/// Check if two colors are similar using a perceptual distance weighting
/// green most, then red, then blue.
pub fn colors_similar(a: &[u8; 4], b: &[u8; 4], threshold: u8) -> (r: bool)
    ensures
        r == (weighted_distance(*a, *b) <= threshold),
{
    let dr = abs_diff(a[0], b[0]) as u32;
    let dg = abs_diff(a[1], b[1]) as u32;
    let db = abs_diff(a[2], b[2]) as u32;
    let weighted = (dr * 3 + dg * 5 + db * 2) / 10;
    weighted <= threshold as u32
}

/// Create a transparent canvas frame with the given dimensions.
pub fn create_transparent_canvas(width: u16, height: u16) -> (r: Frame)
    requires
        width as int * height as int * 4 <= usize::MAX,
    ensures
        r@ == transparent_frame(width, height),
{
    let size = (width as usize) * (height as usize) * 4;
    let mut pixels: Vec<u8> = Vec::new();
    let mut i: usize = 0;
    while i < size
        invariant
            i <= size,
            pixels@ == zeros(i as int),
        decreases size - i,
    {
        pixels.push(0u8);
        i += 1;
    }
    Frame {
        pixels,
        delay: duration_from_millis(0),
        dispose: DisposalMethod::Keep,
        local_palette: None,
        left: 0,
        top: 0,
        width,
        height,
    }
}

/// The pixel written when the patch pixel at byte `pi` is drawn over `bg`.
fn blend_patch_pixel(patch: &Vec<u8>, pi: usize, bg: [u8; 4]) -> (out: [u8; 4])
    requires
        pi + 3 < patch@.len(),
    ensures
        out[0] == over_byte_patch(patch@, pi as int, 0, bg[0]),
        out[1] == over_byte_patch(patch@, pi as int, 1, bg[1]),
        out[2] == over_byte_patch(patch@, pi as int, 2, bg[2]),
        out[3] == over_byte_patch(patch@, pi as int, 3, bg[3]),
{
    let _len = patch.len();
    let a = patch[pi + 3];
    if a == 0 {
        bg
    } else if a == 255 {
        [patch[pi], patch[pi + 1], patch[pi + 2], a]
    } else {
        let pr = patch[pi];
        let pg = patch[pi + 1];
        let pb = patch[pi + 2];
        proof {
            lemma_blend_bound(pr as int, bg[0] as int, a as int);
            lemma_blend_bound(pg as int, bg[1] as int, a as int);
            lemma_blend_bound(pb as int, bg[2] as int, a as int);
            lemma_blend_bound(255, bg[3] as int, a as int);
        }
        let pa = a as u16;
        let inv = 255 - pa;
        let out_r = ((pr as u16 * pa + bg[0] as u16 * inv) / 255) as u8;
        let out_g = ((pg as u16 * pa + bg[1] as u16 * inv) / 255) as u8;
        let out_b = ((pb as u16 * pa + bg[2] as u16 * inv) / 255) as u8;
        assert(pa * 255 == 255 * pa) by (nonlinear_arith);
        let out_a = ((pa * 255 + bg[3] as u16 * inv) / 255) as u8;
        [out_r, out_g, out_b, out_a]
    }
}

/// Composite a patch frame onto a full canvas frame: each patch pixel that
/// lies on the canvas and in the patch buffer is drawn over the canvas pixel
/// (opaque replaces, partially transparent blends, transparent is skipped).
pub fn composite_frame_onto_canvas(base_canvas: &Frame, patch: &Frame, canvas_width: u16, canvas_height: u16) -> (r: Frame)
    requires
        base_canvas@.pixels.len() >= canvas_width as int * canvas_height as int * 4,
    ensures
        r@ == composite_onto_spec(base_canvas@, patch@, canvas_width, canvas_height),
{
    let mut result = base_canvas.duplicate();
    let ghost orig = result.pixels@;
    let ghost pp = patch.pixels@;
    let cw = canvas_width;
    let ch = canvas_height;
    let pw = patch.width;
    let ph = patch.height;
    let pl = patch.left;
    let pt = patch.top;
    let rows = visible_count(pt, ph, ch);
    let cols = visible_count(pl, pw, cw);
    let plen = patch.pixels.len();
    let rlen = result.pixels.len();
    let mut y: u16 = 0;
    while y < rows
        invariant
            y <= rows,
            rows == visible_extent(pt as int, ph as int, ch as int),
            cols == visible_extent(pl as int, pw as int, cw as int),
            pp == patch.pixels@,
            plen == pp.len(),
            rlen == orig.len(),
            orig.len() >= cw as int * ch as int * 4,
            result@ == (FrameView { pixels: result.pixels@, ..base_canvas@ }),
            result.pixels@ == patch_composited_upto(orig, cw as int, ch as int, pp, pw as int, ph as int, pl as int, pt as int, y as int, 0),
        decreases rows - y,
    {
        let mut x: u16 = 0;
        while x < cols
            invariant
                y < rows,
                x <= cols,
                rows == visible_extent(pt as int, ph as int, ch as int),
                cols == visible_extent(pl as int, pw as int, cw as int),
                pp == patch.pixels@,
                plen == pp.len(),
                rlen == orig.len(),
                orig.len() >= cw as int * ch as int * 4,
                result@ == (FrameView { pixels: result.pixels@, ..base_canvas@ }),
                result.pixels@ == patch_composited_upto(orig, cw as int, ch as int, pp, pw as int, ph as int, pl as int, pt as int, y as int, x as int),
            decreases cols - x,
        {
            let cy = pt + y;
            let cx = pl + x;
            proof {
                lemma_grid_index(cx as int, cy as int, cw as int, ch as int);
            }
            assert((y as u64) * (pw as u64) <= 65535 * 65535) by (nonlinear_arith)
                requires
                    y <= 65535,
                    pw <= 65535,
            ;
            let patch_idx: u64 = ((y as u64) * (pw as u64) + (x as u64)) * 4;
            let canvas_idx: usize = ((cy as usize) * (cw as usize) + (cx as usize)) * 4;
            let ghost before = result.pixels@;
            if patch_idx + 3 < plen as u64 && canvas_idx + 3 < rlen {
                let pi = patch_idx as usize;
                let bg = [
                    result.pixels[canvas_idx],
                    result.pixels[canvas_idx + 1],
                    result.pixels[canvas_idx + 2],
                    result.pixels[canvas_idx + 3],
                ];
                let out = blend_patch_pixel(&patch.pixels, pi, bg);
                result.pixels.set(canvas_idx, out[0]);
                result.pixels.set(canvas_idx + 1, out[1]);
                result.pixels.set(canvas_idx + 2, out[2]);
                result.pixels.set(canvas_idx + 3, out[3]);
            }
            proof {
                let base = (cy as int * cw as int + cx as int) * 4;
                assert(base == canvas_idx);
                assert forall|i: int| 0 <= i < orig.len() implies #[trigger] result.pixels@[i]
                    == patch_composited_upto(orig, cw as int, ch as int, pp, pw as int, ph as int, pl as int, pt as int, y as int, x + 1)[i] by {
                    lemma_region_step(i, cw as int, ch as int, pl as int, pt as int, pw as int, ph as int, y as int, x as int);
                    if i / 4 == cy as int * cw as int + cx as int {
                        assert(base <= i < base + 4);
                        assert(i % 4 == i - base);
                        assert(before[i] == orig[i]);
                    }
                }
                assert(result.pixels@ =~= patch_composited_upto(orig, cw as int, ch as int, pp, pw as int, ph as int, pl as int, pt as int, y as int, x + 1));
            }
            x += 1;
        }
        proof {
            assert forall|i: int| 0 <= i < orig.len() implies patch_composited_upto(orig, cw as int, ch as int, pp, pw as int, ph as int, pl as int, pt as int, y as int, cols as int)[i]
                == #[trigger] patch_composited_upto(orig, cw as int, ch as int, pp, pw as int, ph as int, pl as int, pt as int, y + 1, 0)[i] by {
                lemma_region_rows(i, cw as int, ch as int, pl as int, pt as int, pw as int, ph as int, y as int);
            }
            assert(result.pixels@ =~= patch_composited_upto(orig, cw as int, ch as int, pp, pw as int, ph as int, pl as int, pt as int, y + 1, 0));
        }
        y += 1;
    }
    proof {
        assert forall|i: int| 0 <= i < orig.len() implies #[trigger] result.pixels@[i]
            == patch_composited(orig, cw as int, ch as int, pp, pw as int, ph as int, pl as int, pt as int)[i] by {
            lemma_region_rows(i, cw as int, ch as int, pl as int, pt as int, pw as int, ph as int, y as int);
        }
        assert(result.pixels@ =~= patch_composited(orig, cw as int, ch as int, pp, pw as int, ph as int, pl as int, pt as int));
    }
    result
}

/// The frame is placed anywhere but exactly over the whole canvas.
pub open spec fn is_subframe(f: FrameView, cw: u16, ch: u16) -> bool {
    f.left != 0 || f.top != 0 || f.width != cw || f.height != ch
}

/// The canvas frame, or a transparent canvas when there is none yet.
pub open spec fn or_transparent(d: Option<FrameView>, cw: u16, ch: u16) -> FrameView {
    match d {
        Some(f) => f,
        None => transparent_frame(cw, ch),
    }
}

/// The view of an optional frame.
pub open spec fn frame_opt_view(d: Option<Frame>) -> Option<FrameView> {
    match d {
        Some(f) => Some(f@),
        None => None,
    }
}

/// The displayed canvas once the first `n` frames have been drawn and
/// disposed: a keep-like frame leaves itself on the canvas (a subframe
/// composited onto it), background clears the canvas, previous restores the
/// canvas the frame was drawn on.
pub open spec fn displayed_after(frames: Seq<FrameView>, n: nat, cw: u16, ch: u16) -> Option<FrameView>
    decreases n,
{
    if n == 0 {
        None
    } else {
        let base = or_transparent(displayed_after(frames, (n - 1) as nat, cw, ch), cw, ch);
        let f = frames[n - 1];
        match f.dispose {
            DisposalMethod::Background => Some(transparent_frame(cw, ch)),
            DisposalMethod::Previous => Some(base),
            _ => if is_subframe(f, cw, ch) {
                Some(composite_onto_spec(base, f, cw, ch))
            } else {
                Some(f)
            },
        }
    }
}

/// The canvas frame `i` is drawn on: transparent for the first frame.
pub open spec fn reference_spec(frames: Seq<FrameView>, i: int, cw: u16, ch: u16) -> FrameView {
    if i == 0 {
        transparent_frame(cw, ch)
    } else {
        or_transparent(displayed_after(frames, i as nat, cw, ch), cw, ch)
    }
}

/// Every frame holds at least its declared pixels.
pub open spec fn frames_hold_pixels(frames: Seq<Frame>) -> bool {
    forall|i: int| 0 <= i < frames.len() ==> (#[trigger] frames[i])@.holds_pixels()
}

/// A copy of an optional frame.
fn duplicate_opt(d: &Option<Frame>) -> (r: Option<Frame>)
    ensures
        frame_opt_view(r) == frame_opt_view(*d),
{
    match d {
        Some(f) => Some(f.duplicate()),
        None => None,
    }
}

/// The canvas frame, or a new transparent canvas when there is none yet.
fn current_or_transparent(d: &Option<Frame>, cw: u16, ch: u16) -> (r: Frame)
    requires
        cw as int * ch as int * 4 <= usize::MAX,
    ensures
        r@ == or_transparent(frame_opt_view(*d), cw, ch),
{
    match d {
        Some(f) => f.duplicate(),
        None => create_transparent_canvas(cw, ch),
    }
}

/// Precompute, for every frame, the canvas it is drawn on, by replaying the
/// disposal of the frames before it.
pub fn precompute_reference_canvases(frames: &[Frame], canvas_width: u16, canvas_height: u16) -> (r: Vec<Frame>)
    requires
        canvas_width as int * canvas_height as int * 4 <= usize::MAX,
        frames_hold_pixels(frames@),
    ensures
        r@.len() == frames@.len(),
        forall|i: int|
            0 <= i < frames@.len() ==> (#[trigger] r@[i])@ == reference_spec(frames_view(frames@), i, canvas_width, canvas_height),
{
    let ghost fv = frames_view(frames@);
    let cw = canvas_width;
    let ch = canvas_height;
    let mut references: Vec<Frame> = Vec::new();
    let mut displayed: Option<Frame> = None;
    let n = frames.len();
    let mut idx: usize = 0;
    while idx < n
        invariant
            n == frames@.len(),
            fv == frames_view(frames@),
            idx <= n,
            cw as int * ch as int * 4 <= usize::MAX,
            frames_hold_pixels(frames@),
            frame_opt_view(displayed) == displayed_after(fv, idx as nat, cw, ch),
            or_transparent(frame_opt_view(displayed), cw, ch).pixels.len() >= cw as int * ch as int * 4,
            references@.len() == idx,
            forall|i: int| 0 <= i < idx ==> (#[trigger] references@[i])@ == reference_spec(fv, i, cw, ch),
        decreases n - idx,
    {
        let frame = &frames[idx];
        assert(frame@ == fv[idx as int]);
        assert(frame@.holds_pixels());
        if idx == 0 {
            references.push(create_transparent_canvas(cw, ch));
        } else {
            references.push(current_or_transparent(&displayed, cw, ch));
        }
        let base = current_or_transparent(&displayed, cw, ch);
        match frame.dispose {
            DisposalMethod::Background => {
                displayed = Some(create_transparent_canvas(cw, ch));
            },
            DisposalMethod::Previous => {
                displayed = Some(base);
            },
            _ => {
                let is_sub = frame.left != 0 || frame.top != 0 || frame.width != cw || frame.height != ch;
                if is_sub {
                    displayed = Some(composite_frame_onto_canvas(&base, frame, cw, ch));
                } else {
                    displayed = Some(frame.duplicate());
                }
            },
        }
        idx += 1;
    }
    references
}

/// Byte `i` of the `rw`-wide rectangle at `(left, top)` cut from a buffer
/// whose rows are `sw` pixels wide; bytes of pixels past the end of the
/// buffer are zero.
pub open spec fn rect_byte(src: Seq<u8>, sw: int, left: int, top: int, rw: int, i: int) -> u8 {
    let p = i / 4;
    let idx = ((top + p / rw) * sw + left + p % rw) * 4;
    if idx + 3 < src.len() {
        src[idx + i % 4]
    } else {
        0u8
    }
}

/// The `rw x rh` rectangle at `(left, top)`, row by row.
pub open spec fn rect_pixels(src: Seq<u8>, sw: int, left: int, top: int, rw: int, rh: int) -> Seq<u8> {
    Seq::new((rw * rh * 4) as nat, |i: int| rect_byte(src, sw, left, top, rw, i))
}

/// Copy the `rw x rh` rectangle at `(left, top)` out of a buffer whose rows
/// are `sw` pixels wide, zero-filling pixels past the end of the buffer.
pub fn copy_rect(src: &Vec<u8>, sw: u16, left: u16, top: u16, rw: u16, rh: u16) -> (r: Vec<u8>)
    ensures
        r@ == rect_pixels(src@, sw as int, left as int, top as int, rw as int, rh as int),
{
    let ghost s = src@;
    let slen = src.len();
    let mut out: Vec<u8> = Vec::new();
    let mut y: u16 = 0;
    while y < rh
        invariant
            s == src@,
            slen == s.len(),
            y <= rh,
            out@.len() == y as int * rw as int * 4,
            forall|i: int| 0 <= i < out@.len() ==> #[trigger] out@[i] == rect_byte(s, sw as int, left as int, top as int, rw as int, i),
        decreases rh - y,
    {
        let mut x: u16 = 0;
        while x < rw
            invariant
                s == src@,
                slen == s.len(),
                y < rh,
                x <= rw,
                out@.len() == (y as int * rw as int + x as int) * 4,
                forall|i: int| 0 <= i < out@.len() ==> #[trigger] out@[i] == rect_byte(s, sw as int, left as int, top as int, rw as int, i),
            decreases rw - x,
        {
            let ghost k = y as int * rw as int + x as int;
            let ghost before = out@;
            proof {
                lemma_grid_index(x as int, y as int, rw as int, rh as int);
            }
            let row = top as u64 + y as u64;
            assert(row * (sw as u64) <= 131070 * 65535) by (nonlinear_arith)
                requires
                    row <= 131070,
                    sw <= 65535,
            ;
            let idx: u64 = (row * (sw as u64) + left as u64 + x as u64) * 4;
            if idx + 3 < slen as u64 {
                let i = idx as usize;
                out.push(src[i]);
                out.push(src[i + 1]);
                out.push(src[i + 2]);
                out.push(src[i + 3]);
            } else {
                out.push(0u8);
                out.push(0u8);
                out.push(0u8);
                out.push(0u8);
            }
            proof {
                assert forall|i: int| 0 <= i < out@.len() implies #[trigger] out@[i] == rect_byte(s, sw as int, left as int, top as int, rw as int, i) by {
                    if i >= k * 4 {
                        assert(i / 4 == k);
                        assert(i % 4 == i - k * 4);
                    } else {
                        assert(out@[i] == before[i]);
                    }
                }
                assert(out@.len() == (y as int * rw as int + (x + 1) as int) * 4);
            }
            x += 1;
        }
        assert(y as int * rw as int + rw as int == (y + 1) as int * rw as int) by (nonlinear_arith);
        y += 1;
    }
    assert(rh as int * rw as int == rw as int * rh as int) by (nonlinear_arith);
    assert(out@ =~= rect_pixels(s, sw as int, left as int, top as int, rw as int, rh as int));
    out
}

/// A 1x1 transparent frame with the frame's timing and disposal.
pub open spec fn collapsed_frame(frame: FrameView) -> FrameView {
    FrameView {
        pixels: seq![0u8, 0u8, 0u8, 0u8],
        delay: frame.delay,
        dispose: frame.dispose,
        local_palette: None,
        left: 0,
        top: 0,
        width: 1,
        height: 1,
    }
}

/// The disposal leaves the canvas as displayed.
pub open spec fn keeps_canvas(d: DisposalMethod) -> bool {
    d == DisposalMethod::Keep || d == DisposalMethod::Any
}

/// The changed rectangle of a frame, cut out of it with unchanged pixels
/// made transparent. Both frames are read with the frame's row width.
pub open spec fn extract_spec(frame: FrameView, prev: FrameView, r: DiffRect, t: u8) -> FrameView {
    let w = frame.width as int;
    FrameView {
        pixels: marked_unchanged(
            rect_pixels(frame.pixels, w, r.left as int, r.top as int, r.width as int, r.height as int),
            rect_pixels(prev.pixels, w, r.left as int, r.top as int, r.width as int, r.height as int),
            t,
        ),
        delay: frame.delay,
        dispose: frame.dispose,
        local_palette: None,
        left: r.left,
        top: r.top,
        width: r.width,
        height: r.height,
    }
}

/// Length of the common prefix of two buffers.
pub open spec fn common_len(a: Seq<u8>, b: Seq<u8>) -> int {
    if a.len() <= b.len() { a.len() as int } else { b.len() as int }
}

/// The buffer with unchanged pixels marked transparent over the prefix both
/// buffers hold, when that prefix is a whole, nonzero number of pixels;
/// the buffer as it is otherwise.
pub open spec fn marked_prefix(curr: Seq<u8>, prev: Seq<u8>, t: u8) -> Seq<u8> {
    let m = common_len(curr, prev);
    if m >= 4 && m % 4 == 0 {
        Seq::new(curr.len(), |i: int| if i < m && i % 4 == 3 && unchanged_at(curr, prev, t, i / 4) { 0u8 } else { curr[i] })
    } else {
        curr
    }
}

/// Mark transparent the unchanged pixels of the prefix both buffers hold
/// (when it is a whole, nonzero number of pixels).
fn mark_unchanged_prefix(curr: &mut Vec<u8>, prev: &[u8], threshold: u8)
    ensures
        final(curr)@ == marked_prefix(old(curr)@, prev@, threshold),
{
    let ghost orig = curr@;
    let len = curr.len();
    let m = if len <= prev.len() { len } else { prev.len() };
    if m < 4 || m % 4 != 0 {
        return;
    }
    let n = m / 4;
    let mut p: usize = 0;
    while p < n
        invariant
            len == orig.len(),
            m == common_len(orig, prev@),
            m % 4 == 0,
            n == m / 4,
            p <= n,
            curr@.len() == orig.len(),
            forall|i: int|
                0 <= i < orig.len() ==> #[trigger] curr@[i] == if i < p * 4 && i % 4 == 3 && unchanged_at(orig, prev@, threshold, i / 4) {
                    0u8
                } else {
                    orig[i]
                },
        decreases n - p,
    {
        let i = p * 4;
        let changed = abs_diff(prev[i], curr[i]) > threshold || abs_diff(prev[i + 1], curr[i + 1]) > threshold
            || abs_diff(prev[i + 2], curr[i + 2]) > threshold || abs_diff(prev[i + 3], curr[i + 3]) > threshold;
        assert(curr@[i as int] == orig[i as int] && curr@[i + 1] == orig[i + 1] && curr@[i + 2] == orig[i + 2]
            && curr@[i + 3] == orig[i + 3]);
        assert(changed == !unchanged_at(orig, prev@, threshold, p as int));
        if !changed {
            curr.set(i + 3, 0);
        }
        p += 1;
    }
    assert(curr@ =~= marked_prefix(orig, prev@, threshold));
}

/// The two frames have the same placement and size.
pub open spec fn aligned(frame: FrameView, prev: FrameView) -> bool {
    frame.width == prev.width && frame.height == prev.height && frame.left == prev.left && frame.top == prev.top
}

/// Both frames lie at the origin and have the same size.
pub open spec fn at_origin_same_size(frame: FrameView, prev: FrameView) -> bool {
    frame.left == 0 && frame.top == 0 && prev.left == 0 && prev.top == 0 && frame.width == prev.width
        && frame.height == prev.height
}

/// A frame compared with the canvas under it when both have the same
/// placement: unchanged unless aligned; collapsed to 1x1 when identical and
/// its disposal keeps the canvas (kept as is otherwise); else cropped to the
/// changed rectangle or marked in full, unchanged pixels made transparent.
pub open spec fn optimize_aligned_spec(frame: FrameView, prev: FrameView, t: u8, crop: bool) -> FrameView {
    if frame.width != prev.width || frame.height != prev.height || frame.left != prev.left || frame.top != prev.top {
        frame
    } else {
        match diff_rect_spec(prev.pixels, frame.pixels, frame.width as int, frame.height as int, t) {
            None => if keeps_canvas(frame.dispose) {
                collapsed_frame(frame)
            } else {
                frame
            },
            Some(r) => if crop {
                extract_spec(frame, prev, r, t)
            } else {
                FrameView { pixels: marked_prefix(frame.pixels, prev.pixels, t), ..frame }
            },
        }
    }
}

/// The 1x1 transparent frame keeping the frame's timing and disposal.
fn collapse(frame: &Frame) -> (r: Frame)
    ensures
        r@ == collapsed_frame(frame@),
{
    let pixels = vec![0u8, 0u8, 0u8, 0u8];
    assert(pixels@ =~= seq![0u8, 0u8, 0u8, 0u8]);
    Frame { pixels, delay: frame.delay, dispose: frame.dispose, local_palette: None, left: 0, top: 0, width: 1, height: 1 }
}

/// Extract the changed rectangle of a frame and mark its unchanged pixels transparent.
pub fn extract_and_optimize_subframe(frame: &Frame, prev_frame: &Frame, diff_rect: &DiffRect, threshold: u8) -> (r: Frame)
    ensures
        r@ == extract_spec(frame@, prev_frame@, *diff_rect, threshold),
{
    let mut new_pixels = copy_rect(&frame.pixels, frame.width, diff_rect.left, diff_rect.top, diff_rect.width, diff_rect.height);
    let prev_pixels = copy_rect(&prev_frame.pixels, frame.width, diff_rect.left, diff_rect.top, diff_rect.width, diff_rect.height);
    mark_unchanged_pixels_simd(&mut new_pixels, prev_pixels.as_slice(), threshold);
    Frame {
        pixels: new_pixels,
        delay: frame.delay,
        dispose: frame.dispose,
        local_palette: None,
        left: diff_rect.left,
        top: diff_rect.top,
        width: diff_rect.width,
        height: diff_rect.height,
    }
}

/// Optimize a frame against the canvas under it (same placement expected).
pub fn optimize_frame_internal(frame: &Frame, prev_frame: &Frame, threshold: u8, crop_to_bbox: bool) -> (r: Frame)
    requires
        aligned(frame@, prev_frame@) ==> frame@.holds_pixels() && prev_frame@.holds_pixels(),
    ensures
        r@ == optimize_aligned_spec(frame@, prev_frame@, threshold, crop_to_bbox),
{
    if frame.width != prev_frame.width || frame.height != prev_frame.height || frame.left != prev_frame.left
        || frame.top != prev_frame.top {
        return frame.duplicate();
    }
    let width = frame.width as usize;
    let height = frame.height as usize;
    let diff_rect = match find_diff_bounding_box(prev_frame.pixels.as_slice(), frame.pixels.as_slice(), width, height, threshold) {
        Some(rect) => rect,
        None => {
            match frame.dispose {
                DisposalMethod::Keep | DisposalMethod::Any => {
                    return collapse(frame);
                },
                DisposalMethod::Background | DisposalMethod::Previous => {
                    return frame.duplicate();
                },
            }
        },
    };
    if crop_to_bbox {
        extract_and_optimize_subframe(frame, prev_frame, &diff_rect, threshold)
    } else {
        let mut optimized = frame.duplicate();
        mark_unchanged_prefix(&mut optimized.pixels, prev_frame.pixels.as_slice(), threshold);
        optimized
    }
}

/// The larger of two values.
pub open spec fn max_u16(a: u16, b: u16) -> u16 {
    if a >= b { a } else { b }
}

/// The smaller of two values.
pub open spec fn min_int(a: int, b: int) -> int {
    if a <= b { a } else { b }
}

/// Left edge of the overlap of two frames.
pub open spec fn overlap_left(f: FrameView, p: FrameView) -> int {
    max_u16(f.left, p.left) as int
}

/// Top edge of the overlap of two frames.
pub open spec fn overlap_top(f: FrameView, p: FrameView) -> int {
    max_u16(f.top, p.top) as int
}

/// Right edge (exclusive) of the overlap of two frames.
pub open spec fn overlap_right(f: FrameView, p: FrameView) -> int {
    min_int(f.left + f.width, p.left + p.width)
}

/// Bottom edge (exclusive) of the overlap of two frames.
pub open spec fn overlap_bottom(f: FrameView, p: FrameView) -> int {
    min_int(f.top + f.height, p.top + p.height)
}

/// Pixel `q` of two equal-size buffers is within `t` in every channel.
pub open spec fn similar_at(a: Seq<u8>, b: Seq<u8>, q: int, t: u8) -> bool {
    byte_diff(a[q * 4], b[q * 4]) <= t && byte_diff(a[q * 4 + 1], b[q * 4 + 1]) <= t
        && byte_diff(a[q * 4 + 2], b[q * 4 + 2]) <= t && byte_diff(a[q * 4 + 3], b[q * 4 + 3]) <= t
}

/// Frame byte `i` after the overlap pixels before row `ry` (and the first
/// `rx` of row `ry`) that are similar in `fo` and `po` were made
/// transparent; the overlap starts at `(offx, offy)` in the frame.
pub open spec fn overlap_marked_byte(
    frame: Seq<u8>,
    fw: int,
    fo: Seq<u8>,
    po: Seq<u8>,
    offx: int,
    offy: int,
    ow: int,
    oh: int,
    t: u8,
    ry: int,
    rx: int,
    i: int,
) -> u8 {
    let p = i / 4;
    let x = p % fw - offx;
    let y = p / fw - offy;
    if i % 4 == 3 && 0 <= x < ow && 0 <= y < oh && (y < ry || (y == ry && x < rx)) && similar_at(fo, po, y * ow + x, t) {
        0u8
    } else {
        frame[i]
    }
}

/// The frame after marking transparent the overlap pixels similar in `fo` and `po`.
pub open spec fn overlap_marked(frame: Seq<u8>, fw: int, fo: Seq<u8>, po: Seq<u8>, offx: int, offy: int, ow: int, oh: int, t: u8) -> Seq<u8> {
    Seq::new(frame.len(), |i: int| overlap_marked_byte(frame, fw, fo, po, offx, offy, ow, oh, t, oh, 0, i))
}

/// A frame compared with the canvas under it over their overlapping area
/// only: unchanged when they do not overlap; collapsed to 1x1 when the
/// overlap is identical and the disposal keeps the canvas (kept as is
/// otherwise); else cropped to the changed part of the overlap, or marked
/// over the overlap, unchanged pixels made transparent.
pub open spec fn optimize_overlap_spec(frame: FrameView, prev: FrameView, t: u8, crop: bool) -> FrameView {
    let ol = overlap_left(frame, prev);
    let ot = overlap_top(frame, prev);
    let or = overlap_right(frame, prev);
    let ob = overlap_bottom(frame, prev);
    if ol >= or || ot >= ob {
        frame
    } else {
        let ow = or - ol;
        let oh = ob - ot;
        let fo = rect_pixels(frame.pixels, frame.width as int, ol - frame.left, ot - frame.top, ow, oh);
        let po = rect_pixels(prev.pixels, prev.width as int, ol - prev.left, ot - prev.top, ow, oh);
        match diff_rect_spec(po, fo, ow, oh, t) {
            None => if keeps_canvas(frame.dispose) {
                collapsed_frame(frame)
            } else {
                frame
            },
            Some(r) => if crop {
                FrameView {
                    pixels: marked_unchanged(
                        rect_pixels(fo, ow, r.left as int, r.top as int, r.width as int, r.height as int),
                        rect_pixels(po, ow, r.left as int, r.top as int, r.width as int, r.height as int),
                        t,
                    ),
                    delay: frame.delay,
                    dispose: frame.dispose,
                    local_palette: None,
                    left: (ol + r.left) as u16,
                    top: (ot + r.top) as u16,
                    width: r.width,
                    height: r.height,
                }
            } else {
                FrameView {
                    pixels: overlap_marked(frame.pixels, frame.width as int, fo, po, ol - frame.left, ot - frame.top, ow, oh, t),
                    ..frame
                }
            },
        }
    }
}

/// The frame's placement fits in `u16` coordinates.
pub open spec fn placement_fits(f: FrameView) -> bool {
    f.left + f.width <= u16::MAX && f.top + f.height <= u16::MAX
}

/// Make transparent every pixel of the overlap (at `(offx, offy)` in the
/// frame, `ow x oh`) that is similar in `fo` and `po` within `t`.
fn mark_overlap(
    pixels: &mut Vec<u8>,
    fw: u16,
    fh: u16,
    fo: &Vec<u8>,
    po: &Vec<u8>,
    offx: u16,
    offy: u16,
    ow: u16,
    oh: u16,
    t: u8,
)
    requires
        offx + ow <= fw,
        offy + oh <= fh,
        fo@.len() == ow as int * oh as int * 4,
        po@.len() == ow as int * oh as int * 4,
    ensures
        final(pixels)@ == overlap_marked(old(pixels)@, fw as int, fo@, po@, offx as int, offy as int, ow as int, oh as int, t),
{
    let ghost orig = pixels@;
    let len = pixels.len();
    let folen = fo.len();
    let mut y: u16 = 0;
    while y < oh
        invariant
            y <= oh,
            len == orig.len(),
            offx + ow <= fw,
            offy + oh <= fh,
            folen == fo@.len(),
            fo@.len() == ow as int * oh as int * 4,
            po@.len() == ow as int * oh as int * 4,
            pixels@ == Seq::new(orig.len(), |i: int| overlap_marked_byte(orig, fw as int, fo@, po@, offx as int, offy as int, ow as int, oh as int, t, y as int, 0, i)),
        decreases oh - y,
    {
        let mut x: u16 = 0;
        while x < ow
            invariant
                y < oh,
                x <= ow,
                len == orig.len(),
                offx + ow <= fw,
                offy + oh <= fh,
                folen == fo@.len(),
                fo@.len() == ow as int * oh as int * 4,
                po@.len() == ow as int * oh as int * 4,
                pixels@ == Seq::new(orig.len(), |i: int| overlap_marked_byte(orig, fw as int, fo@, po@, offx as int, offy as int, ow as int, oh as int, t, y as int, x as int, i)),
            decreases ow - x,
        {
            let fx = offx + x;
            let fy = offy + y;
            let ghost q = y as int * ow as int + x as int;
            let ghost p0 = fy as int * fw as int + fx as int;
            proof {
                lemma_grid_index(fx as int, fy as int, fw as int, fh as int);
                lemma_grid_index(x as int, y as int, ow as int, oh as int);
            }
            assert((fy as u64) * (fw as u64) <= 65535 * 65535) by (nonlinear_arith)
                requires
                    fy <= 65535,
                    fw <= 65535,
            ;
            let frame_idx64: u64 = ((fy as u64) * (fw as u64) + (fx as u64)) * 4;
            let overlap_idx: usize = ((y as usize) * (ow as usize) + (x as usize)) * 4;
            let ghost before = pixels@;
            let in_frame = frame_idx64 + 3 < len as u64;
            let frame_idx: usize = if in_frame { frame_idx64 as usize } else { 0 };
            let sim = if in_frame && overlap_idx + 3 < folen {
                pixels_similar(
                    &[fo[overlap_idx], fo[overlap_idx + 1], fo[overlap_idx + 2], fo[overlap_idx + 3]],
                    &[po[overlap_idx], po[overlap_idx + 1], po[overlap_idx + 2], po[overlap_idx + 3]],
                    t,
                )
            } else {
                false
            };
            assert(in_frame ==> sim == similar_at(fo@, po@, q, t));
            assert(frame_idx64 == p0 * 4);
            if sim {
                pixels.set(frame_idx + 3, 0);
            }
            proof {
                assert forall|i: int| 0 <= i < orig.len() implies #[trigger] pixels@[i] == overlap_marked_byte(orig, fw as int, fo@, po@, offx as int, offy as int, ow as int, oh as int, t, y as int, x + 1, i) by {
                    let p = i / 4;
                    if in_frame && i == frame_idx + 3 {
                        assert(p == p0);
                    } else {
                        let xx = p % (fw as int) - offx;
                        let yy = p / (fw as int) - offy;
                        if i % 4 == 3 && yy == y && xx == x {
                            vstd::arithmetic::div_mod::lemma_fundamental_div_mod(p, fw as int);
                            assert((fw as int) * (p / (fw as int)) == (p / (fw as int)) * (fw as int)) by (nonlinear_arith);
                            assert(p == p0);
                            assert(i == p * 4 + 3);
                        }
                        assert(pixels@[i] == before[i]);
                    }
                }
                assert(pixels@ =~= Seq::new(orig.len(), |i: int| overlap_marked_byte(orig, fw as int, fo@, po@, offx as int, offy as int, ow as int, oh as int, t, y as int, x + 1, i)));
            }
            x += 1;
        }
        assert(pixels@ =~= Seq::new(orig.len(), |i: int| overlap_marked_byte(orig, fw as int, fo@, po@, offx as int, offy as int, ow as int, oh as int, t, y + 1, 0, i)));
        y += 1;
    }
    assert(pixels@ =~= overlap_marked(orig, fw as int, fo@, po@, offx as int, offy as int, ow as int, oh as int, t));
}

/// Optimize a frame against the canvas under it over their overlapping area only.
pub fn optimize_subframe_overlapping(frame: &Frame, prev_frame: &Frame, threshold: u8, crop_to_bbox: bool) -> (r: Frame)
    requires
        placement_fits(frame@),
        placement_fits(prev_frame@),
    ensures
        r@ == optimize_overlap_spec(frame@, prev_frame@, threshold, crop_to_bbox),
{
    let ol = if frame.left >= prev_frame.left { frame.left } else { prev_frame.left };
    let ot = if frame.top >= prev_frame.top { frame.top } else { prev_frame.top };
    let fr = frame.left + frame.width;
    let pr = prev_frame.left + prev_frame.width;
    let fb = frame.top + frame.height;
    let pb = prev_frame.top + prev_frame.height;
    let or = if fr <= pr { fr } else { pr };
    let ob = if fb <= pb { fb } else { pb };
    if ol >= or || ot >= ob {
        return frame.duplicate();
    }
    let ow = or - ol;
    let oh = ob - ot;
    let frame_overlap = copy_rect(&frame.pixels, frame.width, ol - frame.left, ot - frame.top, ow, oh);
    let prev_overlap = copy_rect(&prev_frame.pixels, prev_frame.width, ol - prev_frame.left, ot - prev_frame.top, ow, oh);
    let diff_rect = match find_diff_bounding_box(prev_overlap.as_slice(), frame_overlap.as_slice(), ow as usize, oh as usize, threshold) {
        Some(rect) => rect,
        None => {
            match frame.dispose {
                DisposalMethod::Keep | DisposalMethod::Any => {
                    return collapse(frame);
                },
                DisposalMethod::Background | DisposalMethod::Previous => {
                    return frame.duplicate();
                },
            }
        },
    };
    if crop_to_bbox {
        let mut new_pixels = copy_rect(&frame_overlap, ow, diff_rect.left, diff_rect.top, diff_rect.width, diff_rect.height);
        let prev_pixels = copy_rect(&prev_overlap, ow, diff_rect.left, diff_rect.top, diff_rect.width, diff_rect.height);
        mark_unchanged_pixels_simd(&mut new_pixels, prev_pixels.as_slice(), threshold);
        Frame {
            pixels: new_pixels,
            delay: frame.delay,
            dispose: frame.dispose,
            local_palette: None,
            left: ol + diff_rect.left,
            top: ot + diff_rect.top,
            width: diff_rect.width,
            height: diff_rect.height,
        }
    } else {
        let mut optimized = frame.duplicate();
        mark_overlap(
            &mut optimized.pixels,
            frame.width,
            frame.height,
            &frame_overlap,
            &prev_overlap,
            ol - frame.left,
            ot - frame.top,
            ow,
            oh,
            threshold,
        );
        optimized
    }
}

/// A frame compared with the canvas under it: over the overlap when either
/// is offset or their sizes differ, directly otherwise.
pub open spec fn optimize_with_canvas_spec(frame: FrameView, prev: FrameView, t: u8, crop: bool) -> FrameView {
    if frame.left != 0 || frame.top != 0 || prev.left != 0 || prev.top != 0 || frame.width != prev.width
        || frame.height != prev.height {
        optimize_overlap_spec(frame, prev, t, crop)
    } else {
        optimize_aligned_spec(frame, prev, t, crop)
    }
}

/// Optimize a frame with canvas-aware subframe handling.
pub fn optimize_frame_internal_with_canvas(
    frame: &Frame,
    prev_frame: &Frame,
    threshold: u8,
    crop_to_bbox: bool,
    _canvas_width: u16,
    _canvas_height: u16,
) -> (r: Frame)
    requires
        at_origin_same_size(frame@, prev_frame@) ==> frame@.holds_pixels() && prev_frame@.holds_pixels(),
        placement_fits(frame@),
        placement_fits(prev_frame@),
    ensures
        r@ == optimize_with_canvas_spec(frame@, prev_frame@, threshold, crop_to_bbox),
{
    let frame_is_subframe = frame.left != 0 || frame.top != 0;
    let prev_is_subframe = prev_frame.left != 0 || prev_frame.top != 0;
    let different_dimensions = frame.width != prev_frame.width || frame.height != prev_frame.height;
    if frame_is_subframe || prev_is_subframe || different_dimensions {
        return optimize_subframe_overlapping(frame, prev_frame, threshold, crop_to_bbox);
    }
    optimize_frame_internal(frame, prev_frame, threshold, crop_to_bbox)
}

/// The canvas frames of the replay are full-canvas and hold every pixel.
pub open spec fn is_canvas_frame(f: FrameView, cw: u16, ch: u16) -> bool {
    &&& f.holds_pixels()
    &&& f.left == 0 && f.top == 0
    &&& f.width == cw && f.height == ch
}

/// Every canvas a frame is drawn on is a full-canvas frame holding every pixel.
pub proof fn lemma_reference_is_canvas(frames: Seq<FrameView>, n: nat, cw: u16, ch: u16)
    requires
        forall|i: int| 0 <= i < frames.len() ==> (#[trigger] frames[i]).holds_pixels(),
        n <= frames.len(),
    ensures
        is_canvas_frame(or_transparent(displayed_after(frames, n, cw, ch), cw, ch), cw, ch),
        is_canvas_frame(reference_spec(frames, n as int, cw, ch), cw, ch),
    decreases n,
{
    if n > 0 {
        lemma_reference_is_canvas(frames, (n - 1) as nat, cw, ch);
        assert(frames[n - 1].holds_pixels());
    }
}

/// Frame `i` optimized against the canvas `prev` it is drawn on; the first
/// frame is kept as it is.
pub open spec fn optimize_indexed_spec(i: int, frame: FrameView, prev: FrameView, t: u8, crop: bool, with_canvas: bool) -> FrameView {
    if i == 0 {
        frame
    } else if with_canvas {
        optimize_with_canvas_spec(frame, prev, t, crop)
    } else {
        optimize_aligned_spec(frame, prev, t, crop)
    }
}

/// The frame and its canvas meet what optimizing frame `i` needs.
pub open spec fn indexed_ready(i: int, frame: FrameView, prev: FrameView, with_canvas: bool) -> bool {
    i != 0 ==> {
        &&& frame.holds_pixels()
        &&& prev.holds_pixels()
        &&& with_canvas ==> placement_fits(frame) && placement_fits(prev)
    }
}

/// Optimize frame `idx` against the canvas it is drawn on.
pub fn optimize_indexed(idx: usize, frame: &Frame, prev_frame: &Frame, threshold: u8, crop_to_bbox: bool, with_canvas: bool, canvas_width: u16, canvas_height: u16) -> (r: Frame)
    requires
        indexed_ready(idx as int, frame@, prev_frame@, with_canvas),
    ensures
        r@ == optimize_indexed_spec(idx as int, frame@, prev_frame@, threshold, crop_to_bbox, with_canvas),
{
    if idx == 0 {
        frame.duplicate()
    } else if with_canvas {
        optimize_frame_internal_with_canvas(frame, prev_frame, threshold, crop_to_bbox, canvas_width, canvas_height)
    } else {
        optimize_frame_internal(frame, prev_frame, threshold, crop_to_bbox)
    }
}

/// `rayon`'s `par_iter().enumerate().map(..).collect()` over the frames:
/// each frame is optimized against its canvas by [`optimize_indexed`], in
/// parallel. The collected vector keeps the frames' order, as `rayon`
/// documents for indexed parallel iterators, so element `i` is the result
/// for frame `i`.
#[verifier::external_body]
fn par_optimize_frames(
    frames: &[Frame],
    references: &Vec<Frame>,
    threshold: u8,
    crop_to_bbox: bool,
    with_canvas: bool,
    canvas_width: u16,
    canvas_height: u16,
) -> (r: Vec<Frame>)
    requires
        references@.len() == frames@.len(),
        forall|i: int| 0 <= i < frames@.len() ==> indexed_ready(i, (#[trigger] frames@[i])@, references@[i]@, with_canvas),
    ensures
        r@.len() == frames@.len(),
        forall|i: int|
            0 <= i < frames@.len() ==> (#[trigger] r@[i])@ == optimize_indexed_spec(
                i,
                frames@[i]@,
                references@[i]@,
                threshold,
                crop_to_bbox,
                with_canvas,
            ),
{
    frames
        .par_iter()
        .enumerate()
        .map(|(idx, frame)| optimize_indexed(idx, frame, &references[idx], threshold, crop_to_bbox, with_canvas, canvas_width, canvas_height))
        .collect()
}

/// The frames optimized against the replayed canvases of a `cw x ch` canvas.
pub open spec fn optimized_frames_spec(frames: Seq<FrameView>, t: u8, crop: bool, with_canvas: bool, cw: u16, ch: u16) -> Seq<FrameView> {
    Seq::new(
        frames.len(),
        |i: int| optimize_indexed_spec(i, frames[i], reference_spec(frames, i, cw, ch), t, crop, with_canvas),
    )
}

/// The canvas the frames are replayed on when none is given: the first frame's size.
pub open spec fn inferred_canvas(frames: Seq<FrameView>) -> (u16, u16) {
    if frames.len() > 0 {
        (frames[0].width, frames[0].height)
    } else {
        (0, 0)
    }
}

/// Optimize frames against their replayed canvases, the canvas being the
/// first frame's size.
pub fn optimize_frames_internal(frames: &[Frame], threshold: u8, crop_to_bbox: bool) -> (r: Vec<Frame>)
    requires
        frames_hold_pixels(frames@),
    ensures
        frames_view(r@) == optimized_frames_spec(
            frames_view(frames@),
            threshold,
            crop_to_bbox,
            false,
            inferred_canvas(frames_view(frames@)).0,
            inferred_canvas(frames_view(frames@)).1,
        ),
{
    let (cw, ch) = if frames.len() > 0 {
        (frames[0].width, frames[0].height)
    } else {
        (0u16, 0u16)
    };
    if frames.len() > 0 {
        assert(frames@[0]@.holds_pixels());
        let _l = frames[0].pixels.len();
    }
    optimize_frames_on_canvas(frames, threshold, crop_to_bbox, false, cw, ch)
}

/// Optimize frames against their replayed canvases of the given size,
/// comparing over overlaps so that subframes are handled.
pub fn optimize_frames_internal_with_canvas(
    frames: &[Frame],
    threshold: u8,
    crop_to_bbox: bool,
    canvas_width: u16,
    canvas_height: u16,
) -> (r: Vec<Frame>)
    requires
        frames_hold_pixels(frames@),
        forall|i: int| 0 <= i < frames@.len() ==> placement_fits((#[trigger] frames@[i])@),
        canvas_width as int * canvas_height as int * 4 <= usize::MAX,
    ensures
        frames_view(r@) == optimized_frames_spec(frames_view(frames@), threshold, crop_to_bbox, true, canvas_width, canvas_height),
{
    optimize_frames_on_canvas(frames, threshold, crop_to_bbox, true, canvas_width, canvas_height)
}

/// Replay the canvases and optimize every frame against its canvas.
fn optimize_frames_on_canvas(frames: &[Frame], threshold: u8, crop_to_bbox: bool, with_canvas: bool, cw: u16, ch: u16) -> (r: Vec<Frame>)
    requires
        frames_hold_pixels(frames@),
        with_canvas ==> forall|i: int| 0 <= i < frames@.len() ==> placement_fits((#[trigger] frames@[i])@),
        cw as int * ch as int * 4 <= usize::MAX,
    ensures
        frames_view(r@) == optimized_frames_spec(frames_view(frames@), threshold, crop_to_bbox, with_canvas, cw, ch),
{
    let ghost fv = frames_view(frames@);
    let references = precompute_reference_canvases(frames, cw, ch);
    proof {
        assert forall|i: int| 0 <= i < frames@.len() implies indexed_ready(i, (#[trigger] frames@[i])@, references@[i]@, with_canvas) by {
            assert(fv[i] == frames@[i]@);
            lemma_reference_is_canvas(fv, i as nat, cw, ch);
        }
    }
    let r = par_optimize_frames(frames, &references, threshold, crop_to_bbox, with_canvas, cw, ch);
    proof {
        assert(frames_view(r@) =~= optimized_frames_spec(fv, threshold, crop_to_bbox, with_canvas, cw, ch)) by {
            assert forall|i: int| 0 <= i < frames@.len() implies frames_view(r@)[i] == optimized_frames_spec(fv, threshold, crop_to_bbox, with_canvas, cw, ch)[i] by {
                assert(fv[i] == frames@[i]@);
            }
        }
    }
    r
}

/// The threshold used by `lossy`: 0 at quality 100 (lossless) up to 20 at quality 0.
pub open spec fn lossy_threshold(quality: u8) -> u8 {
    let q = if quality > 100 { 100 } else { quality as int };
    ((100 - q) * 20 / 100) as u8
}

impl Gif {
    /// Optimize frames by marking unchanged pixels transparent.
    ///
    /// Every frame after the first is compared exactly with the canvas it is
    /// drawn on; unchanged pixels become transparent, color values never
    /// change. `O3` also crops each frame to its changed rectangle. An empty
    /// animation is returned as it is; otherwise the decode-time palette is
    /// dropped so that encoding re-quantizes.
    pub fn optimize(self, level: OptLevel) -> (r: Gif)
        requires
            frames_hold_pixels(self.frames@),
        ensures
            self.frames@.len() == 0 ==> r@ == self@,
            self.frames@.len() > 0 ==> r@ == (crate::types::GifView {
                frames: optimized_frames_spec(
                    self@.frames,
                    0,
                    level == OptLevel::O3,
                    false,
                    inferred_canvas(self@.frames).0,
                    inferred_canvas(self@.frames).1,
                ),
                original_palette: None,
                ..self@
            }),
    {
        if self.frames.len() == 0 {
            return self;
        }
        let crop_to_bbox = match level {
            OptLevel::O3 => true,
            _ => false,
        };
        let optimized_frames = optimize_frames_internal(self.frames.as_slice(), 0, crop_to_bbox);
        Gif {
            width: self.width,
            height: self.height,
            global_palette: self.global_palette,
            frames: optimized_frames,
            loop_count: self.loop_count,
            original_palette: None,
        }
    }

    /// Lossy compression: mark pixels within a perceptual threshold of the
    /// canvas they are drawn on as transparent, cropping every frame to its
    /// changed rectangle. Quality 100 is lossless (threshold 0); lower
    /// qualities raise the threshold up to 20. Subframes are compared over
    /// their overlap with the canvas.
    pub fn lossy(self, quality: u8) -> (r: Gif)
        requires
            frames_hold_pixels(self.frames@),
            forall|i: int| 0 <= i < self.frames@.len() ==> placement_fits((#[trigger] self.frames@[i])@),
            self.width as int * self.height as int * 4 <= usize::MAX,
        ensures
            self.frames@.len() == 0 ==> r@ == self@,
            self.frames@.len() > 0 ==> r@ == (crate::types::GifView {
                frames: optimized_frames_spec(self@.frames, lossy_threshold(quality), true, true, self.width, self.height),
                original_palette: None,
                ..self@
            }),
    {
        if self.frames.len() == 0 {
            return self;
        }
        let quality = if quality > 100 { 100u8 } else { quality };
        let threshold = ((100 - quality as u16) * 20 / 100) as u8;
        let lossy_frames = optimize_frames_internal_with_canvas(self.frames.as_slice(), threshold, true, self.width, self.height);
        Gif {
            width: self.width,
            height: self.height,
            global_palette: self.global_palette,
            frames: lossy_frames,
            loop_count: self.loop_count,
            original_palette: None,
        }
    }
}

/// `after` equals `before` except that some alpha bytes became 0.
pub open spec fn only_alpha_cleared(before: Seq<u8>, after: Seq<u8>) -> bool {
    &&& after.len() == before.len()
    &&& forall|j: int| 0 <= j < before.len() ==> #[trigger] after[j] == before[j] || (j % 4 == 3 && after[j] == 0)
}

/// Marking unchanged pixels only ever clears alpha bytes.
pub proof fn lemma_marked_only_clears_alpha(curr: Seq<u8>, prev: Seq<u8>, t: u8)
    ensures
        only_alpha_cleared(curr, marked_prefix(curr, prev, t)),
{
}

/// Optimization keeps each frame's delay and disposal, and keeps the first
/// frame as it is.
pub proof fn law_optimize_keeps_timing_and_disposal(frames: Seq<FrameView>, t: u8, crop: bool, with_canvas: bool, cw: u16, ch: u16)
    ensures
        ({
            let out = optimized_frames_spec(frames, t, crop, with_canvas, cw, ch);
            &&& out.len() == frames.len()
            &&& frames.len() > 0 ==> out[0] == frames[0]
            &&& forall|i: int|
                0 <= i < frames.len() ==> (#[trigger] out[i]).delay == frames[i].delay && out[i].dispose
                    == frames[i].dispose
        }),
{
}

/// Without cropping, optimization is lossless: every frame after the first
/// is either kept as it is, collapsed to a 1x1 transparent frame (only when
/// it is identical to the canvas under it and its disposal keeps the
/// canvas), or kept in place with only some alpha bytes cleared; color
/// bytes never change.
pub proof fn law_optimize_without_crop_only_clears_alpha(frames: Seq<FrameView>, t: u8, cw: u16, ch: u16, i: int)
    requires
        0 < i < frames.len(),
    ensures
        ({
            let f = frames[i];
            let o = optimized_frames_spec(frames, t, false, false, cw, ch)[i];
            ||| o == f
            ||| (o == collapsed_frame(f) && keeps_canvas(f.dispose))
            ||| (o == FrameView { pixels: o.pixels, ..f } && only_alpha_cleared(f.pixels, o.pixels))
        }),
{
    let f = frames[i];
    let prev = reference_spec(frames, i, cw, ch);
    lemma_marked_only_clears_alpha(f.pixels, prev.pixels, t);
}

/// Quality 100 (or more) makes `lossy` exact, and the threshold never exceeds 20.
pub proof fn law_lossy_threshold_bounds(quality: u8)
    ensures
        lossy_threshold(quality) <= 20,
        quality >= 100 ==> lossy_threshold(quality) == 0,
{
}

/// Pixel `p` of the buffer has nonzero alpha (a missing pixel counts as transparent).
pub open spec fn visible_hit(pixels: Seq<u8>) -> spec_fn(int) -> bool {
    |p: int| p * 4 + 3 < pixels.len() && pixels[p * 4 + 3] > 0
}

/// The bounds `(left, top, right, bottom)` (right and bottom exclusive) of
/// the pixels with nonzero alpha of a `w x h` grid, or `None` when there is none.
pub open spec fn visible_bounds_spec(pixels: Seq<u8>, w: int, h: int) -> Option<(u16, u16, u16, u16)> {
    if exists|p: int| 0 <= p < w * h && #[trigger] visible_hit(pixels)(p) {
        let b = crate::spec_util::tight_box_of(visible_hit(pixels), w * h, w);
        Some((b.0 as u16, b.1 as u16, b.2 as u16, b.3 as u16))
    } else {
        None
    }
}

/// Find the bounding box of the pixels with nonzero alpha, as
/// `(left, top, right, bottom)` with right and bottom exclusive; `None` when
/// every pixel is transparent.
pub fn find_bounding_box(pixels: &[u8], width: usize, height: usize) -> (r: Option<(u16, u16, u16, u16)>)
    requires
        width <= u16::MAX,
        height <= u16::MAX,
    ensures
        r == visible_bounds_spec(pixels@, width as int, height as int),
{
    let ghost hit = visible_hit(pixels@);
    let w = width as u16;
    let h = height as u16;
    let len = pixels.len();
    let mut acc = crate::spec_util::BoxAcc::new(w, h);
    let mut y: u16 = 0;
    while y < h
        invariant
            y <= h,
            w == width,
            h == height,
            len == pixels@.len(),
            hit == visible_hit(pixels@),
            acc.inv(hit, y as int * w as int, w as int, h as int),
        decreases h - y,
    {
        let mut x: u16 = 0;
        while x < w
            invariant
                y < h,
                x <= w,
                w == width,
                h == height,
                len == pixels@.len(),
                hit == visible_hit(pixels@),
                acc.inv(hit, y as int * w as int + x as int, w as int, h as int),
            decreases w - x,
        {
            let ghost k = y as int * w as int + x as int;
            proof {
                lemma_grid_index(x as int, y as int, w as int, h as int);
            }
            assert((y as u64) * (w as u64) <= 65535 * 65535) by (nonlinear_arith)
                requires
                    y <= 65535,
                    w <= 65535,
            ;
            let idx: u64 = ((y as u64) * (w as u64) + x as u64) * 4 + 3;
            let alpha: u8 = if idx < len as u64 { pixels[idx as usize] } else { 0 };
            let ghost before = acc;
            if alpha > 0 {
                acc.add(x, y);
            }
            proof {
                assert((alpha > 0) == hit(k));
                crate::spec_util::BoxAcc::lemma_step(before, acc, hit, k, w as int, h as int);
                assert(k + 1 == y as int * w as int + (x + 1) as int);
            }
            x += 1;
        }
        assert(y as int * w as int + w as int == (y + 1) as int * w as int) by (nonlinear_arith);
        y += 1;
    }
    proof {
        assert(h as int * w as int == w as int * h as int) by (nonlinear_arith);
        crate::spec_util::BoxAcc::lemma_done(acc, hit, w as int * h as int, w as int, h as int);
    }
    if acc.found {
        proof {
            crate::spec_util::lemma_tight_box_of(hit, w as int * h as int, w as int, acc.min_x as int, acc.min_y as int, acc.max_x as int, acc.max_y as int);
        }
        Some((acc.min_x, acc.min_y, acc.max_x, acc.max_y))
    } else {
        None
    }
}

/// Crop a frame to `[left, right) x [top, bottom)` of its own pixels; the
/// crop keeps the frame's timing, disposal and palette and is placed at the
/// frame's offset plus `(left, top)`. Pixels past the end of the buffer are
/// zero.
pub fn crop_frame(frame: &Frame, left: u16, top: u16, right: u16, bottom: u16) -> (r: Frame)
    requires
        left <= right,
        top <= bottom,
        frame.left + left <= u16::MAX,
        frame.top + top <= u16::MAX,
    ensures
        r@ == (FrameView {
            pixels: rect_pixels(
                frame@.pixels,
                frame.width as int,
                left as int,
                top as int,
                (right - left) as int,
                (bottom - top) as int,
            ),
            left: (frame.left + left) as u16,
            top: (frame.top + top) as u16,
            width: (right - left) as u16,
            height: (bottom - top) as u16,
            ..frame@
        }),
{
    let new_width = right - left;
    let new_height = bottom - top;
    let new_pixels = copy_rect(&frame.pixels, frame.width, left, top, new_width, new_height);
    Frame {
        pixels: new_pixels,
        delay: frame.delay,
        dispose: frame.dispose,
        local_palette: crate::types::copy_palette_opt(&frame.local_palette),
        left: frame.left + left,
        top: frame.top + top,
        width: new_width,
        height: new_height,
    }
}

} // verus!
