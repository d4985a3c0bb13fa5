//! Canonical sequence IR with canvas-state invariants.
//!
//! The canonical IR describes an animation in display (canvas) space:
//! `displayed_canvas` is what the viewer sees for a frame, the pre-draw
//! canvas of frame `n + 1` is the post-disposal canvas of frame `n`, and
//! changed-region facts are computed from canonical canvases.

use vstd::prelude::*;
use crate::types::{DisposalMethod, Frame, FrameView, Gif, GifView, LoopCount};
use std::time::Duration;
use crate::spec_util::{
    BoxAcc, tight_box, count_where, lemma_grid_index, lemma_grid_coords, lemma_mul_nonneg,
    lemma_count_le, lemma_tight_box_unique,
};

verus! {

/// Bounding box of a region: `[left, right) x [top, bottom)`.
#[derive(Debug, Clone, Copy, PartialEq, Eq, Structural)]
pub struct BoundingBox {
    /// Left edge (inclusive).
    pub left: u16,
    /// Top edge (inclusive).
    pub top: u16,
    /// Right edge (exclusive).
    pub right: u16,
    /// Bottom edge (exclusive).
    pub bottom: u16,
}

impl BoundingBox {
    /// Width, zero when `right <= left`.
    pub open spec fn width_spec(self) -> int {
        if self.right >= self.left { self.right - self.left } else { 0 }
    }

    /// Height, zero when `bottom <= top`.
    pub open spec fn height_spec(self) -> int {
        if self.bottom >= self.top { self.bottom - self.top } else { 0 }
    }

    /// Area in pixels.
    pub open spec fn area_spec(self) -> int {
        self.width_spec() * self.height_spec()
    }

    /// Create a new bounding box.
    pub fn new(left: u16, top: u16, right: u16, bottom: u16) -> (r: Self)
        ensures
            r == (BoundingBox { left, top, right, bottom }),
    {
        BoundingBox { left, top, right, bottom }
    }

    /// Width of the bounding box (saturating).
    pub fn width(&self) -> (r: u16)
        ensures
            r == self.width_spec(),
    {
        if self.right >= self.left { self.right - self.left } else { 0 }
    }

    /// Height of the bounding box (saturating).
    pub fn height(&self) -> (r: u16)
        ensures
            r == self.height_spec(),
    {
        if self.bottom >= self.top { self.bottom - self.top } else { 0 }
    }

    /// Area of the bounding box.
    pub fn area(&self) -> (r: usize)
        ensures
            r == self.area_spec(),
    {
        let w = self.width();
        let h = self.height();
        assert(w as int * h as int <= 65535 * 65535) by (nonlinear_arith)
            requires
                w <= 65535,
                h <= 65535,
        ;
        assert(65535 * 65535 <= usize::MAX);
        (w as usize) * (h as usize)
    }
}

/// Full canvas RGBA state.
#[derive(Debug, Clone)]
pub struct Canvas {
    /// Full canvas RGBA pixels: `width * height * 4` bytes.
    pub pixels: Vec<u8>,
    /// Canvas width.
    pub width: u16,
    /// Canvas height.
    pub height: u16,
}

/// The mathematical value of a canvas.
pub struct CanvasView {
    pub pixels: Seq<u8>,
    pub width: u16,
    pub height: u16,
}

impl View for Canvas {
    type V = CanvasView;

    open spec fn view(&self) -> CanvasView {
        CanvasView { pixels: self.pixels@, width: self.width, height: self.height }
    }
}

impl CanvasView {
    /// The pixel buffer holds exactly `width * height` RGBA pixels.
    pub open spec fn wf(self) -> bool {
        self.pixels.len() == self.width as int * self.height as int * 4
    }
}

/// A buffer of `len` zero bytes.
pub open spec fn zeros(len: int) -> Seq<u8> {
    Seq::new(len as nat, |i: int| 0u8)
}

/// The fully transparent canvas of the given size.
pub open spec fn transparent_canvas(w: u16, h: u16) -> CanvasView {
    CanvasView { pixels: zeros(w as int * h as int * 4), width: w, height: h }
}

/// Whether `(x, y)` lies in `[left, left + w) x [top, top + h)`.
pub open spec fn in_rect(x: int, y: int, left: int, top: int, w: int, h: int) -> bool {
    left <= x && x < left + w && top <= y && y < top + h
}

/// The canvas pixel holding byte `i` lies on the canvas and inside the rectangle.
pub open spec fn byte_in_region(
    i: int,
    cw: int,
    ch: int,
    left: int,
    top: int,
    w: int,
    h: int,
) -> bool {
    let p = i / 4;
    p < cw * ch && in_rect(p % cw, p / cw, left, top, w, h)
}

/// The buffer after clearing the rectangle (clipped to the canvas) to transparent.
pub open spec fn cleared(
    pixels: Seq<u8>,
    cw: int,
    ch: int,
    left: int,
    top: int,
    w: int,
    h: int,
) -> Seq<u8> {
    Seq::new(
        pixels.len(),
        |i: int| if byte_in_region(i, cw, ch, left, top, w, h) { 0u8 } else { pixels[i] },
    )
}

/// Color channel blended over a background channel with the given alpha.
pub open spec fn blend_channel(fg: u8, bg: u8, a: u8) -> u8 {
    ((fg as int * a as int + bg as int * (255 - a as int)) / 255) as u8
}

/// Alpha of a partially transparent pixel drawn over a background alpha.
pub open spec fn blend_alpha(a: u8, bg_a: u8) -> u8 {
    let v = a as int + bg_a as int * (255 - a as int) / 255;
    (if v > 255 { 255 } else { v }) as u8
}

/// Byte `c` of a frame pixel with alpha `a` drawn over background byte `bg`:
/// opaque pixels replace, partially transparent ones blend, transparent ones
/// leave the background.
pub open spec fn over_byte(frame: Seq<u8>, fi: int, c: int, bg: u8) -> u8 {
    let a = frame[fi + 3];
    if a == 255 {
        frame[fi + c]
    } else if a > 0 {
        if c < 3 { blend_channel(frame[fi + c], bg, a) } else { blend_alpha(a, bg) }
    } else {
        bg
    }
}

/// Index of the first byte of the frame pixel covering canvas byte `i`.
pub open spec fn frame_byte_base(i: int, cw: int, fw: int, left: int, top: int) -> int {
    let p = i / 4;
    ((p / cw - top) * fw + (p % cw - left)) * 4
}

/// Canvas byte `i` lies in the rectangle at `(left, top)` and its rectangle
/// row is before `ry`, or equal to `ry` with column before `rx`.
pub open spec fn region_done(
    i: int,
    cw: int,
    ch: int,
    left: int,
    top: int,
    w: int,
    h: int,
    ry: int,
    rx: int,
) -> bool {
    let p = i / 4;
    let fy = p / cw - top;
    let fx = p % cw - left;
    byte_in_region(i, cw, ch, left, top, w, h) && (fy < ry || (fy == ry && fx < rx))
}

/// The buffer after compositing the frame rows `< ry` (and the first `rx`
/// pixels of row `ry`) at `(left, top)`.
pub open spec fn composited_upto(
    canvas: Seq<u8>,
    cw: int,
    ch: int,
    frame: Seq<u8>,
    fw: int,
    fh: int,
    left: int,
    top: int,
    ry: int,
    rx: int,
) -> Seq<u8> {
    Seq::new(
        canvas.len(),
        |i: int|
            if region_done(i, cw, ch, left, top, fw, fh, ry, rx) {
                over_byte(frame, frame_byte_base(i, cw, fw, left, top), i % 4, canvas[i])
            } else {
                canvas[i]
            },
    )
}

/// The buffer after clearing rectangle rows `< ry` (and the first `rx`
/// pixels of row `ry`).
pub open spec fn cleared_upto(
    pixels: Seq<u8>,
    cw: int,
    ch: int,
    left: int,
    top: int,
    w: int,
    h: int,
    ry: int,
    rx: int,
) -> Seq<u8> {
    Seq::new(
        pixels.len(),
        |i: int| if region_done(i, cw, ch, left, top, w, h, ry, rx) { 0u8 } else { pixels[i] },
    )
}

/// Advancing one pixel within a visible row adds exactly that pixel's bytes.
pub proof fn lemma_region_step(
    i: int,
    cw: int,
    ch: int,
    left: int,
    top: int,
    w: int,
    h: int,
    y: int,
    x: int,
)
    requires
        0 <= i,
        0 <= left,
        0 <= top,
        0 <= y < visible_extent(top, h, ch),
        0 <= x < visible_extent(left, w, cw),
    ensures
        region_done(i, cw, ch, left, top, w, h, y, x + 1) <==> (region_done(
            i,
            cw,
            ch,
            left,
            top,
            w,
            h,
            y,
            x,
        ) || i / 4 == (top + y) * cw + left + x),
        i / 4 == (top + y) * cw + left + x ==> i / 4 - top * cw - left == y * cw + x
            && frame_byte_base(i, cw, w, left, top) == (y * w + x) * 4,
{
    let p = i / 4;
    let q = (top + y) * cw + left + x;
    lemma_grid_index(left + x, top + y, cw, ch);
    if p == q {
        assert((top + y) * cw == top * cw + y * cw) by (nonlinear_arith);
    } else {
        if p < cw * ch {
            lemma_grid_coords(p, cw, ch);
        }
    }
}

/// Finishing a visible row is the same as starting the next one; finishing
/// all visible rows covers the whole clipped rectangle.
pub proof fn lemma_region_rows(
    i: int,
    cw: int,
    ch: int,
    left: int,
    top: int,
    w: int,
    h: int,
    y: int,
)
    requires
        0 <= i,
        0 <= left,
        0 <= top,
        0 <= w,
        0 <= h,
        0 <= cw,
        0 <= ch,
        0 <= y <= visible_extent(top, h, ch),
    ensures
        y < visible_extent(top, h, ch) ==> (region_done(
            i,
            cw,
            ch,
            left,
            top,
            w,
            h,
            y,
            visible_extent(left, w, cw),
        ) <==> region_done(i, cw, ch, left, top, w, h, y + 1, 0)),
        y == visible_extent(top, h, ch) ==> (region_done(i, cw, ch, left, top, w, h, y, 0)
            <==> byte_in_region(i, cw, ch, left, top, w, h)),
        byte_in_region(i, cw, ch, left, top, w, h) <==> region_done(
            i,
            cw,
            ch,
            left,
            top,
            w,
            h,
            h,
            0,
        ),
{
    let p = i / 4;
    if byte_in_region(i, cw, ch, left, top, w, h) {
        assert(cw > 0 && ch > 0) by (nonlinear_arith)
            requires
                0 <= p < cw * ch,
                0 <= cw,
                0 <= ch,
        ;
        lemma_grid_coords(p, cw, ch);
    }
}

/// The buffer after compositing the whole frame at `(left, top)`, clipped to the canvas.
pub open spec fn composited(
    canvas: Seq<u8>,
    cw: int,
    ch: int,
    frame: Seq<u8>,
    fw: int,
    fh: int,
    left: int,
    top: int,
) -> Seq<u8> {
    composited_upto(canvas, cw, ch, frame, fw, fh, left, top, fh, 0)
}

/// Number of frame rows (or columns) that fall on the canvas.
pub open spec fn visible_extent(offset: int, extent: int, canvas_extent: int) -> int {
    if offset >= canvas_extent {
        0
    } else if extent < canvas_extent - offset {
        extent
    } else {
        canvas_extent - offset
    }
}

/// Bytes of frame data that compositing reads: every visible pixel must be present.
pub open spec fn frame_bytes_needed(fw: int, fh: int, left: int, top: int, cw: int, ch: int) -> int {
    let rows = visible_extent(top, fh, ch);
    let cols = visible_extent(left, fw, cw);
    if rows > 0 && cols > 0 { ((rows - 1) * fw + cols) * 4 } else { 0 }
}

/// `(r * a + b * (255 - a)) / 255` stays a byte.
pub proof fn lemma_blend_bound(r: int, b: int, a: int)
    requires
        0 <= r <= 255,
        0 <= b <= 255,
        0 <= a <= 255,
    ensures
        0 <= r * a + b * (255 - a) <= 255 * 255,
        0 <= (r * a + b * (255 - a)) / 255 <= 255,
        0 <= b * (255 - a) <= 255 * 255,
        0 <= b * (255 - a) / 255 <= 255,
{
    assert(0 <= r * a + b * (255 - a) <= 255 * 255) by (nonlinear_arith)
        requires
            0 <= r <= 255,
            0 <= b <= 255,
            0 <= a <= 255,
    ;
    assert(0 <= b * (255 - a) <= 255 * 255) by (nonlinear_arith)
        requires
            0 <= b <= 255,
            0 <= a <= 255,
    ;
}

impl Canvas {
    /// Create a new canvas with the given dimensions, initialized to transparent.
    pub fn new(width: u16, height: u16) -> (r: Self)
        requires
            width as int * height as int * 4 <= usize::MAX,
        ensures
            r@ == transparent_canvas(width, height),
    {
        let size = (width as usize) * (height as usize) * 4;
        let mut pixels: Vec<u8> = Vec::with_capacity(size);
        let mut i: usize = 0;
        while i < size
            invariant
                i <= size,
                pixels@ == zeros(i as int),
            decreases size - i,
        {
            pixels.push(0u8);
            i += 1;
        }
        Canvas { pixels, width, height }
    }

    /// Clone the canvas.
    pub fn clone_canvas(&self) -> (r: Self)
        ensures
            r@ == self@,
    {
        Canvas { pixels: crate::types::copy_bytes(&self.pixels), width: self.width, height: self.height }
    }

    /// Byte index of pixel `(x, y)`.
    pub open spec fn pixel_base(&self, x: int, y: int) -> int {
        (y * self.width + x) * 4
    }

    /// Get a pixel at (x, y) as [r, g, b, a].
    pub fn get_pixel(&self, x: u16, y: u16) -> (r: [u8; 4])
        requires
            self.pixel_base(x as int, y as int) + 4 <= self.pixels@.len(),
        ensures
            r@ == self.pixels@.subrange(
                self.pixel_base(x as int, y as int),
                self.pixel_base(x as int, y as int) + 4,
            ),
    {
        let len = self.pixels.len();
        proof {
            lemma_mul_nonneg(y as int, self.width as int);
        }
        let idx = ((y as usize) * (self.width as usize) + (x as usize)) * 4;
        let r = [self.pixels[idx], self.pixels[idx + 1], self.pixels[idx + 2], self.pixels[idx + 3]];
        assert(r@ =~= self.pixels@.subrange(idx as int, idx as int + 4));
        r
    }

    /// Set a pixel at (x, y) to [r, g, b, a].
    pub fn set_pixel(&mut self, x: u16, y: u16, pixel: [u8; 4])
        requires
            old(self).pixel_base(x as int, y as int) + 4 <= old(self).pixels@.len(),
        ensures
            final(self).width == old(self).width,
            final(self).height == old(self).height,
            final(self).pixels@ == old(self).pixels@.update(
                old(self).pixel_base(x as int, y as int),
                pixel[0],
            ).update(old(self).pixel_base(x as int, y as int) + 1, pixel[1]).update(
                old(self).pixel_base(x as int, y as int) + 2,
                pixel[2],
            ).update(old(self).pixel_base(x as int, y as int) + 3, pixel[3]),
    {
        let len = self.pixels.len();
        proof {
            lemma_mul_nonneg(y as int, self.width as int);
        }
        let idx = ((y as usize) * (self.width as usize) + (x as usize)) * 4;
        self.pixels.set(idx, pixel[0]);
        self.pixels.set(idx + 1, pixel[1]);
        self.pixels.set(idx + 2, pixel[2]);
        self.pixels.set(idx + 3, pixel[3]);
    }
}

/// Number of rows (or columns) of an extent at an offset that lie on a canvas.
pub fn visible_count(offset: u16, extent: u16, canvas_extent: u16) -> (r: u16)
    ensures
        r == visible_extent(offset as int, extent as int, canvas_extent as int),
{
    if offset >= canvas_extent {
        0
    } else if extent < canvas_extent - offset {
        extent
    } else {
        canvas_extent - offset
    }
}

impl Canvas {
    /// Clear a region to transparent; the parts of the region that fall off
    /// the canvas are ignored.
    pub fn clear_region(&mut self, left: u16, top: u16, width: u16, height: u16)
        requires
            old(self).pixels@.len() >= old(self).width as int * old(self).height as int * 4,
        ensures
            final(self).width == old(self).width,
            final(self).height == old(self).height,
            final(self).pixels@ == cleared(
                old(self).pixels@,
                old(self).width as int,
                old(self).height as int,
                left as int,
                top as int,
                width as int,
                height as int,
            ),
    {
        let ghost orig = self.pixels@;
        let cw = self.width;
        let ch = self.height;
        let rows = visible_count(top, height, ch);
        let cols = visible_count(left, width, cw);
        let mut y: u16 = 0;
        while y < rows
            invariant
                0 <= y <= rows,
                rows == visible_extent(top as int, height as int, ch as int),
                cols == visible_extent(left as int, width as int, cw as int),
                self.width == cw,
                self.height == ch,
                orig.len() >= cw as int * ch as int * 4,
                self.pixels@ == cleared_upto(
                    orig,
                    cw as int,
                    ch as int,
                    left as int,
                    top as int,
                    width as int,
                    height as int,
                    y as int,
                    0,
                ),
            decreases rows - y,
        {
            let mut x: u16 = 0;
            while x < cols
                invariant
                    0 <= y < rows,
                    0 <= x <= cols,
                    rows == visible_extent(top as int, height as int, ch as int),
                    cols == visible_extent(left as int, width as int, cw as int),
                    self.width == cw,
                    self.height == ch,
                    orig.len() >= cw as int * ch as int * 4,
                    self.pixels@ == cleared_upto(
                        orig,
                        cw as int,
                        ch as int,
                        left as int,
                        top as int,
                        width as int,
                        height as int,
                        y as int,
                        x as int,
                    ),
                decreases cols - x,
            {
                let cy = top + y;
                let cx = left + x;
                proof {
                    lemma_grid_index(cx as int, cy as int, cw as int, ch as int);
                }
                let ghost before = self.pixels@;
                self.set_pixel(cx, cy, [0, 0, 0, 0]);
                proof {
                    let base = (cy as int * cw as int + cx as int) * 4;
                    assert forall|i: int| 0 <= i < orig.len() implies #[trigger] self.pixels@[i]
                        == cleared_upto(
                        orig,
                        cw as int,
                        ch as int,
                        left as int,
                        top as int,
                        width as int,
                        height as int,
                        y as int,
                        x + 1,
                    )[i] by {
                        lemma_region_step(
                            i,
                            cw as int,
                            ch as int,
                            left as int,
                            top as int,
                            width as int,
                            height as int,
                            y as int,
                            x as int,
                        );
                    }
                    assert(self.pixels@ =~= cleared_upto(
                        orig,
                        cw as int,
                        ch as int,
                        left as int,
                        top as int,
                        width as int,
                        height as int,
                        y as int,
                        x + 1,
                    ));
                }
                x += 1;
            }
            proof {
                assert forall|i: int| 0 <= i < orig.len() implies cleared_upto(
                    orig,
                    cw as int,
                    ch as int,
                    left as int,
                    top as int,
                    width as int,
                    height as int,
                    y as int,
                    cols as int,
                )[i] == #[trigger] cleared_upto(
                    orig,
                    cw as int,
                    ch as int,
                    left as int,
                    top as int,
                    width as int,
                    height as int,
                    y + 1,
                    0,
                )[i] by {
                    lemma_region_rows(
                        i,
                        cw as int,
                        ch as int,
                        left as int,
                        top as int,
                        width as int,
                        height as int,
                        y as int,
                    );
                }
                assert(self.pixels@ =~= cleared_upto(
                    orig,
                    cw as int,
                    ch as int,
                    left as int,
                    top as int,
                    width as int,
                    height as int,
                    y + 1,
                    0,
                ));
            }
            y += 1;
        }
        proof {
            assert forall|i: int| 0 <= i < orig.len() implies #[trigger] self.pixels@[i] == cleared(
                orig,
                cw as int,
                ch as int,
                left as int,
                top as int,
                width as int,
                height as int,
            )[i] by {
                lemma_region_rows(
                    i,
                    cw as int,
                    ch as int,
                    left as int,
                    top as int,
                    width as int,
                    height as int,
                    y as int,
                );
            }
            assert(self.pixels@ =~= cleared(
                orig,
                cw as int,
                ch as int,
                left as int,
                top as int,
                width as int,
                height as int,
            ));
        }
    }
}

/// The pixel written when a frame pixel `[r, g, b, a]` is drawn over the
/// background pixel `bg`: opaque replaces, partially transparent blends,
/// transparent leaves the background.
pub fn over_pixel(fr: u8, fg: u8, fb: u8, a: u8, bg: [u8; 4]) -> (out: [u8; 4])
    ensures
        out[0] == over_byte(seq![fr, fg, fb, a], 0, 0, bg[0]),
        out[1] == over_byte(seq![fr, fg, fb, a], 0, 1, bg[1]),
        out[2] == over_byte(seq![fr, fg, fb, a], 0, 2, bg[2]),
        out[3] == over_byte(seq![fr, fg, fb, a], 0, 3, bg[3]),
{
    if a == 255 {
        [fr, fg, fb, a]
    } else if a > 0 {
        proof {
            lemma_blend_bound(fr as int, bg[0] as int, a as int);
            lemma_blend_bound(fg as int, bg[1] as int, a as int);
            lemma_blend_bound(fb as int, bg[2] as int, a as int);
            lemma_blend_bound(0, bg[3] as int, a as int);
        }
        let alpha = a as u16;
        let inv_alpha = 255 - alpha;
        let new_r = ((fr as u16 * alpha + bg[0] as u16 * inv_alpha) / 255) as u8;
        let new_g = ((fg as u16 * alpha + bg[1] as u16 * inv_alpha) / 255) as u8;
        let new_b = ((fb as u16 * alpha + bg[2] as u16 * inv_alpha) / 255) as u8;
        let v = alpha + bg[3] as u16 * inv_alpha / 255;
        let new_a = (if v > 255 { 255 } else { v }) as u8;
        [new_r, new_g, new_b, new_a]
    } else {
        bg
    }
}

impl Canvas {
    /// Composite a frame onto this canvas at the specified position with
    /// alpha blending; the parts of the frame that fall off the canvas are
    /// ignored.
    pub fn composite_frame(
        &mut self,
        frame_pixels: &[u8],
        frame_width: u16,
        frame_height: u16,
        left: u16,
        top: u16,
    )
        requires
            old(self).pixels@.len() >= old(self).width as int * old(self).height as int * 4,
            frame_pixels@.len() >= frame_bytes_needed(
                frame_width as int,
                frame_height as int,
                left as int,
                top as int,
                old(self).width as int,
                old(self).height as int,
            ),
        ensures
            final(self).width == old(self).width,
            final(self).height == old(self).height,
            final(self).pixels@ == composited(
                old(self).pixels@,
                old(self).width as int,
                old(self).height as int,
                frame_pixels@,
                frame_width as int,
                frame_height as int,
                left as int,
                top as int,
            ),
    {
        let ghost orig = self.pixels@;
        let ghost fr = frame_pixels@;
        let cw = self.width;
        let ch = self.height;
        let fw = frame_width;
        let fh = frame_height;
        let rows = visible_count(top, fh, ch);
        let cols = visible_count(left, fw, cw);
        let flen = frame_pixels.len();
        let mut y: u16 = 0;
        while y < rows
            invariant
                0 <= y <= rows,
                flen == frame_pixels@.len(),
                rows == visible_extent(top as int, fh as int, ch as int),
                cols == visible_extent(left as int, fw as int, cw as int),
                self.width == cw,
                self.height == ch,
                fr == frame_pixels@,
                orig.len() >= cw as int * ch as int * 4,
                fr.len() >= frame_bytes_needed(
                    fw as int,
                    fh as int,
                    left as int,
                    top as int,
                    cw as int,
                    ch as int,
                ),
                self.pixels@ == composited_upto(
                    orig,
                    cw as int,
                    ch as int,
                    fr,
                    fw as int,
                    fh as int,
                    left as int,
                    top as int,
                    y as int,
                    0,
                ),
            decreases rows - y,
        {
            let mut x: u16 = 0;
            while x < cols
                invariant
                    0 <= y < rows,
                    flen == frame_pixels@.len(),
                    0 <= x <= cols,
                    rows == visible_extent(top as int, fh as int, ch as int),
                    cols == visible_extent(left as int, fw as int, cw as int),
                    self.width == cw,
                    self.height == ch,
                    fr == frame_pixels@,
                    orig.len() >= cw as int * ch as int * 4,
                    fr.len() >= frame_bytes_needed(
                        fw as int,
                        fh as int,
                        left as int,
                        top as int,
                        cw as int,
                        ch as int,
                    ),
                    self.pixels@ == composited_upto(
                        orig,
                        cw as int,
                        ch as int,
                        fr,
                        fw as int,
                        fh as int,
                        left as int,
                        top as int,
                        y as int,
                        x as int,
                    ),
                decreases cols - x,
            {
                let cy = top + y;
                let cx = left + x;
                proof {
                    lemma_grid_index(cx as int, cy as int, cw as int, ch as int);
                    lemma_mul_nonneg(y as int, fw as int);
                    assert(y as int * fw as int <= (rows - 1) * fw as int) by (nonlinear_arith)
                        requires
                            y <= rows - 1,
                            fw >= 0,
                    ;
                    assert((y as int * fw as int + x as int) * 4 + 4 <= fr.len());
                }
                let fidx = ((y as usize) * (fw as usize) + (x as usize)) * 4;
                let bg = self.get_pixel(cx, cy);
                let out = over_pixel(
                    frame_pixels[fidx],
                    frame_pixels[fidx + 1],
                    frame_pixels[fidx + 2],
                    frame_pixels[fidx + 3],
                    bg,
                );
                self.set_pixel(cx, cy, out);
                proof {
                    let base = (cy as int * cw as int + cx as int) * 4;
                    assert forall|i: int| 0 <= i < orig.len() implies #[trigger] self.pixels@[i]
                        == composited_upto(
                        orig,
                        cw as int,
                        ch as int,
                        fr,
                        fw as int,
                        fh as int,
                        left as int,
                        top as int,
                        y as int,
                        x + 1,
                    )[i] by {
                        lemma_region_step(
                            i,
                            cw as int,
                            ch as int,
                            left as int,
                            top as int,
                            fw as int,
                            fh as int,
                            y as int,
                            x as int,
                        );
                        if i / 4 == cy as int * cw as int + cx as int {
                            assert(base <= i < base + 4);
                            assert(i % 4 == i - base);
                        }
                    }
                    assert(self.pixels@ =~= composited_upto(
                        orig,
                        cw as int,
                        ch as int,
                        fr,
                        fw as int,
                        fh as int,
                        left as int,
                        top as int,
                        y as int,
                        x + 1,
                    ));
                }
                x += 1;
            }
            proof {
                assert forall|i: int| 0 <= i < orig.len() implies composited_upto(
                    orig,
                    cw as int,
                    ch as int,
                    fr,
                    fw as int,
                    fh as int,
                    left as int,
                    top as int,
                    y as int,
                    cols as int,
                )[i] == #[trigger] composited_upto(
                    orig,
                    cw as int,
                    ch as int,
                    fr,
                    fw as int,
                    fh as int,
                    left as int,
                    top as int,
                    y + 1,
                    0,
                )[i] by {
                    lemma_region_rows(
                        i,
                        cw as int,
                        ch as int,
                        left as int,
                        top as int,
                        fw as int,
                        fh as int,
                        y as int,
                    );
                }
                assert(self.pixels@ =~= composited_upto(
                    orig,
                    cw as int,
                    ch as int,
                    fr,
                    fw as int,
                    fh as int,
                    left as int,
                    top as int,
                    y + 1,
                    0,
                ));
            }
            y += 1;
        }
        proof {
            assert forall|i: int| 0 <= i < orig.len() implies #[trigger] self.pixels@[i]
                == composited(
                orig,
                cw as int,
                ch as int,
                fr,
                fw as int,
                fh as int,
                left as int,
                top as int,
            )[i] by {
                lemma_region_rows(
                    i,
                    cw as int,
                    ch as int,
                    left as int,
                    top as int,
                    fw as int,
                    fh as int,
                    y as int,
                );
            }
            assert(self.pixels@ =~= composited(
                orig,
                cw as int,
                ch as int,
                fr,
                fw as int,
                fh as int,
                left as int,
                top as int,
            ));
        }
    }
}

/// Source patch metadata: the original frame from the GIF.
#[derive(Debug)]
pub struct SourcePatch {
    /// RGBA pixel data of the source frame.
    pub pixels: Vec<u8>,
    /// Horizontal offset on canvas.
    pub left: u16,
    /// Vertical offset on canvas.
    pub top: u16,
    /// Width of the source frame.
    pub width: u16,
    /// Height of the source frame.
    pub height: u16,
    /// Whether the source patch has any transparent pixels.
    pub has_transparency: bool,
    /// Count of transparent pixels (alpha == 0).
    pub transparent_pixel_count: usize,
    /// Count of opaque pixels (alpha == 255).
    pub opaque_pixel_count: usize,
}

/// Alpha of complete pixel `p` of an RGBA buffer.
pub open spec fn alpha_at(pixels: Seq<u8>, p: int) -> u8 {
    pixels[p * 4 + 3]
}

/// Number of complete RGBA pixels in a buffer (a trailing partial pixel is ignored).
pub open spec fn pixel_count(pixels: Seq<u8>) -> int {
    pixels.len() as int / 4
}

/// Number of complete pixels whose alpha is `a`.
pub open spec fn count_alpha(pixels: Seq<u8>, a: u8) -> nat {
    count_where(pixel_count(pixels), |p: int| alpha_at(pixels, p) == a)
}

/// Some complete pixel is not fully opaque.
pub open spec fn any_not_opaque(pixels: Seq<u8>) -> bool {
    exists|p: int| 0 <= p < pixel_count(pixels) && alpha_at(pixels, p) != 255
}

impl SourcePatch {
    /// Analyze transparency of an RGBA buffer: whether any pixel is not fully
    /// opaque, the number of fully transparent pixels and the number of fully
    /// opaque pixels.
    pub fn analyze_transparency(pixels: &[u8]) -> (r: (bool, usize, usize))
        ensures
            r.0 == any_not_opaque(pixels@),
            r.1 == count_alpha(pixels@, 0),
            r.2 == count_alpha(pixels@, 255),
    {
        let ghost s = pixels@;
        let len = pixels.len();
        let n = len / 4;
        let mut has_transparency = false;
        let mut transparent_count: usize = 0;
        let mut opaque_count: usize = 0;
        let mut p: usize = 0;
        while p < n
            invariant
                n == pixel_count(s),
                len == s.len(),
                n == len / 4,
                s == pixels@,
                p <= n,
                has_transparency == exists|q: int| 0 <= q < p && alpha_at(s, q) != 255,
                transparent_count == count_where(p as int, |q: int| alpha_at(s, q) == 0u8),
                opaque_count == count_where(p as int, |q: int| alpha_at(s, q) == 255u8),
            decreases n - p,
        {
            proof {
                lemma_count_le(p as int, |q: int| alpha_at(s, q) == 0u8);
                lemma_count_le(p as int, |q: int| alpha_at(s, q) == 255u8);
            }
            assert(p * 4 + 3 < s.len());
            let alpha = pixels[p * 4 + 3];
            assert(alpha == alpha_at(s, p as int));
            if alpha == 0 {
                has_transparency = true;
                transparent_count += 1;
            } else if alpha == 255 {
                opaque_count += 1;
            } else {
                has_transparency = true;
            }
            p += 1;
        }
        (has_transparency, transparent_count, opaque_count)
    }
}

/// Changed region facts between the pre-draw and the displayed canvas.
#[derive(Debug)]
pub struct ChangedRegion {
    /// Bounding box of changed pixels.
    pub bbox: BoundingBox,
    /// Count of pixels that changed.
    pub changed_pixel_count: usize,
    /// Total canvas pixels; the changed ratio is `changed_pixel_count / total_pixel_count`.
    pub total_pixel_count: usize,
    /// Whether the source patch is full-canvas (left=0, top=0, width=canvas.width, height=canvas.height).
    pub is_full_canvas_patch: bool,
}

/// Pixel `p` differs between two RGBA buffers in at least one channel.
pub open spec fn pixel_differs(a: Seq<u8>, b: Seq<u8>, p: int) -> bool {
    a[p * 4] != b[p * 4] || a[p * 4 + 1] != b[p * 4 + 1] || a[p * 4 + 2] != b[p * 4 + 2]
        || a[p * 4 + 3] != b[p * 4 + 3]
}

/// The changed-region summary of two canvases of width `w` and height `h`:
/// the count of differing pixels and their tight bounding box.
pub open spec fn changed_region_spec(a: Seq<u8>, b: Seq<u8>, w: int, h: int, r: ChangedRegion) -> bool {
    &&& r.changed_pixel_count == count_where(w * h, |p: int| pixel_differs(a, b, p))
    &&& r.total_pixel_count == w * h
    &&& changed_bbox_spec(a, b, w, h, r.bbox)
}

/// `bbox` is the tight bounding box of the pixels that differ between two
/// `w x h` canvases, or all zeros when none differs.
pub open spec fn changed_bbox_spec(a: Seq<u8>, b: Seq<u8>, w: int, h: int, bbox: BoundingBox) -> bool {
    tight_box(
        |p: int| pixel_differs(a, b, p),
        w * h,
        w,
        bbox.left as int,
        bbox.top as int,
        bbox.right as int,
        bbox.bottom as int,
    )
}

/// The tight bounding box of the pixels that differ between two `w x h` canvases.
pub open spec fn changed_bbox_of(a: Seq<u8>, b: Seq<u8>, w: int, h: int) -> BoundingBox {
    choose|bb: BoundingBox| changed_bbox_spec(a, b, w, h, bb)
}

/// A box meeting the changed-box specification is the changed box.
pub proof fn lemma_changed_bbox_of(a: Seq<u8>, b: Seq<u8>, w: int, h: int, bb: BoundingBox)
    requires
        changed_bbox_spec(a, b, w, h, bb),
    ensures
        changed_bbox_of(a, b, w, h) == bb,
{
    let c = changed_bbox_of(a, b, w, h);
    assert(changed_bbox_spec(a, b, w, h, c));
    lemma_tight_box_unique(
        |p: int| pixel_differs(a, b, p),
        w * h,
        w,
        c.left as int,
        c.top as int,
        c.right as int,
        c.bottom as int,
        bb.left as int,
        bb.top as int,
        bb.right as int,
        bb.bottom as int,
    );
}


/// Scan two `w x h` RGBA buffers: the tight bounding box of the differing
/// pixels and how many pixels differ.
pub fn scan_changes(a: &[u8], b: &[u8], w: u16, h: u16) -> (r: (BoundingBox, usize))
    requires
        a@.len() >= w as int * h as int * 4,
        b@.len() >= w as int * h as int * 4,
    ensures
        changed_bbox_spec(a@, b@, w as int, h as int, r.0),
        r.1 == count_where(w as int * h as int, |p: int| pixel_differs(a@, b@, p)),
{
    let ghost sa = a@;
    let ghost sb = b@;
    let ghost hit = |p: int| pixel_differs(sa, sb, p);
    let plen = a.len();
    let dlen = b.len();
    let mut acc = BoxAcc::new(w, h);
    let mut changed_count: usize = 0;
    let mut y: u16 = 0;
    while y < h
        invariant
            y <= h,
            sa == a@,
            sb == b@,
            hit == (|p: int| pixel_differs(sa, sb, p)),
            plen == sa.len(),
            dlen == sb.len(),
            plen >= w as int * h as int * 4,
            dlen >= w as int * h as int * 4,
            acc.inv(hit, y as int * w as int, w as int, h as int),
            changed_count == count_where(y as int * w as int, hit),
        decreases h - y,
    {
        let mut x: u16 = 0;
        while x < w
            invariant
                y < h,
                x <= w,
                sa == a@,
                sb == b@,
                hit == (|p: int| pixel_differs(sa, sb, p)),
                plen == sa.len(),
                dlen == sb.len(),
                plen >= w as int * h as int * 4,
                dlen >= w as int * h as int * 4,
                acc.inv(hit, y as int * w as int + x as int, w as int, h as int),
                changed_count == count_where(y as int * w as int + x as int, hit),
            decreases w - x,
        {
            let ghost k = y as int * w as int + x as int;
            proof {
                lemma_grid_index(x as int, y as int, w as int, h as int);
                lemma_count_le(k, hit);
            }
            let idx = ((y as usize) * (w as usize) + (x as usize)) * 4;
            let differs = a[idx] != b[idx] || a[idx + 1] != b[idx + 1] || a[idx + 2] != b[idx + 2]
                || a[idx + 3] != b[idx + 3];
            assert(differs == hit(k));
            let ghost before = acc;
            if differs {
                changed_count += 1;
                acc.add(x, y);
            }
            proof {
                BoxAcc::lemma_step(before, acc, hit, k, w as int, h as int);
                assert((y as int * w as int + x as int) + 1 == y as int * w as int + (x + 1) as int);
            }
            x += 1;
        }
        assert(y as int * w as int + w as int == (y + 1) as int * w as int) by (nonlinear_arith);
        y += 1;
    }
    proof {
        assert(h as int * w as int == w as int * h as int) by (nonlinear_arith);
        BoxAcc::lemma_done(acc, hit, w as int * h as int, w as int, h as int);
    }
    let bbox = if !acc.found {
        BoundingBox::new(0, 0, 0, 0)
    } else {
        BoundingBox::new(acc.min_x, acc.min_y, acc.max_x, acc.max_y)
    };
    (bbox, changed_count)
}

impl ChangedRegion {
    /// Compute the changed region between two canvases of the same size.
    pub fn compute(pre_draw: &Canvas, displayed: &Canvas) -> (r: Self)
        requires
            pre_draw.pixels@.len() >= pre_draw.width as int * pre_draw.height as int * 4,
            displayed.pixels@.len() >= pre_draw.width as int * pre_draw.height as int * 4,
        ensures
            changed_region_spec(
                pre_draw.pixels@,
                displayed.pixels@,
                pre_draw.width as int,
                pre_draw.height as int,
                r,
            ),
            !r.is_full_canvas_patch,
    {
        let w = pre_draw.width;
        let h = pre_draw.height;
        let (bbox, changed_count) = scan_changes(
            pre_draw.pixels.as_slice(),
            displayed.pixels.as_slice(),
            w,
            h,
        );
        proof {
            lemma_mul_nonneg(w as int, h as int);
            lemma_count_le(w as int * h as int, |p: int| pixel_differs(pre_draw.pixels@, displayed.pixels@, p));
        }
        let plen = pre_draw.pixels.len();
        assert(w as int * h as int <= plen);
        let total = (w as usize) * (h as usize);
        ChangedRegion {
            bbox,
            changed_pixel_count: changed_count,
            total_pixel_count: total,
            is_full_canvas_patch: false,
        }
    }
}

/// Byte `i` of the patch `[left, left + fw) x [top, ...)` cut from a
/// full-canvas buffer of width `cw` and height `ch`; pixels off the canvas
/// are transparent.
pub open spec fn patch_byte(pixels: Seq<u8>, cw: int, ch: int, left: int, top: int, fw: int, i: int) -> u8 {
    let p = i / 4;
    let cx = left + p % fw;
    let cy = top + p / fw;
    if cx < cw && cy < ch {
        pixels[(cy * cw + cx) * 4 + i % 4]
    } else {
        0u8
    }
}

/// The pixels of a frame's source patch: a full-canvas buffer is cut down to
/// the frame rectangle, any other buffer is taken as it is.
pub open spec fn source_patch_pixels(f: FrameView, cw: int, ch: int) -> Seq<u8> {
    if f.pixels.len() == cw * ch * 4 {
        Seq::new(
            (f.width as int * f.height as int * 4) as nat,
            |i: int| patch_byte(f.pixels, cw, ch, f.left as int, f.top as int, f.width as int, i),
        )
    } else {
        f.pixels
    }
}

/// The source patch of a frame on a `cw x ch` canvas, with its transparency facts.
pub open spec fn is_source_patch_of(sp: SourcePatch, f: FrameView, cw: int, ch: int) -> bool {
    &&& sp.pixels@ == source_patch_pixels(f, cw, ch)
    &&& sp.left == f.left
    &&& sp.top == f.top
    &&& sp.width == f.width
    &&& sp.height == f.height
    &&& sp.has_transparency == any_not_opaque(sp.pixels@)
    &&& sp.transparent_pixel_count == count_alpha(sp.pixels@, 0)
    &&& sp.opaque_pixel_count == count_alpha(sp.pixels@, 255)
}

/// Extract source patch metadata from a frame whose buffer is either
/// full-canvas-sized or frame-sized.
pub fn extract_source_patch(frame: &Frame, canvas_width: u16, canvas_height: u16) -> (r: SourcePatch)
    requires
        canvas_width as int * canvas_height as int * 4 <= usize::MAX,
    ensures
        is_source_patch_of(r, frame@, canvas_width as int, canvas_height as int),
{
    let ghost fp = frame.pixels@;
    let cw = canvas_width;
    let ch = canvas_height;
    let fw = frame.width;
    let fh = frame.height;
    let left = frame.left;
    let top = frame.top;
    let full_size = (cw as usize) * (ch as usize) * 4;
    let patch_pixels = if frame.pixels.len() == full_size {
        let mut patch: Vec<u8> = Vec::new();
        let mut y: u16 = 0;
        while y < fh
            invariant
                y <= fh,
                fp == frame.pixels@,
                fp.len() == cw as int * ch as int * 4,
                cw as int * ch as int * 4 <= usize::MAX,
                fw == frame.width,
                fh == frame.height,
                left == frame.left,
                top == frame.top,
                patch@.len() == y as int * fw as int * 4,
                forall|i: int|
                    0 <= i < patch@.len() ==> #[trigger] patch@[i] == patch_byte(
                        fp,
                        cw as int,
                        ch as int,
                        left as int,
                        top as int,
                        fw as int,
                        i,
                    ),
            decreases fh - y,
        {
            let mut x: u16 = 0;
            while x < fw
                invariant
                    y < fh,
                    x <= fw,
                    fp == frame.pixels@,
                    fp.len() == cw as int * ch as int * 4,
                    cw as int * ch as int * 4 <= usize::MAX,
                    fw == frame.width,
                    fh == frame.height,
                    left == frame.left,
                    top == frame.top,
                    patch@.len() == (y as int * fw as int + x as int) * 4,
                    forall|i: int|
                        0 <= i < patch@.len() ==> #[trigger] patch@[i] == patch_byte(
                            fp,
                            cw as int,
                            ch as int,
                            left as int,
                            top as int,
                            fw as int,
                            i,
                        ),
                decreases fw - x,
            {
                let ghost k = y as int * fw as int + x as int;
                let ghost old_patch = patch@;
                proof {
                    lemma_grid_index(x as int, y as int, fw as int, fh as int);
                }
                let cx = left as usize + x as usize;
                let cy = top as usize + y as usize;
                if cx < cw as usize && cy < ch as usize {
                    proof {
                        lemma_grid_index(cx as int, cy as int, cw as int, ch as int);
                    }
                    let idx = (cy * (cw as usize) + cx) * 4;
                    patch.push(frame.pixels[idx]);
                    patch.push(frame.pixels[idx + 1]);
                    patch.push(frame.pixels[idx + 2]);
                    patch.push(frame.pixels[idx + 3]);
                } else {
                    patch.push(0u8);
                    patch.push(0u8);
                    patch.push(0u8);
                    patch.push(0u8);
                }
                proof {
                    assert forall|i: int| 0 <= i < patch@.len() implies #[trigger] patch@[i]
                        == patch_byte(
                        fp,
                        cw as int,
                        ch as int,
                        left as int,
                        top as int,
                        fw as int,
                        i,
                    ) by {
                        if i >= k * 4 {
                            assert(old_patch.len() == k * 4);
                            assert(i / 4 == k);
                            assert(i % 4 == i - k * 4);
                        } else {
                            assert(patch@[i] == old_patch[i]);
                        }
                    }
                    assert(patch@.len() == (y as int * fw as int + (x + 1) as int) * 4);
                }
                x += 1;
            }
            assert(y as int * fw as int + fw as int == (y + 1) as int * fw as int) by (nonlinear_arith);
            y += 1;
        }
        assert(fh as int * fw as int == fw as int * fh as int) by (nonlinear_arith);
        assert(patch@ =~= source_patch_pixels(frame@, cw as int, ch as int));
        patch
    } else {
        crate::types::copy_bytes(&frame.pixels)
    };
    let (has_transparency, transparent_count, opaque_count) = SourcePatch::analyze_transparency(
        patch_pixels.as_slice(),
    );
    SourcePatch {
        pixels: patch_pixels,
        left,
        top,
        width: fw,
        height: fh,
        has_transparency,
        transparent_pixel_count: transparent_count,
        opaque_pixel_count: opaque_count,
    }
}

/// Per-frame canonical state in display/canvas space.
#[derive(Debug)]
pub struct CanonicalFrame {
    /// Source patch metadata: original frame position and dimensions.
    pub source_patch: SourcePatch,
    /// Canvas state before drawing this frame (post-disposal of previous frame).
    pub pre_draw_canvas: Canvas,
    /// Canvas state after drawing this frame (before disposal).
    pub displayed_canvas: Canvas,
    /// Canvas state after disposal (before next frame's pre_draw).
    pub post_disposal_canvas: Canvas,
    /// Changed region facts.
    pub changed_region: ChangedRegion,
    /// Frame delay.
    pub delay: Duration,
    /// Frame disposal.
    pub dispose: DisposalMethod,
}

/// Canonical sequence IR: ground truth for all adaptive decisions.
#[derive(Debug)]
pub struct CanonicalSequence {
    /// Canvas width in pixels.
    pub width: u16,
    /// Canvas height in pixels.
    pub height: u16,
    /// Loop count for the animation.
    pub loop_count: LoopCount,
    /// Per-frame canonical state.
    pub frames: Vec<CanonicalFrame>,
}

/// Builder for canonical sequence IR from a decoded Gif.
pub struct CanonicalSequenceBuilder;

/// The canvas after drawing a frame onto `pre`.
pub open spec fn displayed_canvas_spec(pre: Seq<u8>, f: FrameView, cw: int, ch: int) -> Seq<u8> {
    composited(pre, cw, ch, f.pixels, f.width as int, f.height as int, f.left as int, f.top as int)
}

/// The canvas after a frame's disposal: background clears the frame
/// rectangle, previous restores the pre-draw canvas, the others keep it.
pub open spec fn disposed_canvas_spec(displayed: Seq<u8>, pre: Seq<u8>, f: FrameView, cw: int, ch: int) -> Seq<u8> {
    match f.dispose {
        DisposalMethod::Background => cleared(
            displayed,
            cw,
            ch,
            f.left as int,
            f.top as int,
            f.width as int,
            f.height as int,
        ),
        DisposalMethod::Previous => pre,
        _ => displayed,
    }
}

/// The canvas before frame `n` is drawn: transparent before the first
/// frame, then the post-disposal canvas of the frame before.
pub open spec fn pre_draw_spec(frames: Seq<FrameView>, n: nat, cw: int, ch: int) -> Seq<u8>
    decreases n,
{
    if n == 0 {
        zeros(cw * ch * 4)
    } else {
        let pre = pre_draw_spec(frames, (n - 1) as nat, cw, ch);
        let f = frames[n - 1];
        disposed_canvas_spec(displayed_canvas_spec(pre, f, cw, ch), pre, f, cw, ch)
    }
}

/// A canvas of the given size holding the given pixels.
pub open spec fn canvas_of(pixels: Seq<u8>, w: u16, h: u16) -> CanvasView {
    CanvasView { pixels, width: w, height: h }
}

/// `cf` is the canonical state of frame `f` drawn onto `pre` on a `cw x ch` canvas.
pub open spec fn is_canonical_frame_of(cf: CanonicalFrame, f: FrameView, pre: Seq<u8>, cw: u16, ch: u16) -> bool {
    let displayed = displayed_canvas_spec(pre, f, cw as int, ch as int);
    &&& cf.pre_draw_canvas@ == canvas_of(pre, cw, ch)
    &&& cf.displayed_canvas@ == canvas_of(displayed, cw, ch)
    &&& cf.post_disposal_canvas@ == canvas_of(
        disposed_canvas_spec(displayed, pre, f, cw as int, ch as int),
        cw,
        ch,
    )
    &&& changed_region_spec(pre, displayed, cw as int, ch as int, cf.changed_region)
    &&& cf.changed_region.is_full_canvas_patch == (f.left == 0 && f.top == 0 && f.width == cw
        && f.height == ch)
    &&& is_source_patch_of(cf.source_patch, f, cw as int, ch as int)
    &&& cf.delay == f.delay
    &&& cf.dispose == f.dispose
}

/// `s` is the canonical sequence of the animation `g`.
pub open spec fn is_canonical_sequence_of(s: CanonicalSequence, g: GifView) -> bool {
    &&& s.width == g.width
    &&& s.height == g.height
    &&& s.loop_count == g.loop_count
    &&& s.frames@.len() == g.frames.len()
    &&& forall|i: int|
        0 <= i < g.frames.len() ==> is_canonical_frame_of(
            #[trigger] s.frames@[i],
            g.frames[i],
            pre_draw_spec(g.frames, i as nat, g.width as int, g.height as int),
            g.width,
            g.height,
        )
}

/// Every visible pixel of every frame is present in its buffer.
pub open spec fn frames_cover_canvas(g: GifView) -> bool {
    forall|i: int|
        0 <= i < g.frames.len() ==> (#[trigger] g.frames[i]).pixels.len() >= frame_bytes_needed(
            g.frames[i].width as int,
            g.frames[i].height as int,
            g.frames[i].left as int,
            g.frames[i].top as int,
            g.width as int,
            g.height as int,
        )
}

impl CanonicalSequenceBuilder {
    /// Build the canonical sequence IR of a decoded animation: for each frame
    /// the pre-draw canvas, the displayed canvas (the frame composited onto
    /// the pre-draw canvas), the post-disposal canvas and the changed region.
    /// The pre-draw canvas of each frame is the post-disposal canvas of the
    /// frame before it.
    pub fn build(gif: &Gif) -> (r: crate::error::Result<CanonicalSequence>)
        requires
            gif.width as int * gif.height as int * 4 <= usize::MAX,
            frames_cover_canvas(gif@),
        ensures
            r matches Ok(s) && is_canonical_sequence_of(s, gif@),
            r matches Ok(s) && forall|i: int|
                0 <= i < s.frames@.len() - 1 ==> (#[trigger] s.frames@[i + 1]).pre_draw_canvas@
                    == s.frames@[i].post_disposal_canvas@,
            r matches Ok(s) && forall|i: int|
                0 <= i < s.frames@.len() && (gif@.frames[i].dispose == DisposalMethod::Any
                    || gif@.frames[i].dispose == DisposalMethod::Keep)
                    ==> (#[trigger] s.frames@[i]).post_disposal_canvas@ == s.frames@[i].displayed_canvas@,
    {
        let ghost g = gif@;
        let width = gif.width;
        let height = gif.height;
        let mut frames: Vec<CanonicalFrame> = Vec::new();
        let mut pre_draw_canvas = Canvas::new(width, height);
        let n = gif.frames.len();
        let mut i: usize = 0;
        while i < n
            invariant
                g == gif@,
                n == g.frames.len(),
                i <= n,
                width == g.width,
                height == g.height,
                width as int * height as int * 4 <= usize::MAX,
                frames_cover_canvas(g),
                frames@.len() == i,
                pre_draw_canvas@ == canvas_of(
                    pre_draw_spec(g.frames, i as nat, width as int, height as int),
                    width,
                    height,
                ),
                pre_draw_canvas@.pixels.len() == width as int * height as int * 4,
                forall|j: int|
                    0 <= j < i ==> is_canonical_frame_of(
                        #[trigger] frames@[j],
                        g.frames[j],
                        pre_draw_spec(g.frames, j as nat, width as int, height as int),
                        width,
                        height,
                    ),
            decreases n - i,
        {
            let frame = &gif.frames[i];
            let ghost f = frame@;
            assert(f == g.frames[i as int]);
            let ghost pre = pre_draw_canvas@.pixels;
            let pre_snapshot = pre_draw_canvas.clone_canvas();
            let mut displayed = pre_draw_canvas.clone_canvas();
            displayed.composite_frame(frame.pixels.as_slice(), frame.width, frame.height, frame.left, frame.top);
            let mut changed_region = ChangedRegion::compute(&pre_snapshot, &displayed);
            changed_region.is_full_canvas_patch = frame.left == 0 && frame.top == 0 && frame.width
                == width && frame.height == height;
            let mut post = displayed.clone_canvas();
            match frame.dispose {
                DisposalMethod::Background => {
                    post.clear_region(frame.left, frame.top, frame.width, frame.height);
                },
                DisposalMethod::Previous => {
                    post = pre_snapshot.clone_canvas();
                },
                _ => {},
            }
            let source_patch = extract_source_patch(frame, width, height);
            let post_copy = post.clone_canvas();
            let cf = CanonicalFrame {
                source_patch,
                pre_draw_canvas: pre_snapshot,
                displayed_canvas: displayed,
                post_disposal_canvas: post_copy,
                changed_region,
                delay: frame.delay,
                dispose: frame.dispose,
            };
            frames.push(cf);
            pre_draw_canvas = post;
            proof {
                assert(is_canonical_frame_of(frames@[i as int], g.frames[i as int], pre, width, height));
                assert(pre_draw_spec(g.frames, (i + 1) as nat, width as int, height as int)
                    == disposed_canvas_spec(
                    displayed_canvas_spec(pre, f, width as int, height as int),
                    pre,
                    f,
                    width as int,
                    height as int,
                ));
            }
            i += 1;
        }
        let r = CanonicalSequence { width, height, loop_count: gif.loop_count, frames };
        proof {
            assert forall|i: int| 0 <= i < r.frames@.len() - 1 implies (#[trigger] r.frames@[i
                + 1]).pre_draw_canvas@ == r.frames@[i].post_disposal_canvas@ by {
                assert(is_canonical_frame_of(
                    r.frames@[i],
                    g.frames[i],
                    pre_draw_spec(g.frames, i as nat, width as int, height as int),
                    width,
                    height,
                ));
                assert(is_canonical_frame_of(
                    r.frames@[i + 1],
                    g.frames[i + 1],
                    pre_draw_spec(g.frames, (i + 1) as nat, width as int, height as int),
                    width,
                    height,
                ));
            }
            law_disposal_effect(r, g);
        }
        Ok(r)
    }
}

/// What each disposal leaves on the canvas: after an unspecified or a keep
/// disposal the canvas is the displayed canvas, after a restore-previous
/// disposal it is the pre-draw canvas, and after a background disposal it is
/// the displayed canvas with the frame rectangle (clipped to the canvas)
/// cleared to transparent zero bytes. The next frame is drawn on that canvas.
pub proof fn law_disposal_effect(s: CanonicalSequence, g: GifView)
    requires
        is_canonical_sequence_of(s, g),
    ensures
        forall|k: int|
            0 <= k < s.frames@.len() && (g.frames[k].dispose == DisposalMethod::Any
                || g.frames[k].dispose == DisposalMethod::Keep)
                ==> (#[trigger] s.frames@[k]).post_disposal_canvas@ == s.frames@[k].displayed_canvas@,
        forall|k: int|
            0 <= k < s.frames@.len() && g.frames[k].dispose == DisposalMethod::Previous
                ==> (#[trigger] s.frames@[k]).post_disposal_canvas@ == s.frames@[k].pre_draw_canvas@,
        forall|k: int|
            0 <= k < s.frames@.len() && g.frames[k].dispose == DisposalMethod::Background
                ==> (#[trigger] s.frames@[k]).post_disposal_canvas@.pixels.len()
                == s.frames@[k].displayed_canvas@.pixels.len(),
        forall|k: int, i: int|
            #![trigger s.frames@[k].post_disposal_canvas@.pixels[i]]
            0 <= k < s.frames@.len() && g.frames[k].dispose == DisposalMethod::Background && 0 <= i
                < s.frames@[k].displayed_canvas@.pixels.len() ==> s.frames@[k].post_disposal_canvas@.pixels[i]
                == (if i / 4 < g.width * g.height && g.frames[k].left <= (i / 4) % (g.width as int)
                < g.frames[k].left + g.frames[k].width && g.frames[k].top <= (i / 4) / (g.width as int)
                < g.frames[k].top + g.frames[k].height {
                0u8
            } else {
                s.frames@[k].displayed_canvas@.pixels[i]
            }),
        forall|k: int|
            0 <= k < s.frames@.len() - 1 ==> (#[trigger] s.frames@[k + 1]).pre_draw_canvas@
                == s.frames@[k].post_disposal_canvas@,
{
    assert forall|k: int|
        0 <= k < s.frames@.len() - 1 implies (#[trigger] s.frames@[k + 1]).pre_draw_canvas@
            == s.frames@[k].post_disposal_canvas@ by {
        assert(is_canonical_frame_of(
            s.frames@[k],
            g.frames[k],
            pre_draw_spec(g.frames, k as nat, g.width as int, g.height as int),
            g.width,
            g.height,
        ));
        assert(is_canonical_frame_of(
            s.frames@[k + 1],
            g.frames[k + 1],
            pre_draw_spec(g.frames, (k + 1) as nat, g.width as int, g.height as int),
            g.width,
            g.height,
        ));
    }
    assert forall|k: int| 0 <= k < s.frames@.len() implies is_canonical_frame_of(
        #[trigger] s.frames@[k],
        g.frames[k],
        pre_draw_spec(g.frames, k as nat, g.width as int, g.height as int),
        g.width,
        g.height,
    ) by {}
}

/// Reading a pixel back after writing it gives the written pixel, and
/// writing a pixel leaves every byte outside it unchanged.
pub proof fn law_get_pixel_after_set_pixel(before: Canvas, after: Canvas, x: u16, y: u16, pixel: [u8; 4])
    requires
        before.pixel_base(x as int, y as int) + 4 <= before.pixels@.len(),
        after.width == before.width,
        after.height == before.height,
        after.pixels@ == before.pixels@.update(before.pixel_base(x as int, y as int), pixel[0]).update(
            before.pixel_base(x as int, y as int) + 1,
            pixel[1],
        ).update(before.pixel_base(x as int, y as int) + 2, pixel[2]).update(
            before.pixel_base(x as int, y as int) + 3,
            pixel[3],
        ),
    ensures
        after.pixels@.subrange(after.pixel_base(x as int, y as int), after.pixel_base(x as int, y as int) + 4)
            == pixel@,
        forall|i: int|
            0 <= i < before.pixels@.len() && !(before.pixel_base(x as int, y as int) <= i
                < before.pixel_base(x as int, y as int) + 4) ==> #[trigger] after.pixels@[i] == before.pixels@[i],
{
    let b = before.pixel_base(x as int, y as int);
    assert(after.pixels@.subrange(b, b + 4) =~= pixel@);
}

/// The changed box of two canvases exists and meets its specification.
pub proof fn lemma_changed_bbox_exists(a: Seq<u8>, b: Seq<u8>, w: u16, h: u16)
    ensures
        changed_bbox_spec(a, b, w as int, h as int, changed_bbox_of(a, b, w as int, h as int)),
{
    let hit = |p: int| pixel_differs(a, b, p);
    let wi = w as int;
    let hi = h as int;
    crate::spec_util::lemma_tight_box_exists(hit, wi, hi);
    let t = crate::spec_util::tight_box_of(hit, wi * hi, wi);
    if exists|p: int| 0 <= p < wi * hi && #[trigger] hit(p) {
        let p1 = choose|p: int| 0 <= p < wi * hi && #[trigger] hit(p) && p % wi == t.0;
        let p2 = choose|p: int| 0 <= p < wi * hi && #[trigger] hit(p) && p % wi + 1 == t.2;
        let p3 = choose|p: int| 0 <= p < wi * hi && #[trigger] hit(p) && p / wi == t.1;
        let p4 = choose|p: int| 0 <= p < wi * hi && #[trigger] hit(p) && p / wi + 1 == t.3;
        assert(hit(p1) && hit(p2) && hit(p3) && hit(p4));
        lemma_grid_coords(p1, wi, hi);
        lemma_grid_coords(p2, wi, hi);
        lemma_grid_coords(p3, wi, hi);
        lemma_grid_coords(p4, wi, hi);
    }
    let bb = BoundingBox { left: t.0 as u16, top: t.1 as u16, right: t.2 as u16, bottom: t.3 as u16 };
    assert(changed_bbox_spec(a, b, wi, hi, bb));
    lemma_changed_bbox_of(a, b, wi, hi, bb);
}

/// A frame whose buffer holds all its own pixels holds every pixel that
/// compositing reads, wherever it is placed on whatever canvas.
pub proof fn lemma_full_buffer_covers(fw: int, fh: int, left: int, top: int, cw: int, ch: int)
    requires
        0 <= fw,
        0 <= fh,
        0 <= left,
        0 <= top,
        0 <= cw,
        0 <= ch,
    ensures
        frame_bytes_needed(fw, fh, left, top, cw, ch) <= fw * fh * 4,
{
    let rows = visible_extent(top, fh, ch);
    let cols = visible_extent(left, fw, cw);
    if rows > 0 && cols > 0 {
        assert((rows - 1) * fw + cols <= fw * fh) by (nonlinear_arith)
            requires
                1 <= rows <= fh,
                1 <= cols <= fw,
        ;
    }
}

/// Animations whose frames each hold exactly their own `width * height`
/// RGBA pixels meet the frame-coverage requirement of building the
/// canonical sequence: for them the canonical sequence is built and its
/// frames chain (each pre-draw canvas is the previous post-disposal one),
/// given only that the canvas's byte count fits in memory.
pub proof fn law_full_frames_cover_canvas(g: GifView)
    requires
        forall|i: int|
            0 <= i < g.frames.len() ==> (#[trigger] g.frames[i]).pixels.len() == g.frames[i].width as int
                * g.frames[i].height as int * 4,
    ensures
        frames_cover_canvas(g),
{
    assert forall|i: int| 0 <= i < g.frames.len() implies (#[trigger] g.frames[i]).pixels.len() >= frame_bytes_needed(
        g.frames[i].width as int,
        g.frames[i].height as int,
        g.frames[i].left as int,
        g.frames[i].top as int,
        g.width as int,
        g.height as int,
    ) by {
        let f = g.frames[i];
        lemma_full_buffer_covers(f.width as int, f.height as int, f.left as int, f.top as int, g.width as int, g.height as int);
        assert(f.width as int * f.height as int * 4 == f.width as int * f.height as int * 4);
    }
}

} // verus!
