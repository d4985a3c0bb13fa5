//! Pixel-difference kernels used by frame optimization: the bounding box of
//! the pixels that differ beyond a threshold, and marking of the pixels that
//! do not as transparent.

use vstd::prelude::*;
use crate::analysis_kernels::{abs_diff, changed_beyond};
use crate::spec_util::{BoxAcc, tight_box, tight_box_of, lemma_grid_index, lemma_tight_box_of};

verus! {

/// A rectangle of changed pixels: position and size in pixels.
#[derive(Debug, Clone, Copy, PartialEq, Eq, Structural)]
pub struct DiffRect {
    /// Left edge.
    pub left: u16,
    /// Top edge.
    pub top: u16,
    /// Width.
    pub width: u16,
    /// Height.
    pub height: u16,
}

/// Pixel `p` differs by more than `t` in some channel.
pub open spec fn diff_hit(prev: Seq<u8>, curr: Seq<u8>, t: u8) -> spec_fn(int) -> bool {
    |p: int| changed_beyond(prev, curr, t, p)
}

/// The smallest rectangle holding every pixel of a `w x h` grid that
/// differs by more than `t`, or `None` when none does.
pub open spec fn diff_rect_spec(prev: Seq<u8>, curr: Seq<u8>, w: int, h: int, t: u8) -> Option<DiffRect> {
    if exists|p: int| 0 <= p < w * h && #[trigger] diff_hit(prev, curr, t)(p) {
        let b = tight_box_of(diff_hit(prev, curr, t), w * h, w);
        Some(DiffRect { left: b.0 as u16, top: b.1 as u16, width: (b.2 - b.0) as u16, height: (b.3 - b.1) as u16 })
    } else {
        None
    }
}

/// The smallest rectangle holding every pixel that differs between two
/// `width x height` RGBA buffers by more than `threshold` in some channel;
/// `None` when no pixel does.
pub fn find_diff_bounding_box(prev: &[u8], curr: &[u8], width: usize, height: usize, threshold: u8) -> (r: Option<DiffRect>)
    requires
        width <= u16::MAX,
        height <= u16::MAX,
        prev@.len() >= width * height * 4,
        curr@.len() >= width * height * 4,
    ensures
        r == diff_rect_spec(prev@, curr@, width as int, height as int, threshold),
        r matches Some(d) ==> d.width > 0 && d.height > 0 && d.left + d.width <= width && d.top + d.height
            <= height,
{
    let ghost hit = diff_hit(prev@, curr@, threshold);
    let w = width as u16;
    let h = height as u16;
    let plen = prev.len();
    let clen = curr.len();
    let mut acc = BoxAcc::new(w, h);
    let mut y: u16 = 0;
    while y < h
        invariant
            y <= h,
            w == width,
            h == height,
            hit == diff_hit(prev@, curr@, threshold),
            plen == prev@.len(),
            clen == curr@.len(),
            plen >= w as int * h as int * 4,
            clen >= w as int * h as int * 4,
            acc.inv(hit, y as int * w as int, w as int, h as int),
        decreases h - y,
    {
        let mut x: u16 = 0;
        while x < w
            invariant
                y < h,
                x <= w,
                w == width,
                h == height,
                hit == diff_hit(prev@, curr@, threshold),
                plen == prev@.len(),
                clen == curr@.len(),
                plen >= w as int * h as int * 4,
                clen >= w as int * h as int * 4,
                acc.inv(hit, y as int * w as int + x as int, w as int, h as int),
            decreases w - x,
        {
            let ghost k = y as int * w as int + x as int;
            proof {
                lemma_grid_index(x as int, y as int, w as int, h as int);
            }
            let i = ((y as usize) * (w as usize) + (x as usize)) * 4;
            let changed = abs_diff(prev[i], curr[i]) > threshold || abs_diff(prev[i + 1], curr[i + 1]) > threshold
                || abs_diff(prev[i + 2], curr[i + 2]) > threshold || abs_diff(prev[i + 3], curr[i + 3])
                > threshold;
            assert(changed == hit(k));
            let ghost before = acc;
            if changed {
                acc.add(x, y);
            }
            proof {
                BoxAcc::lemma_step(before, acc, hit, k, w as int, h as int);
                assert(k + 1 == y as int * w as int + (x + 1) as int);
            }
            x += 1;
        }
        assert(y as int * w as int + w as int == (y + 1) as int * w as int) by (nonlinear_arith);
        y += 1;
    }
    proof {
        assert(h as int * w as int == w as int * h as int) by (nonlinear_arith);
        BoxAcc::lemma_done(acc, hit, w as int * h as int, w as int, h as int);
    }
    if !acc.found {
        None
    } else {
        proof {
            lemma_tight_box_of(hit, w as int * h as int, w as int, acc.min_x as int, acc.min_y as int, acc.max_x as int, acc.max_y as int);
            let p1 = choose|p: int| 0 <= p < w as int * h as int && #[trigger] hit(p) && p % (w as int) == acc.min_x;
            assert(hit(p1));
            let p2 = choose|p: int| 0 <= p < w as int * h as int && #[trigger] hit(p) && p % (w as int) + 1 == acc.max_x;
            let p4 = choose|p: int| 0 <= p < w as int * h as int && #[trigger] hit(p) && p / (w as int) + 1 == acc.max_y;
            assert(hit(p2) && hit(p4));
            assert(w > 0) by (nonlinear_arith)
                requires
                    0 <= p1 < w as int * h as int,
            ;
            crate::spec_util::lemma_grid_coords(p1, w as int, h as int);
            crate::spec_util::lemma_grid_coords(p2, w as int, h as int);
            crate::spec_util::lemma_grid_coords(p4, w as int, h as int);
        }
        Some(DiffRect { left: acc.min_x, top: acc.min_y, width: acc.max_x - acc.min_x, height: acc.max_y - acc.min_y })
    }
}

/// Pixel `p` is within `t` of the previous pixel in every channel.
pub open spec fn unchanged_at(curr: Seq<u8>, prev: Seq<u8>, t: u8, p: int) -> bool {
    !changed_beyond(prev, curr, t, p)
}

/// The buffer with the alpha of every complete pixel that is within `t` of
/// the previous pixel set to 0.
pub open spec fn marked_unchanged(curr: Seq<u8>, prev: Seq<u8>, t: u8) -> Seq<u8> {
    Seq::new(
        curr.len(),
        |i: int| if i % 4 == 3 && i < curr.len() / 4 * 4 && unchanged_at(curr, prev, t, i / 4) { 0u8 } else { curr[i] },
    )
}

/// Mark as transparent (alpha 0) every pixel of `curr` within `threshold` of
/// the same pixel of `prev` in every channel.
pub fn mark_unchanged_pixels_simd(curr: &mut Vec<u8>, prev: &[u8], threshold: u8)
    requires
        prev@.len() >= old(curr)@.len(),
    ensures
        final(curr)@ == marked_unchanged(old(curr)@, prev@, threshold),
{
    let ghost orig = curr@;
    let len = curr.len();
    let n = len / 4;
    let mut p: usize = 0;
    while p < n
        invariant
            len == orig.len(),
            n == orig.len() / 4,
            p <= n,
            prev@.len() >= orig.len(),
            curr@.len() == orig.len(),
            forall|i: int|
                0 <= i < orig.len() ==> #[trigger] curr@[i] == if i < p * 4 {
                    marked_unchanged(orig, prev@, threshold)[i]
                } else {
                    orig[i]
                },
        decreases n - p,
    {
        let i = p * 4;
        let changed = abs_diff(prev[i], curr[i]) > threshold || abs_diff(prev[i + 1], curr[i + 1]) > threshold
            || abs_diff(prev[i + 2], curr[i + 2]) > threshold || abs_diff(prev[i + 3], curr[i + 3])
            > threshold;
        assert(changed == changed_beyond(prev@, orig, threshold, p as int));
        if !changed {
            curr.set(i + 3, 0);
        }
        p += 1;
    }
    assert(curr@ =~= marked_unchanged(orig, prev@, threshold));
}

} // verus!
