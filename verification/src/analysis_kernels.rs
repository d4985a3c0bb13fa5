//! Analysis kernels for the adaptive encoder.
//!
//! Each kernel comes in two forms with one contract: a chunked form that
//! walks the buffer four pixels at a time (the layout a vector unit would
//! use) and a plain scalar form. Both are stated against the same
//! mathematical definition, so they agree on every input.
//!
//! - **Changed-pixel mask**: which pixels differ between two canvases.
//! - **Transparency stats**: counts of transparent, opaque and partial pixels.
//! - **Color distance**: squared RGB distances and their integer maximum.

use vstd::prelude::*;
use crate::spec_util::{count_where, lemma_count_le};

verus! {

/// Result of changed-pixel mask analysis.
#[derive(Debug, Clone, Copy, PartialEq, Eq, Structural)]
pub struct ChangedPixelStats {
    /// Total count of pixels that changed.
    pub changed_count: usize,
    /// Count of pixels that became transparent (alpha == 0).
    pub became_transparent: usize,
    /// Count of pixels that became opaque (alpha == 255).
    pub became_opaque: usize,
}

/// Result of transparency and color statistics.
#[derive(Debug, Clone, Copy, PartialEq, Eq, Structural)]
pub struct TransparencyStats {
    /// Count of fully transparent pixels (alpha == 0).
    pub transparent_count: usize,
    /// Count of fully opaque pixels (alpha == 255).
    pub opaque_count: usize,
    /// Count of semi-transparent pixels (0 < alpha < 255).
    pub semi_transparent_count: usize,
}

/// Result of color-distance statistics.
#[derive(Debug, Clone, Copy, PartialEq, Eq, Structural)]
pub struct ColorDistanceStats {
    /// Sum of squared color distances (for RMSE calculation).
    pub sum_sq_distance: u64,
    /// Count of pixels analyzed.
    pub pixel_count: usize,
    /// Maximum color distance found (rounded down).
    pub max_distance: u32,
}

/// Absolute difference of two bytes.
pub open spec fn byte_diff(a: u8, b: u8) -> int {
    if a >= b { a - b } else { b - a }
}

/// Pixel `p` differs by more than `t` in at least one RGBA channel.
pub open spec fn changed_beyond(prev: Seq<u8>, curr: Seq<u8>, t: u8, p: int) -> bool {
    byte_diff(prev[p * 4], curr[p * 4]) > t || byte_diff(prev[p * 4 + 1], curr[p * 4 + 1]) > t
        || byte_diff(prev[p * 4 + 2], curr[p * 4 + 2]) > t || byte_diff(
        prev[p * 4 + 3],
        curr[p * 4 + 3],
    ) > t
}

/// Pixel `p` changed and its alpha went from nonzero to zero.
pub open spec fn became_transparent_at(prev: Seq<u8>, curr: Seq<u8>, t: u8, p: int) -> bool {
    changed_beyond(prev, curr, t, p) && curr[p * 4 + 3] == 0 && prev[p * 4 + 3] != 0
}

/// Pixel `p` changed and its alpha went from below 255 to 255.
pub open spec fn became_opaque_at(prev: Seq<u8>, curr: Seq<u8>, t: u8, p: int) -> bool {
    changed_beyond(prev, curr, t, p) && curr[p * 4 + 3] == 255 && prev[p * 4 + 3] != 255
}

/// The changed-pixel statistics of the first `n` pixels.
pub open spec fn changed_stats_upto(prev: Seq<u8>, curr: Seq<u8>, t: u8, n: int) -> ChangedPixelStats {
    ChangedPixelStats {
        changed_count: count_where(n, |p: int| changed_beyond(prev, curr, t, p)) as usize,
        became_transparent: count_where(n, |p: int| became_transparent_at(prev, curr, t, p)) as usize,
        became_opaque: count_where(n, |p: int| became_opaque_at(prev, curr, t, p)) as usize,
    }
}

/// The changed-pixel statistics over all complete pixels of the buffers.
pub open spec fn changed_stats(prev: Seq<u8>, curr: Seq<u8>, t: u8) -> ChangedPixelStats {
    changed_stats_upto(prev, curr, t, prev.len() as int / 4)
}

/// Alpha of pixel `p` is strictly between 0 and 255.
pub open spec fn semi_at(pixels: Seq<u8>, p: int) -> bool {
    pixels[p * 4 + 3] != 0 && pixels[p * 4 + 3] != 255
}

/// The transparency statistics of the first `n` pixels.
pub open spec fn transparency_stats_upto(pixels: Seq<u8>, n: int) -> TransparencyStats {
    TransparencyStats {
        transparent_count: count_where(n, |p: int| pixels[p * 4 + 3] == 0u8) as usize,
        opaque_count: count_where(n, |p: int| pixels[p * 4 + 3] == 255u8) as usize,
        semi_transparent_count: count_where(n, |p: int| semi_at(pixels, p)) as usize,
    }
}

/// The transparency statistics over all pixels of the buffer.
pub open spec fn transparency_stats(pixels: Seq<u8>) -> TransparencyStats {
    transparency_stats_upto(pixels, pixels.len() as int / 4)
}

/// Squared RGB distance of pixel `p` (alpha ignored).
pub open spec fn sq_dist(prev: Seq<u8>, curr: Seq<u8>, p: int) -> int {
    let r = prev[p * 4] - curr[p * 4];
    let g = prev[p * 4 + 1] - curr[p * 4 + 1];
    let b = prev[p * 4 + 2] - curr[p * 4 + 2];
    r * r + g * g + b * b
}

/// `r` is the integer square root of `n`, rounded down.
pub open spec fn is_floor_sqrt(r: int, n: int) -> bool {
    0 <= r && r * r <= n < (r + 1) * (r + 1)
}

/// The integer square root of a natural number, rounded down.
pub open spec fn floor_sqrt(n: int) -> int {
    choose|r: int| is_floor_sqrt(r, n)
}

/// Sum of the squared distances of the first `n` pixels.
pub open spec fn sum_sq_upto(prev: Seq<u8>, curr: Seq<u8>, n: int) -> int
    decreases n,
{
    if n <= 0 {
        0
    } else {
        sum_sq_upto(prev, curr, n - 1) + sq_dist(prev, curr, n - 1)
    }
}

/// Largest rounded-down distance among the first `n` pixels (0 when none).
pub open spec fn max_dist_upto(prev: Seq<u8>, curr: Seq<u8>, n: int) -> int
    decreases n,
{
    if n <= 0 {
        0
    } else {
        let m = max_dist_upto(prev, curr, n - 1);
        let d = floor_sqrt(sq_dist(prev, curr, n - 1));
        if d > m { d } else { m }
    }
}

/// The color-distance statistics over all pixels of the buffers.
pub open spec fn color_distance_stats(prev: Seq<u8>, curr: Seq<u8>) -> ColorDistanceStats {
    let n = prev.len() as int / 4;
    ColorDistanceStats {
        sum_sq_distance: sum_sq_upto(prev, curr, n) as u64,
        pixel_count: n as usize,
        max_distance: max_dist_upto(prev, curr, n) as u32,
    }
}

/// Largest squared RGB distance of one pixel.
pub open spec fn max_sq_dist() -> int {
    195075int
}

/// The rounded-down square root is unique.
pub proof fn lemma_floor_sqrt_unique(r: int, n: int)
    requires
        is_floor_sqrt(r, n),
    ensures
        floor_sqrt(n) == r,
{
    let c = choose|q: int| is_floor_sqrt(q, n);
    assert(is_floor_sqrt(c, n));
    if c < r {
        assert((c + 1) * (c + 1) <= r * r) by (nonlinear_arith)
            requires
                0 <= c < r,
        ;
    } else if c > r {
        assert((r + 1) * (r + 1) <= c * c) by (nonlinear_arith)
            requires
                0 <= r < c,
        ;
    }
}

/// Squared distances of one pixel are bounded.
pub proof fn lemma_sq_dist_bound(prev: Seq<u8>, curr: Seq<u8>, p: int)
    ensures
        0 <= sq_dist(prev, curr, p) <= max_sq_dist(),
{
    let r = prev[p * 4] - curr[p * 4];
    let g = prev[p * 4 + 1] - curr[p * 4 + 1];
    let b = prev[p * 4 + 2] - curr[p * 4 + 2];
    assert(0 <= r * r <= 255 * 255) by (nonlinear_arith)
        requires
            -255 <= r <= 255,
    ;
    assert(0 <= g * g <= 255 * 255) by (nonlinear_arith)
        requires
            -255 <= g <= 255,
    ;
    assert(0 <= b * b <= 255 * 255) by (nonlinear_arith)
        requires
            -255 <= b <= 255,
    ;
}

/// The running sum of squared distances is bounded by the pixel count.
pub proof fn lemma_sum_sq_bound(prev: Seq<u8>, curr: Seq<u8>, n: int)
    requires
        0 <= n,
    ensures
        0 <= sum_sq_upto(prev, curr, n) <= n * max_sq_dist(),
    decreases n,
{
    if n > 0 {
        lemma_sum_sq_bound(prev, curr, n - 1);
        lemma_sq_dist_bound(prev, curr, n - 1);
    }
}

/// The running maximum distance stays below the largest possible distance.
pub proof fn lemma_max_dist_bound(prev: Seq<u8>, curr: Seq<u8>, n: int)
    ensures
        0 <= max_dist_upto(prev, curr, n) <= 442,
    decreases n,
{
    if n > 0 {
        lemma_max_dist_bound(prev, curr, n - 1);
        let s = sq_dist(prev, curr, n - 1);
        lemma_sq_dist_bound(prev, curr, n - 1);
        let r = floor_sqrt(s);
        assert(exists|q: int| is_floor_sqrt(q, s)) by {
            let q = isqrt_witness(s);
            assert(is_floor_sqrt(q, s));
        }
        assert(is_floor_sqrt(r, s));
        assert(r <= 442) by (nonlinear_arith)
            requires
                0 <= r,
                r * r <= s,
                s <= 3 * 255 * 255,
        ;
    }
}

/// Every natural number below the largest squared distance plus one has a
/// rounded-down square root.
pub proof fn isqrt_witness(n: int) -> (r: int)
    requires
        0 <= n <= max_sq_dist(),
    ensures
        is_floor_sqrt(r, n),
    decreases n,
{
    if n == 0 {
        0
    } else {
        let q = isqrt_witness(n - 1);
        if (q + 1) * (q + 1) <= n {
            assert((q + 1) * (q + 1) == n) by (nonlinear_arith)
                requires
                    (q + 1) * (q + 1) <= n,
                    n - 1 < (q + 1) * (q + 1),
            ;
            assert(n < (q + 2) * (q + 2)) by (nonlinear_arith)
                requires
                    (q + 1) * (q + 1) == n,
                    0 <= q,
            ;
            q + 1
        } else {
            q
        }
    }
}

/// Integer square root, rounded down, of a squared pixel distance.
pub fn floor_sqrt_dist(n: u32) -> (r: u32)
    requires
        n <= max_sq_dist(),
    ensures
        r == floor_sqrt(n as int),
        r <= 442,
{
    let mut lo: u32 = 0;
    let mut hi: u32 = 443;
    assert(n < 443 * 443);
    while hi - lo > 1
        invariant
            lo < hi <= 443,
            lo * lo <= n,
            n < hi * hi,
        decreases hi - lo,
    {
        let mid = lo + (hi - lo) / 2;
        assert(mid * mid <= 443 * 443) by (nonlinear_arith)
            requires
                mid <= 443,
        ;
        if mid * mid <= n {
            lo = mid;
        } else {
            hi = mid;
        }
    }
    assert(hi == lo + 1);
    proof {
        lemma_floor_sqrt_unique(lo as int, n as int);
    }
    lo
}

/// Whether pixel `p` changed beyond `t`, and whether it became transparent
/// or opaque.
fn pixel_change_flags(prev: &[u8], curr: &[u8], t: u8, p: usize) -> (r: (bool, bool, bool))
    requires
        p * 4 + 3 < prev@.len(),
        p * 4 + 3 < curr@.len(),
    ensures
        r.0 == changed_beyond(prev@, curr@, t, p as int),
        r.1 == became_transparent_at(prev@, curr@, t, p as int),
        r.2 == became_opaque_at(prev@, curr@, t, p as int),
{
    let _len = prev.len();
    let i = p * 4;
    let changed = abs_diff(prev[i], curr[i]) > t || abs_diff(prev[i + 1], curr[i + 1]) > t
        || abs_diff(prev[i + 2], curr[i + 2]) > t || abs_diff(prev[i + 3], curr[i + 3]) > t;
    let prev_alpha = prev[i + 3];
    let curr_alpha = curr[i + 3];
    (
        changed,
        changed && curr_alpha == 0 && prev_alpha != 0,
        changed && curr_alpha == 255 && prev_alpha != 255,
    )
}

/// Absolute difference of two bytes.
pub fn abs_diff(a: u8, b: u8) -> (r: u8)
    ensures
        r == byte_diff(a, b),
{
    if a >= b { a - b } else { b - a }
}

/// Add pixel `p` to running changed-pixel statistics of the first `p` pixels.
fn tally_changed(prev: &[u8], curr: &[u8], t: u8, p: usize, stats: &mut ChangedPixelStats)
    requires
        p * 4 + 3 < prev@.len(),
        p * 4 + 3 < curr@.len(),
        p < usize::MAX,
        *old(stats) == changed_stats_upto(prev@, curr@, t, p as int),
    ensures
        *final(stats) == changed_stats_upto(prev@, curr@, t, p + 1),
{
    proof {
        lemma_count_le(p as int, |q: int| changed_beyond(prev@, curr@, t, q));
        lemma_count_le(p as int, |q: int| became_transparent_at(prev@, curr@, t, q));
        lemma_count_le(p as int, |q: int| became_opaque_at(prev@, curr@, t, q));
    }
    let (changed, bt, bo) = pixel_change_flags(prev, curr, t, p);
    if changed {
        stats.changed_count = stats.changed_count + 1;
        if bt {
            stats.became_transparent = stats.became_transparent + 1;
        } else if bo {
            stats.became_opaque = stats.became_opaque + 1;
        }
    }
}

/// Analyze changed pixels between two canvases, four pixels at a time.
///
/// A pixel is changed if any RGBA channel differs by more than `threshold`;
/// changed pixels whose alpha went to 0 (from nonzero) or to 255 (from below
/// 255) are counted as having become transparent or opaque.
pub fn analyze_changed_pixels_simd(prev: &[u8], curr: &[u8], threshold: u8) -> (r: ChangedPixelStats)
    requires
        prev@.len() == curr@.len(),
        prev@.len() % 4 == 0,
    ensures
        r == changed_stats(prev@, curr@, threshold),
{
    let len = prev.len();
    let n = len / 4;
    let chunks = len / 16;
    let mut stats = ChangedPixelStats { changed_count: 0, became_transparent: 0, became_opaque: 0 };
    let mut c: usize = 0;
    while c < chunks
        invariant
            len == prev@.len(),
            len == curr@.len(),
            n == len / 4,
            chunks == len / 16,
            c <= chunks,
            stats == changed_stats_upto(prev@, curr@, threshold, c * 4),
        decreases chunks - c,
    {
        let mut k: usize = 0;
        while k < 4
            invariant
                len == prev@.len(),
                len == curr@.len(),
                n == len / 4,
                chunks == len / 16,
                c < chunks,
                k <= 4,
                stats == changed_stats_upto(prev@, curr@, threshold, c * 4 + k),
            decreases 4 - k,
        {
            tally_changed(prev, curr, threshold, c * 4 + k, &mut stats);
            k += 1;
        }
        c += 1;
    }
    let mut p: usize = chunks * 4;
    while p < n
        invariant
            len == prev@.len(),
            len == curr@.len(),
            n == len / 4,
            chunks * 4 <= p <= n,
            stats == changed_stats_upto(prev@, curr@, threshold, p as int),
        decreases n - p,
    {
        tally_changed(prev, curr, threshold, p, &mut stats);
        p += 1;
    }
    stats
}

/// Scalar form of [`analyze_changed_pixels_simd`]; a trailing partial pixel is ignored.
pub fn analyze_changed_pixels_scalar(prev: &[u8], curr: &[u8], threshold: u8) -> (r: ChangedPixelStats)
    requires
        prev@.len() == curr@.len(),
    ensures
        r == changed_stats(prev@, curr@, threshold),
{
    let n = prev.len() / 4;
    let mut stats = ChangedPixelStats { changed_count: 0, became_transparent: 0, became_opaque: 0 };
    let mut p: usize = 0;
    while p < n
        invariant
            prev@.len() == curr@.len(),
            n == prev@.len() / 4,
            p <= n,
            stats == changed_stats_upto(prev@, curr@, threshold, p as int),
        decreases n - p,
    {
        tally_changed(prev, curr, threshold, p, &mut stats);
        p += 1;
    }
    stats
}

/// Add pixel `p` to running transparency statistics of the first `p` pixels.
fn tally_transparency(pixels: &[u8], p: usize, stats: &mut TransparencyStats)
    requires
        p * 4 + 3 < pixels@.len(),
        p < usize::MAX,
        *old(stats) == transparency_stats_upto(pixels@, p as int),
    ensures
        *final(stats) == transparency_stats_upto(pixels@, p + 1),
{
    proof {
        lemma_count_le(p as int, |q: int| pixels@[q * 4 + 3] == 0u8);
        lemma_count_le(p as int, |q: int| pixels@[q * 4 + 3] == 255u8);
        lemma_count_le(p as int, |q: int| semi_at(pixels@, q));
    }
    let _len = pixels.len();
    let alpha = pixels[p * 4 + 3];
    if alpha == 0 {
        stats.transparent_count = stats.transparent_count + 1;
    } else if alpha == 255 {
        stats.opaque_count = stats.opaque_count + 1;
    } else {
        stats.semi_transparent_count = stats.semi_transparent_count + 1;
    }
}

/// Analyze the transparency distribution of a canvas, four pixels at a time:
/// counts of fully transparent, fully opaque and semi-transparent pixels.
pub fn analyze_transparency_simd(pixels: &[u8]) -> (r: TransparencyStats)
    requires
        pixels@.len() % 4 == 0,
    ensures
        r == transparency_stats(pixels@),
{
    let len = pixels.len();
    let n = len / 4;
    let chunks = len / 16;
    let mut stats = TransparencyStats { transparent_count: 0, opaque_count: 0, semi_transparent_count: 0 };
    let mut c: usize = 0;
    while c < chunks
        invariant
            len == pixels@.len(),
            n == len / 4,
            chunks == len / 16,
            c <= chunks,
            stats == transparency_stats_upto(pixels@, c * 4),
        decreases chunks - c,
    {
        let mut k: usize = 0;
        while k < 4
            invariant
                len == pixels@.len(),
                n == len / 4,
                chunks == len / 16,
                c < chunks,
                k <= 4,
                stats == transparency_stats_upto(pixels@, c * 4 + k),
            decreases 4 - k,
        {
            tally_transparency(pixels, c * 4 + k, &mut stats);
            k += 1;
        }
        c += 1;
    }
    let mut p: usize = chunks * 4;
    while p < n
        invariant
            len == pixels@.len(),
            n == len / 4,
            chunks * 4 <= p <= n,
            stats == transparency_stats_upto(pixels@, p as int),
        decreases n - p,
    {
        tally_transparency(pixels, p, &mut stats);
        p += 1;
    }
    stats
}

/// Scalar form of [`analyze_transparency_simd`].
pub fn analyze_transparency_scalar(pixels: &[u8]) -> (r: TransparencyStats)
    requires
        pixels@.len() % 4 == 0,
    ensures
        r == transparency_stats(pixels@),
{
    let n = pixels.len() / 4;
    let mut stats = TransparencyStats { transparent_count: 0, opaque_count: 0, semi_transparent_count: 0 };
    let mut p: usize = 0;
    while p < n
        invariant
            n == pixels@.len() / 4,
            p <= n,
            stats == transparency_stats_upto(pixels@, p as int),
        decreases n - p,
    {
        tally_transparency(pixels, p, &mut stats);
        p += 1;
    }
    stats
}

/// Add pixel `p` to the running sum and maximum of the first `p` pixels.
fn tally_distance(prev: &[u8], curr: &[u8], p: usize, sum: &mut u64, max: &mut u32)
    requires
        p * 4 + 3 < prev@.len(),
        p * 4 + 3 < curr@.len(),
        (p + 1) * max_sq_dist() <= u64::MAX,
        *old(sum) == sum_sq_upto(prev@, curr@, p as int),
        *old(max) == max_dist_upto(prev@, curr@, p as int),
    ensures
        *final(sum) == sum_sq_upto(prev@, curr@, p + 1),
        *final(max) == max_dist_upto(prev@, curr@, p + 1),
{
    proof {
        lemma_sum_sq_bound(prev@, curr@, p as int);
        lemma_sq_dist_bound(prev@, curr@, p as int);
        lemma_max_dist_bound(prev@, curr@, p as int);
    }
    let _len = prev.len();
    let i = p * 4;
    let r_diff = prev[i] as i32 - curr[i] as i32;
    let g_diff = prev[i + 1] as i32 - curr[i + 1] as i32;
    let b_diff = prev[i + 2] as i32 - curr[i + 2] as i32;
    assert(r_diff * r_diff <= 255 * 255) by (nonlinear_arith)
        requires
            -255 <= r_diff <= 255,
    ;
    assert(g_diff * g_diff <= 255 * 255) by (nonlinear_arith)
        requires
            -255 <= g_diff <= 255,
    ;
    assert(b_diff * b_diff <= 255 * 255) by (nonlinear_arith)
        requires
            -255 <= b_diff <= 255,
    ;
    let sq = (r_diff * r_diff + g_diff * g_diff + b_diff * b_diff) as u32;
    assert(sq == sq_dist(prev@, curr@, p as int));
    *sum = *sum + sq as u64;
    let dist = floor_sqrt_dist(sq);
    if dist > *max {
        *max = dist;
    }
}

/// Analyze the color distance between two canvases, four pixels at a time:
/// the sum of squared RGB distances, the pixel count and the largest
/// distance rounded down.
pub fn analyze_color_distance_simd(prev: &[u8], curr: &[u8]) -> (r: ColorDistanceStats)
    requires
        prev@.len() == curr@.len(),
        prev@.len() % 4 == 0,
        (prev@.len() / 4) * max_sq_dist() <= u64::MAX,
    ensures
        r == color_distance_stats(prev@, curr@),
{
    let len = prev.len();
    let n = len / 4;
    let chunks = len / 16;
    let mut sum: u64 = 0;
    let mut max: u32 = 0;
    let mut c: usize = 0;
    while c < chunks
        invariant
            len == prev@.len(),
            len == curr@.len(),
            n == len / 4,
            n * max_sq_dist() <= u64::MAX,
            chunks == len / 16,
            c <= chunks,
            sum == sum_sq_upto(prev@, curr@, c * 4),
            max == max_dist_upto(prev@, curr@, c * 4),
        decreases chunks - c,
    {
        let mut k: usize = 0;
        while k < 4
            invariant
                len == prev@.len(),
                len == curr@.len(),
                n == len / 4,
                n * max_sq_dist() <= u64::MAX,
                chunks == len / 16,
                c < chunks,
                k <= 4,
                sum == sum_sq_upto(prev@, curr@, c * 4 + k),
                max == max_dist_upto(prev@, curr@, c * 4 + k),
            decreases 4 - k,
        {
            tally_distance(prev, curr, c * 4 + k, &mut sum, &mut max);
            k += 1;
        }
        c += 1;
    }
    let mut p: usize = chunks * 4;
    while p < n
        invariant
            len == prev@.len(),
            len == curr@.len(),
            n == len / 4,
            n * max_sq_dist() <= u64::MAX,
            chunks * 4 <= p <= n,
            sum == sum_sq_upto(prev@, curr@, p as int),
            max == max_dist_upto(prev@, curr@, p as int),
        decreases n - p,
    {
        tally_distance(prev, curr, p, &mut sum, &mut max);
        p += 1;
    }
    ColorDistanceStats { sum_sq_distance: sum, pixel_count: n, max_distance: max }
}

/// Scalar form of [`analyze_color_distance_simd`].
pub fn analyze_color_distance_scalar(prev: &[u8], curr: &[u8]) -> (r: ColorDistanceStats)
    requires
        prev@.len() == curr@.len(),
        prev@.len() % 4 == 0,
        (prev@.len() / 4) * max_sq_dist() <= u64::MAX,
    ensures
        r == color_distance_stats(prev@, curr@),
{
    let n = prev.len() / 4;
    let mut sum: u64 = 0;
    let mut max: u32 = 0;
    let mut p: usize = 0;
    while p < n
        invariant
            prev@.len() == curr@.len(),
            n == prev@.len() / 4,
            n * max_sq_dist() <= u64::MAX,
            p <= n,
            sum == sum_sq_upto(prev@, curr@, p as int),
            max == max_dist_upto(prev@, curr@, p as int),
        decreases n - p,
    {
        tally_distance(prev, curr, p, &mut sum, &mut max);
        p += 1;
    }
    ColorDistanceStats { sum_sq_distance: sum, pixel_count: n, max_distance: max }
}

/// Every pixel is exactly one of transparent, opaque or semi-transparent:
/// the three transparency counts add up to the pixel count.
pub proof fn law_transparency_counts_partition(pixels: Seq<u8>, n: int)
    requires
        0 <= n,
    ensures
        count_where(n, |p: int| pixels[p * 4 + 3] == 0u8) + count_where(n, |p: int| pixels[p * 4 + 3] == 255u8)
            + count_where(n, |p: int| semi_at(pixels, p)) == n,
    decreases n,
{
    if n > 0 {
        law_transparency_counts_partition(pixels, n - 1);
    }
}

/// The squared distance of a pixel is the same both ways round.
proof fn lemma_sq_dist_symmetric(a: Seq<u8>, b: Seq<u8>, p: int)
    ensures
        sq_dist(a, b, p) == sq_dist(b, a, p),
{
    let r = a[p * 4] - b[p * 4];
    let g = a[p * 4 + 1] - b[p * 4 + 1];
    let bl = a[p * 4 + 2] - b[p * 4 + 2];
    assert(r * r == (-r) * (-r)) by (nonlinear_arith);
    assert(g * g == (-g) * (-g)) by (nonlinear_arith);
    assert(bl * bl == (-bl) * (-bl)) by (nonlinear_arith);
}

/// Color-distance statistics do not depend on which buffer comes first:
/// comparing `curr` with `prev` gives what comparing `prev` with `curr` gives.
pub proof fn law_color_distance_symmetric(prev: Seq<u8>, curr: Seq<u8>)
    requires
        prev.len() == curr.len(),
    ensures
        color_distance_stats(prev, curr) == color_distance_stats(curr, prev),
{
    lemma_distance_sums_agree(prev, curr, curr, prev, prev.len() as int / 4, true);
}

/// Color-distance statistics ignore alpha: buffers that agree with two
/// others on every red, green and blue byte give the same statistics.
pub proof fn law_color_distance_ignores_alpha(prev: Seq<u8>, curr: Seq<u8>, prev2: Seq<u8>, curr2: Seq<u8>)
    requires
        prev.len() == curr.len(),
        prev2.len() == prev.len(),
        curr2.len() == curr.len(),
        forall|i: int| 0 <= i < prev.len() && i % 4 != 3 ==> prev2[i] == prev[i] && curr2[i] == curr[i],
    ensures
        color_distance_stats(prev, curr) == color_distance_stats(prev2, curr2),
{
    lemma_distance_sums_agree(prev, curr, prev2, curr2, prev.len() as int / 4, false);
}

/// The sums and maxima up to pixel `n` agree when every pixel's squared
/// distance agrees: either the second pair is the first swapped, or it has
/// the same color bytes.
proof fn lemma_distance_sums_agree(a: Seq<u8>, b: Seq<u8>, a2: Seq<u8>, b2: Seq<u8>, n: int, swapped: bool)
    requires
        a.len() == b.len(),
        swapped ==> a2 == b && b2 == a,
        !swapped ==> a2.len() == a.len() && b2.len() == b.len() && forall|i: int|
            0 <= i < a.len() && i % 4 != 3 ==> a2[i] == a[i] && b2[i] == b[i],
        0 <= n <= a.len() / 4,
    ensures
        sum_sq_upto(a, b, n) == sum_sq_upto(a2, b2, n),
        max_dist_upto(a, b, n) == max_dist_upto(a2, b2, n),
    decreases n,
{
    if n > 0 {
        lemma_distance_sums_agree(a, b, a2, b2, n - 1, swapped);
        let p = n - 1;
        if swapped {
            lemma_sq_dist_symmetric(a, b, p);
        } else {
            assert(a2[p * 4] == a[p * 4] && b2[p * 4] == b[p * 4]);
            assert(a2[p * 4 + 1] == a[p * 4 + 1] && b2[p * 4 + 1] == b[p * 4 + 1]);
            assert(a2[p * 4 + 2] == a[p * 4 + 2] && b2[p * 4 + 2] == b[p * 4 + 2]);
        }
        assert(sq_dist(a, b, p) == sq_dist(a2, b2, p));
    }
}


/// The rounded-down distance of every pixel is the rounded-down square root
/// of its squared distance.
proof fn lemma_pixel_floor_sqrt(prev: Seq<u8>, curr: Seq<u8>, p: int)
    ensures
        is_floor_sqrt(floor_sqrt(sq_dist(prev, curr, p)), sq_dist(prev, curr, p)),
{
    let s = sq_dist(prev, curr, p);
    lemma_sq_dist_bound(prev, curr, p);
    let q = isqrt_witness(s);
    assert(is_floor_sqrt(q, s));
}

/// The running maximum over the first `n` pixels is at least the distance
/// of each of them, and is the distance of one of them when there is one.
proof fn lemma_max_dist_is_max(prev: Seq<u8>, curr: Seq<u8>, n: int)
    requires
        0 <= n,
    ensures
        forall|p: int| 0 <= p < n ==> max_dist_upto(prev, curr, n) >= #[trigger] floor_sqrt(sq_dist(prev, curr, p)),
        n == 0 ==> max_dist_upto(prev, curr, n) == 0,
        n > 0 ==> exists|p: int| 0 <= p < n && max_dist_upto(prev, curr, n) == #[trigger] floor_sqrt(sq_dist(prev, curr, p)),
    decreases n,
{
    if n > 0 {
        lemma_max_dist_is_max(prev, curr, n - 1);
        let d = floor_sqrt(sq_dist(prev, curr, n - 1));
        if max_dist_upto(prev, curr, n) == d {
            assert(0 <= n - 1 < n && max_dist_upto(prev, curr, n) == floor_sqrt(sq_dist(prev, curr, n - 1)));
        } else {
            lemma_pixel_floor_sqrt(prev, curr, n - 1);
            assert(n - 1 > 0);
            let w = choose|p: int| 0 <= p < n - 1 && max_dist_upto(prev, curr, n - 1) == #[trigger] floor_sqrt(sq_dist(prev, curr, p));
            assert(0 <= w < n && max_dist_upto(prev, curr, n) == floor_sqrt(sq_dist(prev, curr, w)));
        }
    }
}

/// The largest distance of the statistics is a true maximum: it is at least
/// the rounded-down RGB distance of every pixel, and it is the rounded-down
/// distance of some pixel (0 when there is no pixel).
pub proof fn law_max_distance_is_largest(prev: Seq<u8>, curr: Seq<u8>)
    requires
        prev.len() == curr.len(),
    ensures
        forall|p: int, r: int|
            0 <= p < prev.len() / 4 && is_floor_sqrt(r, sq_dist(prev, curr, p))
                ==> color_distance_stats(prev, curr).max_distance >= r,
        prev.len() / 4 == 0 ==> color_distance_stats(prev, curr).max_distance == 0,
        prev.len() / 4 > 0 ==> exists|p: int|
            0 <= p < prev.len() / 4 && is_floor_sqrt(
                color_distance_stats(prev, curr).max_distance as int,
                #[trigger] sq_dist(prev, curr, p),
            ),
{
    let n = prev.len() as int / 4;
    lemma_max_dist_is_max(prev, curr, n);
    lemma_max_dist_bound(prev, curr, n);
    let m = max_dist_upto(prev, curr, n);
    assert(color_distance_stats(prev, curr).max_distance == m);
    assert forall|p: int, r: int|
        0 <= p < prev.len() / 4 && is_floor_sqrt(r, sq_dist(prev, curr, p))
            implies color_distance_stats(prev, curr).max_distance >= r by {
        lemma_floor_sqrt_unique(r, sq_dist(prev, curr, p));
        assert(m >= floor_sqrt(sq_dist(prev, curr, p)));
    }
    if n > 0 {
        let w = choose|p: int| 0 <= p < n && m == #[trigger] floor_sqrt(sq_dist(prev, curr, p));
        lemma_pixel_floor_sqrt(prev, curr, w);
        assert(is_floor_sqrt(color_distance_stats(prev, curr).max_distance as int, sq_dist(prev, curr, w)));
    }
}

} // verus!
