//! Preparation of RGBA frames for perceptual comparison.

use vstd::prelude::*;
use crate::analysis_kernels::sq_dist;
use crate::spec_util::{count_where, lemma_count_le};

verus! {

/// A color channel of a pixel composited onto white.
pub open spec fn on_white(c: u8, a: u8) -> u8 {
    ((c as int * a as int + 255 * (255 - a as int)) / 255) as u8
}

/// The RGB buffer of an RGBA image composited onto white; empty when the
/// buffer does not hold exactly `width * height` pixels.
pub open spec fn rgb_on_white(rgba: Seq<u8>, width: int, height: int) -> Seq<u8> {
    if rgba.len() != width * height * 4 {
        Seq::empty()
    } else {
        Seq::new(
            (width * height * 3) as nat,
            |i: int| on_white(rgba[(i / 3) * 4 + i % 3], rgba[(i / 3) * 4 + 3]),
        )
    }
}

/// Composite an RGBA image onto white, giving packed RGB (3 bytes per
/// pixel); each channel becomes `(c * a + 255 * (255 - a)) / 255`.
pub fn rgba_to_rgb_composited(rgba: &[u8], width: u32, height: u32) -> (r: Vec<u8>)
    requires
        width as int * height as int * 4 <= usize::MAX,
    ensures
        r@ == rgb_on_white(rgba@, width as int, height as int),
{
    let expected_len = (width as usize) * (height as usize) * 4;
    if rgba.len() != expected_len {
        return Vec::new();
    }
    let pixel_count = (width as usize) * (height as usize);
    let mut rgb: Vec<u8> = Vec::new();
    let mut i: usize = 0;
    while i < pixel_count
        invariant
            pixel_count == width as int * height as int,
            pixel_count * 4 <= usize::MAX,
            rgba@.len() == pixel_count * 4,
            i <= pixel_count,
            rgb@.len() == i * 3,
            forall|j: int| 0 <= j < rgb@.len() ==> #[trigger] rgb@[j] == on_white(rgba@[(j / 3) * 4 + j % 3], rgba@[(j / 3) * 4 + 3]),
        decreases pixel_count - i,
    {
        let idx = i * 4;
        let r = rgba[idx] as u32;
        let g = rgba[idx + 1] as u32;
        let b = rgba[idx + 2] as u32;
        let a = rgba[idx + 3] as u32;
        assert(r * a <= 255 * 255 && g * a <= 255 * 255 && b * a <= 255 * 255) by (nonlinear_arith)
            requires
                r <= 255,
                g <= 255,
                b <= 255,
                a <= 255,
        ;
        let out_r = ((r * a + 255 * (255 - a)) / 255) as u8;
        let out_g = ((g * a + 255 * (255 - a)) / 255) as u8;
        let out_b = ((b * a + 255 * (255 - a)) / 255) as u8;
        let ghost before = rgb@;
        rgb.push(out_r);
        rgb.push(out_g);
        rgb.push(out_b);
        proof {
            assert forall|j: int| 0 <= j < rgb@.len() implies #[trigger] rgb@[j] == on_white(rgba@[(j / 3) * 4 + j % 3], rgba@[(j / 3) * 4 + 3]) by {
                if j >= i * 3 {
                    assert(j / 3 == i);
                    assert(j % 3 == j - i * 3);
                } else {
                    assert(rgb@[j] == before[j]);
                }
            }
        }
        i += 1;
    }
    assert(rgb@ =~= rgb_on_white(rgba@, width as int, height as int));
    rgb
}

/// Number of the first `n` pixels whose squared RGB distance exceeds `limit`.
pub open spec fn outlier_count(a: Seq<u8>, b: Seq<u8>, limit: int, n: int) -> nat {
    count_where(n, |p: int| sq_dist(a, b, p) > limit)
}

/// Count the pixels of two RGBA buffers whose RGB distance exceeds the
/// square root of `limit_sq`, that is whose squared distance exceeds
/// `limit_sq`; alpha is ignored and a trailing partial pixel is not counted.
pub fn count_color_outliers(original: &[u8], processed: &[u8], limit_sq: u32) -> (r: usize)
    requires
        original@.len() == processed@.len(),
    ensures
        r == outlier_count(original@, processed@, limit_sq as int, original@.len() as int / 4),
{
    let len = original.len();
    let n = len / 4;
    let mut count: usize = 0;
    let mut p: usize = 0;
    while p < n
        invariant
            len == original@.len(),
            original@.len() == processed@.len(),
            n == original@.len() / 4,
            p <= n,
            count == outlier_count(original@, processed@, limit_sq as int, p as int),
        decreases n - p,
    {
        proof {
            lemma_count_le(p as int, |q: int| sq_dist(original@, processed@, q) > limit_sq as int);
        }
        assert(p * 4 + 3 < len);
        let i = p * 4;
        let dr = original[i] as i32 - processed[i] as i32;
        let dg = original[i + 1] as i32 - processed[i + 1] as i32;
        let db = original[i + 2] as i32 - processed[i + 2] as i32;
        assert(dr * dr <= 255 * 255 && dr * dr >= 0) by (nonlinear_arith)
            requires
                -255 <= dr <= 255,
        ;
        assert(dg * dg <= 255 * 255 && dg * dg >= 0) by (nonlinear_arith)
            requires
                -255 <= dg <= 255,
        ;
        assert(db * db <= 255 * 255 && db * db >= 0) by (nonlinear_arith)
            requires
                -255 <= db <= 255,
        ;
        let sq = (dr * dr + dg * dg + db * db) as u32;
        assert(sq == sq_dist(original@, processed@, p as int));
        if sq > limit_sq {
            count += 1;
        }
        p += 1;
    }
    count
}

} // verus!
