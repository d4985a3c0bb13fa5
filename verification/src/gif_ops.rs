//! Shared GIF helpers: palette derivation, transparent-index selection,
//! changed bounding boxes and bounding-box extraction.

use vstd::prelude::*;
use crate::adaptive_ir::{BoundingBox, changed_bbox_spec, scan_changes};
use crate::error::Error;
use crate::spec_util::{count_where, lemma_count_le};

verus! {

/// The palette, as flat RGB bytes, that `imagequant` derives from RGBA
/// pixels (at most 256 colours, quality from 0 to 100, default gamma and
/// dithering level); `None` when it reports an error.
pub uninterp spec fn quantized_palette(rgba: Seq<u8>) -> Option<Seq<u8>>;

/// `imagequant`: `Attributes::new`, `set_max_colors(256)`,
/// `set_quality(0, 100)`, `new_image_borrowed` on the pixels as one row,
/// `quantize` and `remapped`; the palette comes back as flat RGB bytes. What
/// it returns, or whether it fails, is the named outcome of these pixels
/// (the quantizer is deterministic: its hash maps use a fixed hasher and
/// threads are not enabled).
#[verifier::external_body]
fn quantize_palette(rgba: &[u8]) -> (r: Option<Vec<u8>>)
    requires
        rgba@.len() >= 4,
    ensures
        match r {
            Some(p) => quantized_palette(rgba@) == Some(p@),
            None => quantized_palette(rgba@) is None,
        },
{
    let px: Vec<imagequant::RGBA> = rgba.chunks_exact(4).map(|c| imagequant::RGBA::new(c[0], c[1], c[2], c[3])).collect();
    let mut attr = imagequant::Attributes::new();
    attr.set_max_colors(256).ok()?;
    attr.set_quality(0, 100).ok()?;
    let mut img = attr.new_image_borrowed(&px, px.len(), 1, Default::default()).ok()?;
    let mut res = attr.quantize(&mut img).ok()?;
    let (palette, _) = res.remapped(&mut img).ok()?;
    Some(palette.iter().flat_map(|c| [c.r, c.g, c.b]).collect())
}

/// Derive a palette of at most 256 colours from RGBA pixels, as flat RGB
/// bytes, with `imagequant`. Fewer than one whole pixel gives an empty
/// palette; a quantizer failure is the encode error "palette quantization
/// failed".
pub fn derive_palette_from_rgba(rgba_pixels: &[u8]) -> (r: crate::error::Result<Vec<u8>>)
    ensures
        rgba_pixels@.len() < 4 ==> (r matches Ok(p) && p@.len() == 0),
        rgba_pixels@.len() >= 4 ==> (r is Ok <==> quantized_palette(rgba_pixels@) is Some),
        rgba_pixels@.len() >= 4 ==> (r matches Ok(p) ==> quantized_palette(rgba_pixels@) == Some(p@)),
        r matches Err(e) ==> (e matches Error::EncodeError(m) && m@ == "palette quantization failed"@),
{
    if rgba_pixels.len() < 4 {
        return Ok(Vec::new());
    }
    match quantize_palette(rgba_pixels) {
        Some(p) => Ok(p),
        None => Err(Error::EncodeError(String::from_str("palette quantization failed"))),
    }
}

/// Number of pixels considered: complete RGBA pixels that also have an index.
pub open spec fn indexed_pixels(rgba: Seq<u8>, indices: Seq<u8>) -> int {
    let n = rgba.len() as int / 4;
    if n < indices.len() { n } else { indices.len() as int }
}

/// Pixel `i` is transparent for GIF purposes (alpha below 128).
pub open spec fn is_clear(rgba: Seq<u8>, i: int) -> bool {
    rgba[i * 4 + 3] < 128
}

/// Pixel `i` is opaque and uses palette index `k`.
pub open spec fn uses_index(rgba: Seq<u8>, indices: Seq<u8>, k: int) -> spec_fn(int) -> bool {
    |i: int| !is_clear(rgba, i) && indices[i] == k
}

/// How many considered opaque pixels use palette index `k`.
pub open spec fn opaque_usage(rgba: Seq<u8>, indices: Seq<u8>, k: int) -> nat {
    count_where(indexed_pixels(rgba, indices), uses_index(rgba, indices, k))
}

/// Some complete pixel is transparent.
pub open spec fn has_clear_pixel(rgba: Seq<u8>) -> bool {
    exists|i: int| 0 <= i < rgba.len() as int / 4 && is_clear(rgba, i)
}

/// `k` is the palette entry chosen for transparency among `plen` entries:
/// entry 0 if no opaque pixel uses it, else the first entry after 0 that no
/// opaque pixel uses, else the first least-used entry.
pub open spec fn is_transparent_choice(rgba: Seq<u8>, indices: Seq<u8>, plen: int, k: int) -> bool {
    if opaque_usage(rgba, indices, 0) == 0 {
        k == 0
    } else if exists|j: int| 1 <= j < plen && #[trigger] opaque_usage(rgba, indices, j) == 0 {
        &&& 1 <= k < plen
        &&& opaque_usage(rgba, indices, k) == 0
        &&& forall|j: int| 1 <= j < k ==> #[trigger] opaque_usage(rgba, indices, j) != 0
    } else {
        &&& 0 <= k < plen
        &&& forall|j: int|
            0 <= j < plen ==> opaque_usage(rgba, indices, k) <= #[trigger] opaque_usage(rgba, indices, j)
        &&& forall|j: int| 0 <= j < k ==> #[trigger] opaque_usage(rgba, indices, j) > opaque_usage(rgba, indices, k)
    }
}

/// Every considered opaque pixel indexes an existing palette entry.
pub open spec fn opaque_indices_in_palette(rgba: Seq<u8>, indices: Seq<u8>, plen: int) -> bool {
    forall|i: int|
        0 <= i < indexed_pixels(rgba, indices) && !is_clear(rgba, i) ==> #[trigger] indices[i] < plen
}

/// The indices after every considered transparent pixel is set to `t`.
pub open spec fn remapped_indices(rgba: Seq<u8>, indices: Seq<u8>, t: u8) -> Seq<u8> {
    Seq::new(
        indices.len(),
        |i: int|
            if i < indexed_pixels(rgba, indices) && is_clear(rgba, i) {
                t
            } else {
                indices[i]
            },
    )
}

/// Find a transparent palette index and remap transparent pixels to it.
///
/// Returns `None`, changing nothing, when no pixel is transparent or the
/// palette is empty. Otherwise index 0 is preferred (the GIF convention, and
/// better for LZW), then the first index unused by opaque pixels, then the
/// first least-used one; every transparent pixel that has an index is set
/// to it.
pub fn find_transparent_index_and_remap(
    rgba_pixels: &[u8],
    indices: &mut [u8],
    palette: &mut Vec<u8>,
) -> (r: Option<u8>)
    requires
        opaque_indices_in_palette(rgba_pixels@, old(indices)@, old(palette)@.len() as int / 3),
    ensures
        final(palette)@ == old(palette)@,
        (!has_clear_pixel(rgba_pixels@) || old(palette)@.len() < 3) ==> (r is None && final(indices)@ == old(indices)@),
        has_clear_pixel(rgba_pixels@) && old(palette)@.len() >= 3 ==> exists|k: int|
            #[trigger] is_transparent_choice(rgba_pixels@, old(indices)@, old(palette)@.len() as int / 3, k)
                && r == Some((k % 256) as u8) && final(indices)@ == remapped_indices(
                rgba_pixels@,
                old(indices)@,
                (k % 256) as u8,
            ),
{
    let ghost rgba = rgba_pixels@;
    let ghost idx0 = indices@;
    let len = rgba_pixels.len();
    let npix = len / 4;
    let mut has_transparent = false;
    let mut i: usize = 0;
    while i < npix
        invariant
            len == rgba.len(),
            rgba == rgba_pixels@,
            npix == len / 4,
            i <= npix,
            has_transparent == exists|j: int| 0 <= j < i && is_clear(rgba, j),
        decreases npix - i,
    {
        if rgba_pixels[i * 4 + 3] < 128 {
            has_transparent = true;
        }
        assert(rgba_pixels[i * 4 + 3] < 128 <==> is_clear(rgba, i as int));
        i += 1;
    }
    if !has_transparent {
        return None;
    }
    let palette_len = palette.len() / 3;
    if palette_len == 0 {
        return None;
    }
    let m = if npix < indices.len() { npix } else { indices.len() };
    assert(m == indexed_pixels(rgba, idx0));
    let mut usage: Vec<usize> = Vec::new();
    let mut k: usize = 0;
    while k < palette_len
        invariant
            k <= palette_len,
            usage@.len() == k,
            forall|j: int| 0 <= j < k ==> #[trigger] usage@[j] == 0,
        decreases palette_len - k,
    {
        usage.push(0);
        k += 1;
    }
    let mut i: usize = 0;
    while i < m
        invariant
            rgba == rgba_pixels@,
            idx0 == indices@,
            len == rgba.len(),
            npix == len / 4,
            m == indexed_pixels(rgba, idx0),
            m <= npix,
            m <= idx0.len(),
            palette_len == palette@.len() / 3,
            opaque_indices_in_palette(rgba, idx0, palette_len as int),
            i <= m,
            usage@.len() == palette_len,
            forall|j: int|
                0 <= j < palette_len ==> #[trigger] usage@[j] == count_where(
                    i as int,
                    uses_index(rgba, idx0, j),
                ),
        decreases m - i,
    {
        let ghost before = usage@;
        if rgba_pixels[i * 4 + 3] >= 128 {
            let b = indices[i] as usize;
            assert(indices@[i as int] < palette_len);
            proof {
                lemma_count_le(i as int, uses_index(rgba, idx0, b as int));
            }
            assert(usage@[b as int] == count_where(i as int, uses_index(rgba, idx0, b as int)));
            usage.set(b, usage[b] + 1);
        }
        assert forall|j: int| 0 <= j < palette_len implies #[trigger] usage@[j] == count_where(
            i + 1,
            uses_index(rgba, idx0, j),
        ) by {
            assert(before[j] == count_where(i as int, uses_index(rgba, idx0, j)));
        }
        i += 1;
    }
    assert(forall|j: int| 0 <= j < palette_len ==> #[trigger] usage@[j] == opaque_usage(rgba, idx0, j));
    let mut chosen: usize = 0;
    if usage[0] != 0 {
        let mut found = false;
        let mut j: usize = 1;
        while j < palette_len
            invariant
                1 <= j <= palette_len,
                usage@.len() == palette_len,
                forall|q: int| 0 <= q < palette_len ==> #[trigger] usage@[q] == opaque_usage(rgba, idx0, q),
                !found ==> forall|q: int| 1 <= q < j ==> opaque_usage(rgba, idx0, q) != 0,
                found ==> 1 <= chosen < palette_len && opaque_usage(rgba, idx0, chosen as int) == 0 && forall|q: int|
                    1 <= q < chosen ==> opaque_usage(rgba, idx0, q) != 0,
            decreases palette_len - j,
        {
            if !found && usage[j] == 0 {
                found = true;
                chosen = j;
            }
            j += 1;
        }
        if !found {
            let mut best: usize = 0;
            let mut j: usize = 1;
            while j < palette_len
                invariant
                    1 <= j <= palette_len,
                    best < j,
                    usage@.len() == palette_len,
                    forall|q: int| 0 <= q < palette_len ==> #[trigger] usage@[q] == opaque_usage(rgba, idx0, q),
                    forall|q: int| 0 <= q < j ==> opaque_usage(rgba, idx0, best as int) <= opaque_usage(rgba, idx0, q),
                    forall|q: int| 0 <= q < best ==> opaque_usage(rgba, idx0, q) > opaque_usage(rgba, idx0, best as int),
                decreases palette_len - j,
            {
                if usage[j] < usage[best] {
                    best = j;
                }
                j += 1;
            }
            chosen = best;
        }
    }
    assert(is_transparent_choice(rgba, idx0, palette_len as int, chosen as int));
    let transparent_idx = (chosen % 256) as u8;
    let mut i: usize = 0;
    while i < m
        invariant
            rgba == rgba_pixels@,
            len == rgba.len(),
            npix == len / 4,
            m == indexed_pixels(rgba, idx0),
            m <= idx0.len(),
            indices@.len() == idx0.len(),
            i <= m,
            forall|q: int|
                0 <= q < idx0.len() ==> #[trigger] indices@[q] == (if q < i && is_clear(rgba, q) {
                    transparent_idx
                } else {
                    idx0[q]
                }),
        decreases m - i,
    {
        if rgba_pixels[i * 4 + 3] < 128 {
            indices[i] = transparent_idx;
        }
        i += 1;
    }
    assert(indices@ =~= remapped_indices(rgba, idx0, transparent_idx));
    Some(transparent_idx)
}

/// Compute the exact changed bounding box between two `width x height` canvases.
pub fn compute_changed_bbox(prev: &[u8], curr: &[u8], width: usize, height: usize) -> (r: BoundingBox)
    requires
        width <= u16::MAX,
        height <= u16::MAX,
        prev@.len() >= width * height * 4,
        curr@.len() >= width * height * 4,
    ensures
        changed_bbox_spec(prev@, curr@, width as int, height as int, r),
{
    let (bbox, _count) = scan_changes(prev, curr, width as u16, height as u16);
    bbox
}

/// Byte `i` of the region `bbox` cut from a canvas whose rows are `width` pixels wide.
pub open spec fn bbox_region_byte(canvas: Seq<u8>, width: int, bbox: BoundingBox, i: int) -> u8 {
    let bw = bbox.width_spec();
    let p = i / 4;
    canvas[((bbox.top + p / bw) * width + bbox.left + p % bw) * 4 + i % 4]
}

/// The pixels of the region `bbox`, row by row.
pub open spec fn bbox_region(canvas: Seq<u8>, width: int, bbox: BoundingBox) -> Seq<u8> {
    Seq::new(
        (bbox.width_spec() * bbox.height_spec() * 4) as nat,
        |i: int| bbox_region_byte(canvas, width, bbox, i),
    )
}

/// Every pixel of the region lies in the buffer.
pub open spec fn bbox_in_buffer(len: int, width: int, bbox: BoundingBox) -> bool {
    bbox.width_spec() == 0 || bbox.height_spec() == 0 || ((bbox.top + bbox.height_spec() - 1) * width
        + bbox.left + bbox.width_spec()) * 4 <= len
}

/// Extract a bounding-box region from a canvas whose rows are `width` pixels wide.
pub fn extract_bbox_region(canvas: &[u8], width: usize, bbox: &BoundingBox) -> (r: Vec<u8>)
    requires
        bbox_in_buffer(canvas@.len() as int, width as int, *bbox),
    ensures
        r@ == bbox_region(canvas@, width as int, *bbox),
{
    let ghost c = canvas@;
    let clen = canvas.len();
    let bw = bbox.width();
    let bh = bbox.height();
    let mut pixels: Vec<u8> = Vec::new();
    let mut y: u16 = 0;
    while y < bh
        invariant
            c == canvas@,
            clen == c.len(),
            bw == bbox.width_spec(),
            bh == bbox.height_spec(),
            bbox_in_buffer(clen as int, width as int, *bbox),
            y <= bh,
            pixels@.len() == y as int * bw as int * 4,
            forall|i: int| 0 <= i < pixels@.len() ==> #[trigger] pixels@[i] == bbox_region_byte(c, width as int, *bbox, i),
        decreases bh - y,
    {
        let mut x: u16 = 0;
        while x < bw
            invariant
                c == canvas@,
                clen == c.len(),
                bw == bbox.width_spec(),
                bh == bbox.height_spec(),
                bbox_in_buffer(clen as int, width as int, *bbox),
                y < bh,
                x <= bw,
                pixels@.len() == (y as int * bw as int + x as int) * 4,
                forall|i: int| 0 <= i < pixels@.len() ==> #[trigger] pixels@[i] == bbox_region_byte(c, width as int, *bbox, i),
            decreases bw - x,
        {
            let ghost k = y as int * bw as int + x as int;
            let ghost before = pixels@;
            proof {
                crate::spec_util::lemma_grid_index(x as int, y as int, bw as int, bh as int);
                let row = bbox.top as int + y as int;
                assert(row * width as int <= (bbox.top as int + bh as int - 1) * width as int) by (nonlinear_arith)
                    requires
                        row <= bbox.top as int + bh as int - 1,
                        width >= 0,
                ;
                crate::spec_util::lemma_mul_nonneg(row, width as int);
            }
            let canvas_x = bbox.left as usize + x as usize;
            let canvas_y = bbox.top as usize + y as usize;
            let idx = (canvas_y * width + canvas_x) * 4;
            pixels.push(canvas[idx]);
            pixels.push(canvas[idx + 1]);
            pixels.push(canvas[idx + 2]);
            pixels.push(canvas[idx + 3]);
            proof {
                assert forall|i: int| 0 <= i < pixels@.len() implies #[trigger] pixels@[i]
                    == bbox_region_byte(c, width as int, *bbox, i) by {
                    if i >= k * 4 {
                        assert(i / 4 == k);
                        assert(i % 4 == i - k * 4);
                    } else {
                        assert(pixels@[i] == before[i]);
                    }
                }
                assert(pixels@.len() == (y as int * bw as int + (x + 1) as int) * 4);
            }
            x += 1;
        }
        assert(y as int * bw as int + bw as int == (y + 1) as int * bw as int) by (nonlinear_arith);
        y += 1;
    }
    assert(bh as int * bw as int == bw as int * bh as int) by (nonlinear_arith);
    assert(pixels@ =~= bbox_region(c, width as int, *bbox));
    pixels
}

} // verus!
