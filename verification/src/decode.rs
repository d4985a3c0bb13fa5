//! GIF decoding with canvas compositing.
//!
//! The `gif` crate parses the stream and hands out frames as RGBA patches;
//! this module composites them onto a canvas according to each frame's
//! placement and disposal, producing full-canvas RGBA frames.

use vstd::prelude::*;
use std::time::Duration;
use crate::adaptive_ir::{Canvas, composited, frame_bytes_needed, zeros};
use crate::error::Error;
use crate::types::{DisposalMethod, Frame, FrameView, Gif, LoopCount, Palette, frames_view};

verus! {

/// `gif::DecodingError`, the error of the `gif` decoder.
#[verifier::external_type_specification]
#[verifier::external_body]
pub struct ExDecodingError(gif::DecodingError);

/// `gif::DecodeOptions`, the decoder builder.
#[verifier::external_type_specification]
#[verifier::external_body]
pub struct ExDecodeOptions(gif::DecodeOptions);

/// A frame as the decoder hands it out: an RGBA patch with its placement,
/// timing and disposal.
#[derive(Debug)]
pub struct DecodedFrame {
    /// Delay in units of 10 ms.
    pub delay: u16,
    /// Disposal method.
    pub dispose: DisposalMethod,
    /// Horizontal offset on the canvas.
    pub left: u16,
    /// Vertical offset on the canvas.
    pub top: u16,
    /// Patch width.
    pub width: u16,
    /// Patch height.
    pub height: u16,
    /// Local palette as RGB bytes, if any.
    pub palette: Option<Vec<u8>>,
    /// RGBA pixels of the patch, row by row.
    pub buffer: Vec<u8>,
}

/// The mathematical value of a decoded frame.
pub struct DecodedFrameView {
    /// Delay in units of 10 ms.
    pub delay: u16,
    /// Disposal method.
    pub dispose: DisposalMethod,
    /// Horizontal offset on the canvas.
    pub left: u16,
    /// Vertical offset on the canvas.
    pub top: u16,
    /// Patch width.
    pub width: u16,
    /// Patch height.
    pub height: u16,
    /// Local palette as RGB bytes, if any.
    pub palette: Option<Seq<u8>>,
    /// RGBA pixels of the patch, row by row.
    pub buffer: Seq<u8>,
}

/// The bytes of optional RGB bytes.
pub open spec fn bytes_opt_view(p: Option<Vec<u8>>) -> Option<Seq<u8>> {
    match p {
        Some(v) => Some(v@),
        None => None,
    }
}

impl View for DecodedFrame {
    type V = DecodedFrameView;

    open spec fn view(&self) -> DecodedFrameView {
        DecodedFrameView {
            delay: self.delay,
            dispose: self.dispose,
            left: self.left,
            top: self.top,
            width: self.width,
            height: self.height,
            palette: bytes_opt_view(self.palette),
            buffer: self.buffer@,
        }
    }
}

/// The values of a sequence of decoded frames.
pub open spec fn decoded_views(s: Seq<DecodedFrame>) -> Seq<DecodedFrameView> {
    Seq::new(s.len(), |i: int| s[i]@)
}

/// The data begins with a `GIF87a` or `GIF89a` signature followed by the
/// seven bytes of a logical screen descriptor.
pub open spec fn has_gif_signature(data: Seq<u8>) -> bool {
    &&& data.len() >= 13
    &&& data[0] == 71 && data[1] == 73 && data[2] == 70 && data[3] == 56
    &&& (data[4] == 55 || data[4] == 57)
    &&& data[5] == 97
}

/// The delay that `Duration::from_millis(ms)` gives.
pub uninterp spec fn millis_duration(ms: u64) -> Duration;

/// Decoder options together with whether RGBA output was requested. Only
/// [`new_decode_options`] makes them and only [`request_rgba_output`]
/// changes them.
pub struct DecodeSettings {
    options: gif::DecodeOptions,
    rgba: Ghost<bool>,
}

/// A `gif::Decoder` reading bytes held in memory. Its contents are opaque
/// to the proofs; only the decoder wrappers below read or advance it.
#[verifier::external_body]
pub struct DecoderHandle<'a> {
    decoder: gif::Decoder<&'a [u8]>,
}

/// A decoder with the bytes it was opened on and the number of frames it
/// has been asked for. Only [`read_info`] makes one and only
/// [`read_next_frame`] advances it.
pub struct GifStream<'a> {
    handle: DecoderHandle<'a>,
    source: Ghost<Seq<u8>>,
    frames_read: Ghost<nat>,
}

/// Whether the `gif` decoder, with default options and RGBA output, reads
/// the header and screen descriptor of `data` (`DecodeOptions::read_info`).
pub uninterp spec fn header_reads(data: Seq<u8>) -> bool;

/// The logical screen width the decoder reads from `data` (`Decoder::width`).
pub uninterp spec fn screen_width(data: Seq<u8>) -> u16;

/// The logical screen height the decoder reads from `data` (`Decoder::height`).
pub uninterp spec fn screen_height(data: Seq<u8>) -> u16;

/// The global color table the decoder reads from `data`, as RGB bytes
/// (`Decoder::global_palette`).
pub uninterp spec fn global_table(data: Seq<u8>) -> Option<Seq<u8>>;

/// What the `k`-th call of `Decoder::read_next_frame` on `data` gives:
/// `None` for an error, `Some(None)` at the end of the stream, otherwise the
/// frame.
pub uninterp spec fn frame_read(data: Seq<u8>, k: nat) -> Option<Option<DecodedFrameView>>;

/// `gif::DecodeOptions::new`: fresh decoder options with default settings.
#[verifier::external_body]
fn new_decode_options() -> (r: DecodeSettings)
    ensures
        !r.rgba@,
{
    DecodeSettings { options: gif::DecodeOptions::new(), rgba: Ghost(false) }
}

/// `gif::DecodeOptions::set_color_output` with `ColorOutput::RGBA`: frames
/// are decoded to RGBA pixels.
#[verifier::external_body]
fn request_rgba_output(settings: &mut DecodeSettings)
    ensures
        final(settings).rgba@,
{
    settings.options.set_color_output(gif::ColorOutput::RGBA);
    settings.rgba = Ghost(true);
}

/// `gif::DecodeOptions::read_info`: reads the header and screen descriptor.
/// It succeeds exactly when the decoder reads the header (a name for that
/// outcome); the decoder's source refuses any stream that does not begin
/// with the six-byte `GIF87a`/`GIF89a` signature and a seven-byte screen
/// descriptor.
#[verifier::external_body]
fn read_info<'a>(settings: DecodeSettings, data: &'a [u8]) -> (r: Result<GifStream<'a>, gif::DecodingError>)
    requires
        settings.rgba@,
    ensures
        r is Ok == header_reads(data@),
        r is Ok ==> has_gif_signature(data@),
        r matches Ok(s) ==> s.source@ == data@ && s.frames_read@ == 0,
{
    match settings.options.read_info(data) {
        Ok(decoder) => Ok(GifStream { handle: DecoderHandle { decoder }, source: Ghost(data@), frames_read: Ghost(0) }),
        Err(e) => Err(e),
    }
}

/// `gif::Decoder::width`: the logical screen width.
#[verifier::external_body]
fn decoder_width(stream: &GifStream) -> (r: u16)
    ensures
        r == screen_width(stream.source@),
{
    stream.handle.decoder.width()
}

/// `gif::Decoder::height`: the logical screen height.
#[verifier::external_body]
fn decoder_height(stream: &GifStream) -> (r: u16)
    ensures
        r == screen_height(stream.source@),
{
    stream.handle.decoder.height()
}

/// `gif::Decoder::global_palette`: the global color table as RGB bytes, copied.
#[verifier::external_body]
fn decoder_global_palette(stream: &GifStream) -> (r: Option<Vec<u8>>)
    ensures
        bytes_opt_view(r) == global_table(stream.source@),
{
    stream.handle.decoder.global_palette().map(|p| p.to_vec())
}

/// `gif::Decoder::read_next_frame`: the next frame, `None` at the end of
/// the stream. The frame's fields are copied out one for one; what comes
/// back is the named outcome of this call on the stream's bytes.
#[verifier::external_body]
fn read_next_frame(stream: &mut GifStream) -> (r: Result<Option<DecodedFrame>, gif::DecodingError>)
    ensures
        final(stream).source == old(stream).source,
        final(stream).frames_read@ == old(stream).frames_read@ + 1,
        match r {
            Err(_) => frame_read(old(stream).source@, old(stream).frames_read@) is None,
            Ok(None) => frame_read(old(stream).source@, old(stream).frames_read@) == Some(None::<DecodedFrameView>),
            Ok(Some(f)) => frame_read(old(stream).source@, old(stream).frames_read@) == Some(Some(f@)),
        },
{
    stream.frames_read = Ghost(stream.frames_read@ + 1);
    let f = match stream.handle.decoder.read_next_frame()? {
        Some(f) => f,
        None => return Ok(None),
    };
    let dispose = match f.dispose {
        gif::DisposalMethod::Any => DisposalMethod::Any,
        gif::DisposalMethod::Keep => DisposalMethod::Keep,
        gif::DisposalMethod::Background => DisposalMethod::Background,
        gif::DisposalMethod::Previous => DisposalMethod::Previous,
    };
    let (delay, left, top, width, height) = (f.delay, f.left, f.top, f.width, f.height);
    Ok(Some(DecodedFrame { delay, dispose, left, top, width, height, palette: f.palette.clone(), buffer: f.buffer.to_vec() }))
}

/// `ToString::to_string` on `gif::DecodingError`: its message.
#[verifier::external_body]
fn decoding_error_message(e: &gif::DecodingError) -> String {
    e.to_string()
}

/// `Duration::from_millis`.
#[verifier::external_body]
pub(crate) fn duration_from_millis(ms: u64) -> (r: Duration)
    ensures
        r == millis_duration(ms),
{
    Duration::from_millis(ms)
}

/// `colors` are the RGB triples of `bytes`, a trailing partial triple ignored.
pub open spec fn is_colors_of(colors: Seq<[u8; 3]>, bytes: Seq<u8>) -> bool {
    &&& colors.len() == bytes.len() / 3
    &&& forall|i: int|
        0 <= i < colors.len() ==> (#[trigger] colors[i])[0] == bytes[i * 3] && colors[i][1] == bytes[i
            * 3 + 1] && colors[i][2] == bytes[i * 3 + 2]
}

/// Group RGB bytes into color triples.
pub fn colors_from_bytes(bytes: &Vec<u8>) -> (r: Vec<[u8; 3]>)
    ensures
        is_colors_of(r@, bytes@),
{
    let len = bytes.len();
    let n = len / 3;
    let mut colors: Vec<[u8; 3]> = Vec::new();
    let mut i: usize = 0;
    while i < n
        invariant
            len == bytes@.len(),
            n == len / 3,
            i <= n,
            colors@.len() == i,
            forall|j: int|
                0 <= j < i ==> (#[trigger] colors@[j])[0] == bytes@[j * 3] && colors@[j][1] == bytes@[j
                    * 3 + 1] && colors@[j][2] == bytes@[j * 3 + 2],
        decreases n - i,
    {
        colors.push([bytes[i * 3], bytes[i * 3 + 1], bytes[i * 3 + 2]]);
        i += 1;
    }
    colors
}

/// Pixel `p` is covered when a `w x h` rectangle at `(left, top)` is laid out
/// row by row on a buffer whose rows are `cw` pixels wide: the rectangle's
/// pixel `(x, y)` lands on `(top + y) * cw + left + x`, spilling into the
/// next row when `left + x >= cw`.
pub open spec fn linear_hit(p: int, cw: int, left: int, top: int, w: int, y: int, x: int) -> bool {
    0 <= x < w && p == (top + y) * cw + left + x
}

/// The rectangle rows before `ry` (and the first `rx` pixels of row `ry`)
/// cover pixel `p`.
pub open spec fn linear_covered(p: int, cw: int, left: int, top: int, w: int, h: int, ry: int, rx: int) -> bool {
    exists|y: int, x: int|
        0 <= y < h && (y < ry || (y == ry && x < rx)) && #[trigger] linear_hit(p, cw, left, top, w, y, x)
}

/// The buffer after clearing the rectangle rows before `ry` (and the first
/// `rx` pixels of row `ry`) laid out row by row.
pub open spec fn cleared_linear_upto(
    pixels: Seq<u8>,
    cw: int,
    left: int,
    top: int,
    w: int,
    h: int,
    ry: int,
    rx: int,
) -> Seq<u8> {
    Seq::new(
        pixels.len(),
        |i: int| if linear_covered(i / 4, cw, left, top, w, h, ry, rx) { 0u8 } else { pixels[i] },
    )
}

/// The buffer after clearing the whole rectangle laid out row by row.
pub open spec fn cleared_linear(pixels: Seq<u8>, cw: int, left: int, top: int, w: int, h: int) -> Seq<u8> {
    cleared_linear_upto(pixels, cw, left, top, w, h, h, 0)
}

/// Every pixel of the rectangle laid out row by row lies in a buffer of `len` bytes.
pub open spec fn linear_rect_fits(len: int, cw: int, left: int, top: int, w: int, h: int) -> bool {
    w == 0 || h == 0 || ((top + h - 1) * cw + left + w) * 4 <= len
}

/// Clear a rectangle laid out row by row on a buffer whose rows are
/// `canvas_width` pixels wide.
fn clear_region(canvas: &mut Vec<u8>, canvas_width: usize, left: usize, top: usize, width: usize, height: usize)
    requires
        left <= u16::MAX,
        top <= u16::MAX,
        width <= u16::MAX,
        height <= u16::MAX,
        canvas_width <= u16::MAX,
        linear_rect_fits(old(canvas)@.len() as int, canvas_width as int, left as int, top as int, width as int, height as int),
    ensures
        final(canvas)@ == cleared_linear(
            old(canvas)@,
            canvas_width as int,
            left as int,
            top as int,
            width as int,
            height as int,
        ),
{
    let ghost orig = canvas@;
    let len = canvas.len();
    let mut y: usize = 0;
    while y < height
        invariant
            y <= height,
            len == orig.len(),
            canvas@.len() == orig.len(),
            width <= u16::MAX,
            height <= u16::MAX,
            left <= u16::MAX,
            top <= u16::MAX,
            canvas_width <= u16::MAX,
            linear_rect_fits(len as int, canvas_width as int, left as int, top as int, width as int, height as int),
            canvas@ == cleared_linear_upto(
                orig,
                canvas_width as int,
                left as int,
                top as int,
                width as int,
                height as int,
                y as int,
                0,
            ),
        decreases height - y,
    {
        let mut x: usize = 0;
        while x < width
            invariant
                y < height,
                x <= width,
                len == orig.len(),
                canvas@.len() == orig.len(),
                width <= u16::MAX,
                height <= u16::MAX,
                left <= u16::MAX,
                top <= u16::MAX,
                canvas_width <= u16::MAX,
                linear_rect_fits(len as int, canvas_width as int, left as int, top as int, width as int, height as int),
                canvas@ == cleared_linear_upto(
                    orig,
                    canvas_width as int,
                    left as int,
                    top as int,
                    width as int,
                    height as int,
                    y as int,
                    x as int,
                ),
            decreases width - x,
        {
            proof {
                assert((top + y) * canvas_width <= (top + height - 1) * canvas_width) by (nonlinear_arith)
                    requires
                        y <= height - 1,
                ;
                assert(0 <= (top + y) * canvas_width) by (nonlinear_arith);
            }
            let p = (top + y) * canvas_width + (left + x);
            let idx = p * 4;
            let ghost before = canvas@;
            canvas.set(idx, 0);
            canvas.set(idx + 1, 0);
            canvas.set(idx + 2, 0);
            canvas.set(idx + 3, 0);
            proof {
                let cw = canvas_width as int;
                assert forall|i: int| 0 <= i < orig.len() implies #[trigger] canvas@[i]
                    == cleared_linear_upto(
                    orig,
                    cw,
                    left as int,
                    top as int,
                    width as int,
                    height as int,
                    y as int,
                    x + 1,
                )[i] by {
                    let q = i / 4;
                    if q == p {
                        assert(linear_hit(q, cw, left as int, top as int, width as int, y as int, x as int));
                        assert(idx <= i < idx + 4);
                    } else {
                        assert(i < idx || i >= idx + 4);
                        if linear_covered(q, cw, left as int, top as int, width as int, height as int, y as int, x + 1) {
                            let (yy, xx) = choose|yy: int, xx: int|
                                0 <= yy < height && (yy < y || (yy == y && xx < x + 1)) && #[trigger] linear_hit(
                                    q,
                                    cw,
                                    left as int,
                                    top as int,
                                    width as int,
                                    yy,
                                    xx,
                                );
                            assert(!(yy == y && xx == x));
                            assert(linear_covered(q, cw, left as int, top as int, width as int, height as int, y as int, x as int));
                        }
                    }
                }
                assert(canvas@ =~= cleared_linear_upto(
                    orig,
                    cw,
                    left as int,
                    top as int,
                    width as int,
                    height as int,
                    y as int,
                    x + 1,
                ));
            }
            x += 1;
        }
        proof {
            let cw = canvas_width as int;
            assert forall|i: int| 0 <= i < orig.len() implies #[trigger] cleared_linear_upto(
                orig,
                cw,
                left as int,
                top as int,
                width as int,
                height as int,
                y as int,
                width as int,
            )[i] == cleared_linear_upto(
                orig,
                cw,
                left as int,
                top as int,
                width as int,
                height as int,
                y + 1,
                0,
            )[i] by {
                let q = i / 4;
                if linear_covered(q, cw, left as int, top as int, width as int, height as int, y + 1, 0) {
                    let (yy, xx) = choose|yy: int, xx: int|
                        0 <= yy < height && (yy < y + 1 || (yy == y + 1 && xx < 0)) && #[trigger] linear_hit(
                            q,
                            cw,
                            left as int,
                            top as int,
                            width as int,
                            yy,
                            xx,
                        );
                    assert(linear_covered(q, cw, left as int, top as int, width as int, height as int, y as int, width as int));
                }
            }
            assert(canvas@ =~= cleared_linear_upto(
                orig,
                canvas_width as int,
                left as int,
                top as int,
                width as int,
                height as int,
                y + 1,
                0,
            ));
        }
        y += 1;
    }
}

/// The frame can be decoded onto a `cw x ch` canvas: its buffer holds every
/// visible pixel, and a background-disposed rectangle lies in the canvas
/// buffer when laid out row by row.
pub open spec fn decoded_frame_fits(f: DecodedFrameView, cw: int, ch: int) -> bool {
    &&& f.buffer.len() >= frame_bytes_needed(
        f.width as int,
        f.height as int,
        f.left as int,
        f.top as int,
        cw,
        ch,
    )
    &&& f.dispose == DisposalMethod::Background ==> linear_rect_fits(
        cw * ch * 4,
        cw,
        f.left as int,
        f.top as int,
        f.width as int,
        f.height as int,
    )
}

/// The canvas after drawing a decoded frame onto `pre`.
pub open spec fn decoded_displayed(pre: Seq<u8>, f: DecodedFrameView, cw: int, ch: int) -> Seq<u8> {
    composited(pre, cw, ch, f.buffer, f.width as int, f.height as int, f.left as int, f.top as int)
}

/// The canvas after a decoded frame's disposal.
pub open spec fn decoded_disposed(pre: Seq<u8>, f: DecodedFrameView, cw: int, ch: int) -> Seq<u8> {
    let displayed = decoded_displayed(pre, f, cw, ch);
    match f.dispose {
        DisposalMethod::Background => cleared_linear(
            displayed,
            cw,
            f.left as int,
            f.top as int,
            f.width as int,
            f.height as int,
        ),
        DisposalMethod::Previous => pre,
        _ => displayed,
    }
}

/// The canvas before decoded frame `n` is drawn.
pub open spec fn decoded_pre(frames: Seq<DecodedFrameView>, n: nat, cw: int, ch: int) -> Seq<u8>
    decreases n,
{
    if n == 0 {
        zeros(cw * ch * 4)
    } else {
        decoded_disposed(decoded_pre(frames, (n - 1) as nat, cw, ch), frames[n - 1], cw, ch)
    }
}

/// `fr` is the full-canvas frame produced from decoded frame `f` drawn onto `pre`.
pub open spec fn is_decoded_output(fr: FrameView, f: DecodedFrameView, pre: Seq<u8>, cw: u16, ch: u16) -> bool {
    &&& fr.pixels == decoded_displayed(pre, f, cw as int, ch as int)
    &&& fr.delay == millis_duration((f.delay as int * 10) as u64)
    &&& fr.dispose == f.dispose
    &&& (match f.palette {
        Some(p) => fr.local_palette matches Some(c) && is_colors_of(c, p),
        None => fr.local_palette is None,
    })
    &&& fr.left == 0 && fr.top == 0 && fr.width == cw && fr.height == ch
}

/// `g` is the animation decoded from the screen size, global palette and frames.
pub open spec fn is_decoded_gif(
    g: crate::types::GifView,
    width: u16,
    height: u16,
    global_palette: Option<Seq<u8>>,
    frames: Seq<DecodedFrameView>,
) -> bool {
    &&& g.width == width
    &&& g.height == height
    &&& g.loop_count == LoopCount::Infinite
    &&& (match global_palette {
        Some(p) => g.global_palette matches Some(c) && is_colors_of(c, p) && g.original_palette
            == Some(c),
        None => g.global_palette is None && g.original_palette is None,
    })
    &&& g.frames.len() == frames.len()
    &&& forall|k: int|
        0 <= k < frames.len() ==> is_decoded_output(
            #[trigger] g.frames[k],
            frames[k],
            decoded_pre(frames, k as nat, width as int, height as int),
            width,
            height,
        )
}

/// All frames fit and the canvas size fits in memory.
pub open spec fn decodable(width: u16, height: u16, frames: Seq<DecodedFrameView>) -> bool {
    &&& width as int * height as int * 4 <= usize::MAX
    &&& forall|k: int| 0 <= k < frames.len() ==> decoded_frame_fits(#[trigger] frames[k], width as int, height as int)
}

/// A palette built from optional RGB bytes.
fn palette_from_bytes(bytes: &Option<Vec<u8>>) -> (r: Option<Palette>)
    ensures
        match *bytes {
            Some(p) => r matches Some(pal) && is_colors_of(pal@, p@),
            None => r is None,
        },
{
    match bytes {
        Some(p) => Some(Palette { colors: colors_from_bytes(p) }),
        None => None,
    }
}

impl Gif {
    /// Assemble an animation from what the decoder read: the screen size,
    /// the global palette and the frames as RGBA patches. Each frame is
    /// composited onto the canvas, the result stored as a full-canvas frame,
    /// and the frame's disposal applied: background clears the frame
    /// rectangle (laid out row by row), previous restores the canvas from
    /// before the frame, the others keep it.
    ///
    /// Fails with a decode error when a frame's buffer misses visible pixels
    /// or a background-disposed rectangle runs past the canvas buffer.
    pub fn from_decoded(
        width: u16,
        height: u16,
        global_palette: Option<Vec<u8>>,
        decoded: &Vec<DecodedFrame>,
    ) -> (r: crate::error::Result<Gif>)
        ensures
            r is Ok <==> decodable(width, height, decoded_views(decoded@)),
            r matches Ok(g) ==> is_decoded_gif(g@, width, height, bytes_opt_view(global_palette), decoded_views(decoded@)),
            r matches Err(e) ==> e is DecodeError,
            r matches Ok(g) ==> forall|k: int|
                0 <= k < g@.frames.len() - 1 && (decoded@[k]@.dispose == DisposalMethod::Any
                    || decoded@[k]@.dispose == DisposalMethod::Keep) ==> (#[trigger] g@.frames[k + 1]).pixels
                    == composited(
                    g@.frames[k].pixels,
                    width as int,
                    height as int,
                    decoded@[k + 1]@.buffer,
                    decoded@[k + 1]@.width as int,
                    decoded@[k + 1]@.height as int,
                    decoded@[k + 1]@.left as int,
                    decoded@[k + 1]@.top as int,
                ),
    {
        assert((width as u64) * (height as u64) <= 65535 * 65535) by (nonlinear_arith)
            requires
                width <= 65535,
                height <= 65535,
        ;
        if (width as u64) * (height as u64) * 4 > usize::MAX as u64 {
            return Err(Error::DecodeError(String::from_str("canvas too large")));
        }
        let ghost ds = decoded_views(decoded@);
        let cw = width;
        let ch = height;
        let global = palette_from_bytes(&global_palette);
        let original_palette = match &global {
            Some(p) => Some(crate::types::copy_colors(&p.colors)),
            None => None,
        };
        let mut canvas = Canvas::new(cw, ch);
        let mut frames: Vec<Frame> = Vec::new();
        let n = decoded.len();
        let mut k: usize = 0;
        while k < n
            invariant
                ds == decoded_views(decoded@),
                n == ds.len(),
                k <= n,
                cw == width,
                ch == height,
                cw as int * ch as int * 4 <= usize::MAX,
                canvas.width == cw,
                canvas.height == ch,
                canvas.pixels@ == decoded_pre(ds, k as nat, cw as int, ch as int),
                canvas.pixels@.len() == cw as int * ch as int * 4,
                forall|j: int| 0 <= j < k ==> decoded_frame_fits(#[trigger] ds[j], cw as int, ch as int),
                frames@.len() == k,
                forall|j: int|
                    0 <= j < k ==> is_decoded_output(
                        (#[trigger] frames@[j])@,
                        ds[j],
                        decoded_pre(ds, j as nat, cw as int, ch as int),
                        cw,
                        ch,
                    ),
            decreases n - k,
        {
            let f = &decoded[k];
            assert(ds[k as int] == f@);
            let ghost pre = canvas.pixels@;
            let flen = f.buffer.len();
            let rows = crate::adaptive_ir::visible_count(f.top, f.height, ch);
            let cols = crate::adaptive_ir::visible_count(f.left, f.width, cw);
            assert((rows as u64) * (f.width as u64) <= 65535 * 65535) by (nonlinear_arith)
                requires
                    rows <= 65535,
                    f.width <= 65535,
            ;
            assert(rows >= 1 ==> (rows as u64 - 1) * (f.width as u64) <= (rows as u64) * (f.width as u64)) by (nonlinear_arith);
            let needed: u64 = if rows > 0 && cols > 0 {
                ((rows as u64 - 1) * (f.width as u64) + cols as u64) * 4
            } else {
                0
            };
            if (flen as u64) < needed {
                return Err(Error::DecodeError(String::from_str("frame data shorter than its dimensions")));
            }
            assert((f.top as u64 + f.height as u64) * (cw as u64) <= 131070 * 65535) by (nonlinear_arith)
                requires
                    f.top <= 65535,
                    f.height <= 65535,
                    cw <= 65535,
            ;
            assert(f.top as u64 + f.height as u64 >= 1 ==> (f.top as u64 + f.height as u64 - 1) * (cw as u64) <= (f.top as u64 + f.height as u64) * (cw as u64)) by (nonlinear_arith);
            if f.dispose == DisposalMethod::Background && f.width > 0 && f.height > 0 {
                let last = ((f.top as u64 + f.height as u64 - 1) * (cw as u64) + f.left as u64
                    + f.width as u64) * 4;
                if last > (cw as u64) * (ch as u64) * 4 {
                    return Err(Error::DecodeError(String::from_str("frame exceeds the canvas")));
                }
            }
            assert(decoded_frame_fits(f@, cw as int, ch as int));
            let saved = if f.dispose == DisposalMethod::Previous {
                Some(canvas.clone_canvas())
            } else {
                None
            };
            canvas.composite_frame(f.buffer.as_slice(), f.width, f.height, f.left, f.top);
            let delay = duration_from_millis(f.delay as u64 * 10);
            let frame = Frame {
                pixels: crate::types::copy_bytes(&canvas.pixels),
                delay,
                dispose: f.dispose,
                local_palette: palette_from_bytes(&f.palette),
                left: 0,
                top: 0,
                width: cw,
                height: ch,
            };
            frames.push(frame);
            match f.dispose {
                DisposalMethod::Background => {
                    clear_region(
                        &mut canvas.pixels,
                        cw as usize,
                        f.left as usize,
                        f.top as usize,
                        f.width as usize,
                        f.height as usize,
                    );
                },
                DisposalMethod::Previous => {
                    match saved {
                        Some(c) => {
                            canvas = c;
                        },
                        None => {},
                    }
                },
                _ => {},
            }
            proof {
                assert(canvas.pixels@ == decoded_pre(ds, (k + 1) as nat, cw as int, ch as int));
            }
            k += 1;
        }
        let g = Gif {
            width,
            height,
            global_palette: global,
            frames,
            loop_count: LoopCount::Infinite,
            original_palette,
        };
        proof {
            assert forall|j: int| 0 <= j < ds.len() implies is_decoded_output(
                #[trigger] g@.frames[j],
                ds[j],
                decoded_pre(ds, j as nat, width as int, height as int),
                width,
                height,
            ) by {
                assert(g@.frames[j] == g.frames@[j]@);
            }
            law_decoded_disposal_chain(g@, width, height, bytes_opt_view(global_palette), ds);
            assert forall|k: int| 0 <= k < ds.len() implies #[trigger] ds[k] == decoded@[k]@ by {}
        }
        Ok(g)
    }

    /// Decode a GIF from a byte slice.
    ///
    /// The `gif` crate reads the stream, decoding each frame to an RGBA
    /// patch; the patches are then composited by [`Gif::from_decoded`] into
    /// full-canvas frames. The result is exactly that compositing of what
    /// the decoder reads ([`gif_decode`]). Fails with an invalid-GIF error
    /// when the header is missing or corrupt, and with a decode error when
    /// the decoder fails later or a frame cannot be placed on the canvas.
    pub fn from_bytes(data: &[u8]) -> (r: crate::error::Result<Gif>)
        ensures
            r is Ok <==> (gif_decode(data@) matches Some((w, h, p, fs)) && decodable(w, h, fs)),
            r matches Ok(g) ==> (gif_decode(data@) matches Some((w, h, p, fs)) && is_decoded_gif(g@, w, h, p, fs)),
            r matches Ok(g) ==> forall|k: int|
                0 <= k < g.frames@.len() ==> (#[trigger] g.frames@[k]).left == 0 && g.frames@[k].top == 0
                    && g.frames@[k].width == g.width && g.frames@[k].height == g.height,
            !has_gif_signature(data@) ==> r matches Err(Error::InvalidGif(_)),
            r matches Err(e) ==> (e is InvalidGif <==> (!header_reads(data@) && !has_gif_signature(data@))),
            r matches Err(e) ==> (e is InvalidGif || e is DecodeError),
    {
        let mut settings = new_decode_options();
        request_rgba_output(&mut settings);
        let mut decoder = match read_info(settings, data) {
            Ok(d) => d,
            Err(e) => {
                let message = decoding_error_message(&e);
                if gif_signature_present(data) {
                    return Err(Error::DecodeError(message));
                } else {
                    return Err(Error::InvalidGif(message));
                }
            },
        };
        let width = decoder_width(&decoder);
        let height = decoder_height(&decoder);
        let global_palette = decoder_global_palette(&decoder);
        let mut decoded: Vec<DecodedFrame> = Vec::new();
        let ghost d = data@;
        // Every frame takes at least its ten-byte image descriptor from the
        // stream, so there are fewer frames than bytes.
        let limit = data.len();
        let mut count: usize = 0;
        loop
            invariant_except_break
                decoder.frames_read@ == count,
                decoded@.len() == count,
                forall|k: nat| k < count ==> #[trigger] frame_read(d, k) == Some(Some(decoded_views(decoded@)[k as int])),
            invariant
                count <= limit,
                limit == d.len(),
                d == data@,
                header_reads(d),
                has_gif_signature(d),
                decoder.source@ == d,
                width == screen_width(d),
                height == screen_height(d),
                bytes_opt_view(global_palette) == global_table(d),
            ensures
                header_reads(d),
                width == screen_width(d),
                height == screen_height(d),
                bytes_opt_view(global_palette) == global_table(d),
                frames_from(d, 0, limit as nat) == Some(decoded_views(decoded@)),
            decreases limit - count,
        {
            if count == limit {
                proof {
                    lemma_frames_prefix(d, decoded_views(decoded@), 0, count as nat, limit as nat);
                }
                return Err(Error::DecodeError(String::from_str("more frames than stream bytes")));
            }
            let ghost before = decoded_views(decoded@);
            match read_next_frame(&mut decoder) {
                Ok(Some(f)) => {
                    decoded.push(f);
                    proof {
                        assert(decoded_views(decoded@) =~= before.push(f@));
                    }
                },
                Ok(None) => {
                    proof {
                        lemma_frames_prefix(d, before, 0, count as nat, limit as nat);
                        assert(frames_from(d, count as nat, limit as nat) == Some(Seq::<DecodedFrameView>::empty()));
                        assert(before.subrange(0, count as int) + Seq::<DecodedFrameView>::empty() =~= before);
                    }
                    break;
                },
                Err(e) => {
                    proof {
                        lemma_frames_prefix(d, before, 0, count as nat, limit as nat);
                    }
                    return Err(Error::DecodeError(decoding_error_message(&e)));
                },
            }
            count += 1;
        }
        let r = Gif::from_decoded(width, height, global_palette, &decoded);
        proof {
            if r is Ok {
                let g = r->Ok_0;
                assert forall|k: int| 0 <= k < g.frames@.len() implies (#[trigger] g.frames@[k]).left
                    == 0 && g.frames@[k].top == 0 && g.frames@[k].width == g.width
                    && g.frames@[k].height == g.height by {
                    assert(g@.frames[k] == g.frames@[k]@);
                }
            }
        }
        r
    }
}

/// Whether the data begins with a `GIF87a`/`GIF89a` signature and holds a
/// screen descriptor.
fn gif_signature_present(data: &[u8]) -> (r: bool)
    ensures
        r == has_gif_signature(data@),
{
    data.len() >= 13 && data[0] == 71 && data[1] == 73 && data[2] == 70 && data[3] == 56 && (data[4] == 55
        || data[4] == 57) && data[5] == 97
}

/// The frames the decoder hands out from call `k` on, when it reports the
/// end of the stream before call `limit`; `None` when a call fails first or
/// the end does not come before `limit`.
pub open spec fn frames_from(data: Seq<u8>, k: nat, limit: nat) -> Option<Seq<DecodedFrameView>>
    decreases limit - k,
{
    if k >= limit {
        None
    } else {
        match frame_read(data, k) {
            None => None,
            Some(None) => Some(Seq::empty()),
            Some(Some(f)) => match frames_from(data, k + 1, limit) {
                Some(rest) => Some(seq![f] + rest),
                None => None,
            },
        }
    }
}

/// What the decoder reads from `data`: the screen size, the global color
/// table and the frames up to the end of the stream; `None` when the header
/// is not read, a frame read fails, or the stream holds no end before as
/// many frames as it has bytes.
pub open spec fn gif_decode(data: Seq<u8>) -> Option<(u16, u16, Option<Seq<u8>>, Seq<DecodedFrameView>)> {
    if !header_reads(data) {
        None
    } else {
        match frames_from(data, 0, data.len()) {
            Some(fs) => Some((screen_width(data), screen_height(data), global_table(data), fs)),
            None => None,
        }
    }
}

/// When the first `c` reads give the frames `vs`, the frames read from call
/// `j <= c` on are `vs[j..c]` followed by those read from call `c` on.
pub proof fn lemma_frames_prefix(data: Seq<u8>, vs: Seq<DecodedFrameView>, j: nat, c: nat, limit: nat)
    requires
        j <= c,
        c == vs.len(),
        c <= limit,
        forall|k: nat| k < c ==> #[trigger] frame_read(data, k) == Some(Some(vs[k as int])),
    ensures
        frames_from(data, j, limit) == match frames_from(data, c, limit) {
            Some(rest) => Some(vs.subrange(j as int, c as int) + rest),
            None => None,
        },
    decreases c - j,
{
    if j < c {
        lemma_frames_prefix(data, vs, j + 1, c, limit);
        assert(frame_read(data, j) == Some(Some(vs[j as int])));
        match frames_from(data, c, limit) {
            Some(rest) => {
                assert(seq![vs[j as int]] + (vs.subrange((j + 1) as int, c as int) + rest) =~= vs.subrange(j as int, c as int) + rest);
            },
            None => {},
        }
    } else {
        match frames_from(data, c, limit) {
            Some(rest) => {
                assert(vs.subrange(c as int, c as int) + rest =~= rest);
            },
            None => {},
        }
    }
}

/// The replayed canvas always holds exactly the canvas's pixels.
pub proof fn lemma_decoded_pre_len(frames: Seq<DecodedFrameView>, n: nat, cw: int, ch: int)
    requires
        0 <= cw,
        0 <= ch,
    ensures
        decoded_pre(frames, n, cw, ch).len() == cw * ch * 4,
    decreases n,
{
    if n > 0 {
        lemma_decoded_pre_len(frames, (n - 1) as nat, cw, ch);
    }
}

/// Every decoded frame is a complete full-canvas frame: placed at the
/// origin, the size of the canvas, with one RGBA pixel per canvas pixel.
pub proof fn law_decoded_frames_are_full_canvas(
    g: crate::types::GifView,
    width: u16,
    height: u16,
    global_palette: Option<Seq<u8>>,
    frames: Seq<DecodedFrameView>,
)
    requires
        is_decoded_gif(g, width, height, global_palette, frames),
    ensures
        forall|k: int|
            0 <= k < g.frames.len() ==> (#[trigger] g.frames[k]).wf() && g.frames[k].left == 0 && g.frames[k].top
                == 0 && g.frames[k].width == g.width && g.frames[k].height == g.height,
{
    assert forall|k: int| 0 <= k < g.frames.len() implies (#[trigger] g.frames[k]).wf() && g.frames[k].left == 0
        && g.frames[k].top == 0 && g.frames[k].width == g.width && g.frames[k].height == g.height by {
        lemma_decoded_pre_len(frames, k as nat, width as int, height as int);
        assert(is_decoded_output(
            g.frames[k],
            frames[k],
            decoded_pre(frames, k as nat, width as int, height as int),
            width,
            height,
        ));
    }
}


/// What each disposal hands to the next frame: the first frame is drawn on
/// a transparent canvas; after an unspecified or a keep disposal the next
/// frame is drawn on the canvas the frame displayed; after a background
/// disposal it is drawn on that canvas with the frame rectangle cleared
/// (laid out row by row); after a restore-previous disposal it is drawn on
/// the very canvas the frame itself was drawn on.
pub proof fn law_decoded_disposal_chain(
    g: crate::types::GifView,
    width: u16,
    height: u16,
    global_palette: Option<Seq<u8>>,
    frames: Seq<DecodedFrameView>,
)
    requires
        is_decoded_gif(g, width, height, global_palette, frames),
    ensures
        frames.len() > 0 ==> g.frames[0].pixels == composited(
            zeros(width * height * 4),
            width as int,
            height as int,
            frames[0].buffer,
            frames[0].width as int,
            frames[0].height as int,
            frames[0].left as int,
            frames[0].top as int,
        ),
        forall|k: int|
            0 <= k < frames.len() - 1 && (frames[k].dispose == DisposalMethod::Any
                || frames[k].dispose == DisposalMethod::Keep) ==> (#[trigger] g.frames[k + 1]).pixels
                == composited(
                g.frames[k].pixels,
                width as int,
                height as int,
                frames[k + 1].buffer,
                frames[k + 1].width as int,
                frames[k + 1].height as int,
                frames[k + 1].left as int,
                frames[k + 1].top as int,
            ),
        forall|k: int|
            0 <= k < frames.len() - 1 && frames[k].dispose == DisposalMethod::Background
                ==> (#[trigger] g.frames[k + 1]).pixels == composited(
                cleared_linear(
                    g.frames[k].pixels,
                    width as int,
                    frames[k].left as int,
                    frames[k].top as int,
                    frames[k].width as int,
                    frames[k].height as int,
                ),
                width as int,
                height as int,
                frames[k + 1].buffer,
                frames[k + 1].width as int,
                frames[k + 1].height as int,
                frames[k + 1].left as int,
                frames[k + 1].top as int,
            ),
        forall|k: int|
            0 <= k < frames.len() - 1 && frames[k].dispose == DisposalMethod::Previous ==> {
                let c = decoded_pre(frames, k as nat, width as int, height as int);
                &&& g.frames[k].pixels == composited(
                    c,
                    width as int,
                    height as int,
                    frames[k].buffer,
                    frames[k].width as int,
                    frames[k].height as int,
                    frames[k].left as int,
                    frames[k].top as int,
                )
                &&& (#[trigger] g.frames[k + 1]).pixels == composited(
                    c,
                    width as int,
                    height as int,
                    frames[k + 1].buffer,
                    frames[k + 1].width as int,
                    frames[k + 1].height as int,
                    frames[k + 1].left as int,
                    frames[k + 1].top as int,
                )
            },
{
    if frames.len() > 0 {
        assert(is_decoded_output(g.frames[0], frames[0], decoded_pre(frames, 0, width as int, height as int), width, height));
    }
    assert forall|k: int| 0 <= k < frames.len() - 1 implies is_decoded_output(
        g.frames[k],
        frames[k],
        decoded_pre(frames, k as nat, width as int, height as int),
        width,
        height,
    ) && is_decoded_output(
        #[trigger] g.frames[k + 1],
        frames[k + 1],
        decoded_pre(frames, (k + 1) as nat, width as int, height as int),
        width,
        height,
    ) && decoded_pre(frames, (k + 1) as nat, width as int, height as int) == decoded_disposed(
        decoded_pre(frames, k as nat, width as int, height as int),
        frames[k],
        width as int,
        height as int,
    ) by {}
}

} // verus!
