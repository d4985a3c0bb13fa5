//! Core data types: frames, palettes, disposal methods and the animation.

use vstd::prelude::*;
use std::time::Duration;

verus! {

/// How a frame is disposed of before the next frame is drawn.
#[derive(Debug, Clone, Copy, PartialEq, Eq, Structural)]
pub enum DisposalMethod {
    /// No disposal specified; the canvas is left as displayed.
    Any,
    /// Keep the frame on the canvas.
    Keep,
    /// Clear the frame region to transparent.
    Background,
    /// Restore the canvas to its state before the frame was drawn.
    Previous,
}

/// Number of times the animation repeats.
#[derive(Debug, Clone, Copy, PartialEq, Eq, Structural)]
pub enum LoopCount {
    /// Repeat forever.
    Infinite,
    /// Repeat the given number of times.
    Finite(u16),
}

/// Optimization level.
#[derive(Debug, Clone, Copy, PartialEq, Eq, Structural)]
pub enum OptLevel {
    /// Exact pixel match, no cropping.
    O1,
    /// Exact pixel match, no cropping.
    O2,
    /// Exact pixel match with cropping to the changed bounding box.
    O3,
}

/// Resize filter.
#[derive(Debug, Clone, Copy, PartialEq, Eq, Structural)]
pub enum Filter {
    /// Nearest neighbour.
    Nearest,
    /// Bilinear.
    Bilinear,
    /// Mitchell.
    Mitchell,
    /// Lanczos with three lobes.
    Lanczos3,
}

/// A color palette of RGB triples.
#[derive(Debug, Clone)]
pub struct Palette {
    /// Palette colors.
    pub colors: Vec<[u8; 3]>,
}

/// A single frame: RGBA pixels plus placement and timing.
#[derive(Debug)]
pub struct Frame {
    /// RGBA pixels, row-major, `width * height * 4` bytes for a well-formed frame.
    pub pixels: Vec<u8>,
    /// Delay before the next frame.
    pub delay: Duration,
    /// Disposal method.
    pub dispose: DisposalMethod,
    /// Local palette, if any.
    pub local_palette: Option<Palette>,
    /// Horizontal offset on the canvas.
    pub left: u16,
    /// Vertical offset on the canvas.
    pub top: u16,
    /// Frame width.
    pub width: u16,
    /// Frame height.
    pub height: u16,
}

/// A decoded GIF animation.
#[derive(Debug)]
pub struct Gif {
    /// Canvas width.
    pub width: u16,
    /// Canvas height.
    pub height: u16,
    /// Global palette, if any.
    pub global_palette: Option<Palette>,
    /// Frames in display order.
    pub frames: Vec<Frame>,
    /// Loop count.
    pub loop_count: LoopCount,
    /// The palette the source was decoded with, kept for fast re-encoding.
    pub original_palette: Option<Vec<[u8; 3]>>,
}

/// The mathematical value of a frame: its pixels as a sequence plus metadata.
pub struct FrameView {
    pub pixels: Seq<u8>,
    pub delay: Duration,
    pub dispose: DisposalMethod,
    pub local_palette: Option<Seq<[u8; 3]>>,
    pub left: u16,
    pub top: u16,
    pub width: u16,
    pub height: u16,
}

/// The mathematical value of an animation.
pub struct GifView {
    pub width: u16,
    pub height: u16,
    pub global_palette: Option<Seq<[u8; 3]>>,
    pub frames: Seq<FrameView>,
    pub loop_count: LoopCount,
    pub original_palette: Option<Seq<[u8; 3]>>,
}

impl View for Palette {
    type V = Seq<[u8; 3]>;

    open spec fn view(&self) -> Seq<[u8; 3]> {
        self.colors@
    }
}

/// The view of an optional palette.
pub open spec fn palette_opt_view(p: Option<Palette>) -> Option<Seq<[u8; 3]>> {
    match p {
        Some(pal) => Some(pal@),
        None => None,
    }
}

/// The view of an optional color list.
pub open spec fn colors_opt_view(p: Option<Vec<[u8; 3]>>) -> Option<Seq<[u8; 3]>> {
    match p {
        Some(c) => Some(c@),
        None => None,
    }
}

impl View for Frame {
    type V = FrameView;

    open spec fn view(&self) -> FrameView {
        FrameView {
            pixels: self.pixels@,
            delay: self.delay,
            dispose: self.dispose,
            local_palette: palette_opt_view(self.local_palette),
            left: self.left,
            top: self.top,
            width: self.width,
            height: self.height,
        }
    }
}

/// The views of a sequence of frames.
pub open spec fn frames_view(frames: Seq<Frame>) -> Seq<FrameView> {
    frames.map_values(|f: Frame| f@)
}

impl View for Gif {
    type V = GifView;

    open spec fn view(&self) -> GifView {
        GifView {
            width: self.width,
            height: self.height,
            global_palette: palette_opt_view(self.global_palette),
            frames: frames_view(self.frames@),
            loop_count: self.loop_count,
            original_palette: colors_opt_view(self.original_palette),
        }
    }
}

impl FrameView {
    /// The pixel buffer matches the declared size.
    pub open spec fn wf(&self) -> bool {
        self.pixels.len() == self.width as int * self.height as int * 4
    }

    /// The pixel buffer holds at least the declared pixels.
    pub open spec fn holds_pixels(&self) -> bool {
        self.pixels.len() >= self.width as int * self.height as int * 4
    }
}

impl Palette {
    /// A copy of this palette.
    pub fn duplicate(&self) -> (r: Palette)
        ensures
            r@ == self@,
    {
        Palette { colors: copy_colors(&self.colors) }
    }
}

/// A copy of a color list.
pub fn copy_colors(colors: &Vec<[u8; 3]>) -> (r: Vec<[u8; 3]>)
    ensures
        r@ == colors@,
{
    let mut out: Vec<[u8; 3]> = Vec::with_capacity(colors.len());
    let mut i: usize = 0;
    while i < colors.len()
        invariant
            i <= colors.len(),
            out@ == colors@.subrange(0, i as int),
        decreases colors.len() - i,
    {
        let c: [u8; 3] = colors[i];
        out.push(c);
        i += 1;
    }
    assert(out@ == colors@);
    out
}

/// A copy of a byte buffer.
pub fn copy_bytes(v: &Vec<u8>) -> (r: Vec<u8>)
    ensures
        r@ == v@,
{
    let mut out: Vec<u8> = Vec::with_capacity(v.len());
    let mut i: usize = 0;
    while i < v.len()
        invariant
            i <= v.len(),
            out@ == v@.subrange(0, i as int),
        decreases v.len() - i,
    {
        out.push(v[i]);
        i += 1;
    }
    assert(out@ == v@);
    out
}

/// A copy of an optional palette.
pub fn copy_palette_opt(p: &Option<Palette>) -> (r: Option<Palette>)
    ensures
        palette_opt_view(r) == palette_opt_view(*p),
{
    match p {
        Some(pal) => Some(pal.duplicate()),
        None => None,
    }
}

impl Frame {
    /// A copy of this frame.
    pub fn duplicate(&self) -> (r: Frame)
        ensures
            r@ == self@,
    {
        Frame {
            pixels: copy_bytes(&self.pixels),
            delay: self.delay,
            dispose: self.dispose,
            local_palette: copy_palette_opt(&self.local_palette),
            left: self.left,
            top: self.top,
            width: self.width,
            height: self.height,
        }
    }
}

impl Clone for Frame {
    /// A copy of the frame.
    fn clone(&self) -> (r: Self)
        ensures
            r@ == self@,
    {
        self.duplicate()
    }
}

/// A copy of a list of frames.
pub fn copy_frames(frames: &Vec<Frame>) -> (r: Vec<Frame>)
    ensures
        frames_view(r@) == frames_view(frames@),
{
    let mut out: Vec<Frame> = Vec::new();
    let mut i: usize = 0;
    while i < frames.len()
        invariant
            i <= frames@.len(),
            out@.len() == i,
            forall|j: int| 0 <= j < i ==> (#[trigger] out@[j])@ == frames@[j]@,
        decreases frames@.len() - i,
    {
        let f = frames[i].duplicate();
        out.push(f);
        i += 1;
    }
    assert(frames_view(out@) =~= frames_view(frames@));
    out
}

impl Clone for Gif {
    /// A copy of the animation.
    fn clone(&self) -> (r: Self)
        ensures
            r@ == self@,
    {
        let original_palette = match &self.original_palette {
            Some(c) => Some(copy_colors(c)),
            None => None,
        };
        Gif {
            width: self.width,
            height: self.height,
            global_palette: copy_palette_opt(&self.global_palette),
            frames: copy_frames(&self.frames),
            loop_count: self.loop_count,
            original_palette,
        }
    }
}

} // verus!
