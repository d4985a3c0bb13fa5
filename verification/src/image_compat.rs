//! Conversions between frames and RGBA images, stated over the image's
//! parts: its width, height and pixel buffer.

use vstd::prelude::*;
use std::time::Duration;
use crate::decode::{duration_from_millis, millis_duration};
use crate::error::Error;
use crate::types::{DisposalMethod, Frame, FrameView, Gif, LoopCount};

verus! {

/// The parts of an RGBA image: its size and its pixel buffer.
#[derive(Debug)]
pub struct RgbaParts {
    /// Image width in pixels.
    pub width: u32,
    /// Image height in pixels.
    pub height: u32,
    /// RGBA pixels, row by row.
    pub pixels: Vec<u8>,
}

/// Both dimensions fit in `u16`.
pub open spec fn fits_u16(width: u32, height: u32) -> bool {
    width <= u16::MAX && height <= u16::MAX
}

/// The frame made from an image's parts: at the origin, 100 ms, unspecified disposal.
pub open spec fn frame_from_parts(width: u32, height: u32, pixels: Seq<u8>, delay: Duration) -> FrameView {
    FrameView {
        pixels,
        delay,
        dispose: DisposalMethod::Any,
        local_palette: None,
        left: 0,
        top: 0,
        width: width as u16,
        height: height as u16,
    }
}

/// The message of an error.
pub open spec fn error_text(e: Error) -> Seq<char> {
    match e {
        Error::DecodeError(s) => s@,
        Error::InvalidGif(s) => s@,
        Error::EncodeError(s) => s@,
        Error::ResizeError(s) => s@,
        Error::InvalidDimensions(s) => s@,
    }
}

impl Frame {
    /// Convert an RGBA image into a frame, taking its pixels as they are,
    /// with a 100 ms delay and the unspecified disposal. Fails when either
    /// dimension exceeds `u16::MAX`.
    pub fn from_rgba_parts(parts: RgbaParts) -> (r: crate::error::Result<Frame>)
        ensures
            r is Ok <==> fits_u16(parts.width, parts.height),
            r matches Ok(f) ==> f@ == frame_from_parts(parts.width, parts.height, parts.pixels@, millis_duration(100)),
            r matches Err(e) ==> e is InvalidDimensions && error_text(e) == "dimensions exceed u16::MAX"@,
    {
        if parts.width > 65535 || parts.height > 65535 {
            return Err(Error::InvalidDimensions(String::from_str("dimensions exceed u16::MAX")));
        }
        Ok(
            Frame {
                pixels: parts.pixels,
                delay: duration_from_millis(100),
                dispose: DisposalMethod::Any,
                local_palette: None,
                left: 0,
                top: 0,
                width: parts.width as u16,
                height: parts.height as u16,
            },
        )
    }
}

/// Every image has the size of the first.
pub open spec fn uniform_sizes(images: Seq<RgbaParts>) -> bool {
    forall|k: int| 0 <= k < images.len() ==> (#[trigger] images[k]).width == images[0].width && images[k].height == images[0].height
}

impl Gif {
    /// Build an animation from RGBA images of one size, each shown for
    /// `delay`; the first image's size is the canvas size. Fails when there
    /// is no image, when the size exceeds `u16::MAX`, or when the sizes differ.
    pub fn from_rgba_parts(images: Vec<RgbaParts>, delay: Duration) -> (r: crate::error::Result<Gif>)
        ensures
            r is Ok <==> images@.len() > 0 && fits_u16(images@[0].width, images@[0].height) && uniform_sizes(images@),
            r matches Err(e) ==> e is InvalidDimensions && error_text(e) == if images@.len() == 0 {
                "images list is empty"@
            } else if !fits_u16(images@[0].width, images@[0].height) {
                "dimensions exceed u16::MAX"@
            } else {
                "inconsistent frame dimensions"@
            },
            r matches Ok(g) ==> {
                &&& g.width == images@[0].width
                &&& g.height == images@[0].height
                &&& g.global_palette is None
                &&& g.original_palette is None
                &&& g.loop_count == LoopCount::Infinite
                &&& g.frames@.len() == images@.len()
                &&& forall|k: int|
                    0 <= k < images@.len() ==> (#[trigger] g.frames@[k])@ == frame_from_parts(
                        images@[k].width,
                        images@[k].height,
                        images@[k].pixels@,
                        delay,
                    )
            },
    {
        if images.len() == 0 {
            return Err(Error::InvalidDimensions(String::from_str("images list is empty")));
        }
        let w0 = images[0].width;
        let h0 = images[0].height;
        if w0 > 65535 || h0 > 65535 {
            return Err(Error::InvalidDimensions(String::from_str("dimensions exceed u16::MAX")));
        }
        let mut frames: Vec<Frame> = Vec::new();
        let n = images.len();
        let mut k: usize = 0;
        while k < n
            invariant
                n == images@.len(),
                n > 0,
                w0 == images@[0].width,
                h0 == images@[0].height,
                fits_u16(w0, h0),
                k <= n,
                frames@.len() == k,
                forall|j: int| 0 <= j < k ==> (#[trigger] images@[j]).width == w0 && images@[j].height == h0,
                forall|j: int|
                    0 <= j < k ==> (#[trigger] frames@[j])@ == frame_from_parts(
                        images@[j].width,
                        images@[j].height,
                        images@[j].pixels@,
                        delay,
                    ),
            decreases n - k,
        {
            let img = &images[k];
            if img.width != w0 || img.height != h0 {
                return Err(Error::InvalidDimensions(String::from_str("inconsistent frame dimensions")));
            }
            frames.push(
                Frame {
                    pixels: crate::types::copy_bytes(&img.pixels),
                    delay,
                    dispose: DisposalMethod::Any,
                    local_palette: None,
                    left: 0,
                    top: 0,
                    width: w0 as u16,
                    height: h0 as u16,
                },
            );
            k += 1;
        }
        Ok(
            Gif {
                width: w0 as u16,
                height: h0 as u16,
                global_palette: None,
                frames,
                loop_count: LoopCount::Infinite,
                original_palette: None,
            },
        )
    }
}

} // verus!
