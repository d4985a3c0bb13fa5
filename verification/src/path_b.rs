//! Path B: general sparse/transparent optimization of frame sequences.
//!
//! Path B applies the structural optimization of [`crate::optimize`] to a
//! plain frame sequence: unchanged pixels become transparent (exactly, or
//! within a quality-derived threshold for the lossy form) while disposal
//! semantics are respected.

use vstd::prelude::*;
use crate::optimize::{
    frames_hold_pixels, inferred_canvas, lossy_threshold, optimize_frames_internal,
    optimize_frames_internal_with_canvas, optimized_frames_spec, placement_fits,
};
use crate::types::{Frame, OptLevel, frames_view};

verus! {

/// Configuration for Path B optimization.
#[derive(Debug, Clone, Copy)]
pub struct PathBConfig {
    /// Optimization level controlling cropping behavior.
    pub level: OptLevel,
}

impl Default for PathBConfig {
    fn default() -> (r: Self)
        ensures
            r.level == OptLevel::O3,
    {
        PathBConfig { level: OptLevel::O3 }
    }
}

/// Optimize frames with Path B: exact comparison against the replayed
/// canvases, cropping to the changed rectangle at `O3`.
pub fn optimize_path_b(frames: &[Frame], config: PathBConfig) -> (r: Vec<Frame>)
    requires
        frames_hold_pixels(frames@),
    ensures
        frames_view(r@) == optimized_frames_spec(
            frames_view(frames@),
            0,
            config.level == OptLevel::O3,
            false,
            inferred_canvas(frames_view(frames@)).0,
            inferred_canvas(frames_view(frames@)).1,
        ),
{
    if frames.len() == 0 {
        let r: Vec<Frame> = Vec::new();
        assert(frames_view(r@) =~= optimized_frames_spec(frames_view(frames@), 0, config.level == OptLevel::O3, false, 0, 0));
        return r;
    }
    let crop_to_bbox = match config.level {
        OptLevel::O3 => true,
        _ => false,
    };
    optimize_frames_internal(frames, 0, crop_to_bbox)
}

/// Optimize frames with Path B, lossy: comparison within the threshold of
/// the quality (0 at quality 100, up to 20 at quality 0), always cropping,
/// subframes compared over their overlap with the canvas.
pub fn optimize_path_b_lossy(frames: &[Frame], quality: u8, canvas_width: u16, canvas_height: u16) -> (r: Vec<Frame>)
    requires
        frames_hold_pixels(frames@),
        forall|i: int| 0 <= i < frames@.len() ==> placement_fits((#[trigger] frames@[i])@),
        canvas_width as int * canvas_height as int * 4 <= usize::MAX,
    ensures
        frames_view(r@) == optimized_frames_spec(
            frames_view(frames@),
            lossy_threshold(quality),
            true,
            true,
            canvas_width,
            canvas_height,
        ),
{
    if frames.len() == 0 {
        let r: Vec<Frame> = Vec::new();
        assert(frames_view(r@) =~= optimized_frames_spec(frames_view(frames@), lossy_threshold(quality), true, true, canvas_width, canvas_height));
        return r;
    }
    let quality = if quality > 100 { 100u8 } else { quality };
    let threshold = ((100 - quality as u16) * 20 / 100) as u8;
    optimize_frames_internal_with_canvas(frames, threshold, true, canvas_width, canvas_height)
}

} // verus!
