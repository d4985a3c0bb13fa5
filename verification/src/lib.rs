//! GIF processing library: decoding with canvas compositing, structural
//! frame optimization, canonical sequence analysis and the building blocks
//! of adaptive encoding (candidates, materialization, telemetry).
//!
//! Every function here is verified against its contract; the contracts are
//! stated over the mathematical models in `spec_util` and in each module.

pub mod spec_util;
pub mod text;
pub mod error;
pub mod types;
pub mod adaptive_ir;
pub mod analysis_kernels;
pub mod simd_opt;
pub mod gif_ops;
pub mod decode;
pub mod optimize;
pub mod path_a;
pub mod path_b;
pub mod candidate_gen;
pub mod lut_policy;
pub mod palette_strategy;
pub mod materialize;
pub mod adaptive_fallback;
pub mod profiler;
pub mod classifier;
pub mod quality;
pub mod scoring;
pub mod adaptive_encode;
pub mod image_compat;
