use rusticle::adaptive_ir::CanonicalSequenceBuilder;
use rusticle::candidate_gen::{CandidateGenerator, CandidateRepresentation, SafetyReason};
use rusticle::types::{DisposalMethod, Frame, Gif, LoopCount};
use std::time::Duration;


/// Create a test Gif with specified dimensions and frame count.
fn create_test_gif(width: u16, height: u16, frame_count: usize) -> Gif {
    let canvas_size = (width as usize) * (height as usize) * 4;
    let mut frames = Vec::new();

    for i in 0..frame_count {
        let mut pixels = vec![0u8; canvas_size];
        // Fill with a simple pattern
        for j in 0..canvas_size / 4 {
            pixels[j * 4] = (i * 50) as u8; // R
            pixels[j * 4 + 1] = (j % 256) as u8; // G
            pixels[j * 4 + 2] = 100; // B
            pixels[j * 4 + 3] = 255; // A (opaque)
        }

        frames.push(Frame {
            pixels,
            delay: Duration::from_millis(100),
            dispose: DisposalMethod::Keep,
            local_palette: None,
            left: 0,
            top: 0,
            width,
            height,
        });
    }

    Gif {
        width,
        height,
        global_palette: None,
        frames,
        loop_count: LoopCount::Infinite,
        original_palette: None,
    }
}

/// Create a test Gif with a single opaque delta frame.
fn create_opaque_delta_gif(width: u16, height: u16) -> Gif {
    let canvas_size = (width as usize) * (height as usize) * 4;

    // Frame 0: full opaque canvas
    let mut frame0_pixels = vec![0u8; canvas_size];
    for j in 0..canvas_size / 4 {
        frame0_pixels[j * 4] = 100; // R
        frame0_pixels[j * 4 + 1] = 100; // G
        frame0_pixels[j * 4 + 2] = 100; // B
        frame0_pixels[j * 4 + 3] = 255; // A
    }

    // Frame 1: delta in a small region (top-left 10x10)
    // Note: Gif stores full-canvas frames, so we create a full canvas and mark the delta region
    let mut frame1_pixels = frame0_pixels.clone();
    for y in 0..10 {
        for x in 0..10 {
            let idx = (y * (width as usize) + x) * 4;
            frame1_pixels[idx] = 200; // R
            frame1_pixels[idx + 1] = 50; // G
            frame1_pixels[idx + 2] = 50; // B
            frame1_pixels[idx + 3] = 255; // A
        }
    }

    Gif {
        width,
        height,
        global_palette: None,
        frames: vec![
            Frame {
                pixels: frame0_pixels,
                delay: Duration::from_millis(100),
                dispose: DisposalMethod::Keep,
                local_palette: None,
                left: 0,
                top: 0,
                width,
                height,
            },
            Frame {
                pixels: frame1_pixels,
                delay: Duration::from_millis(100),
                dispose: DisposalMethod::Keep,
                local_palette: None,
                left: 0,
                top: 0,
                width,
                height,
            },
        ],
        loop_count: LoopCount::Infinite,
        original_palette: None,
    }
}

/// Create a test Gif with Background disposal.
fn create_background_disposal_gif(width: u16, height: u16) -> Gif {
    let canvas_size = (width as usize) * (height as usize) * 4;

    // Frame 0: full opaque canvas
    let mut frame0_pixels = vec![0u8; canvas_size];
    for j in 0..canvas_size / 4 {
        frame0_pixels[j * 4] = 100;
        frame0_pixels[j * 4 + 1] = 100;
        frame0_pixels[j * 4 + 2] = 100;
        frame0_pixels[j * 4 + 3] = 255;
    }

    // Frame 1: same as frame 0 (will be disposed to transparent)
    let frame1_pixels = frame0_pixels.clone();

    Gif {
        width,
        height,
        global_palette: None,
        frames: vec![
            Frame {
                pixels: frame0_pixels,
                delay: Duration::from_millis(100),
                dispose: DisposalMethod::Keep,
                local_palette: None,
                left: 0,
                top: 0,
                width,
                height,
            },
            Frame {
                pixels: frame1_pixels,
                delay: Duration::from_millis(100),
                dispose: DisposalMethod::Background,
                local_palette: None,
                left: 0,
                top: 0,
                width,
                height,
            },
        ],
        loop_count: LoopCount::Infinite,
        original_palette: None,
    }
}

/// Create a test Gif with transparency-heavy sparse frame.
fn create_transparent_sparse_gif(width: u16, height: u16) -> Gif {
    let canvas_size = (width as usize) * (height as usize) * 4;

    // Frame 0: full opaque canvas
    let mut frame0_pixels = vec![0u8; canvas_size];
    for j in 0..canvas_size / 4 {
        frame0_pixels[j * 4] = 100;
        frame0_pixels[j * 4 + 1] = 100;
        frame0_pixels[j * 4 + 2] = 100;
        frame0_pixels[j * 4 + 3] = 255;
    }

    // Frame 1: mostly transparent with sparse opaque pixels
    let mut frame1_pixels = vec![0u8; canvas_size];
    // Only fill a few pixels with opaque
    for i in 0..10 {
        frame1_pixels[i * 4 + 3] = 255; // A
    }

    Gif {
        width,
        height,
        global_palette: None,
        frames: vec![
            Frame {
                pixels: frame0_pixels,
                delay: Duration::from_millis(100),
                dispose: DisposalMethod::Keep,
                local_palette: None,
                left: 0,
                top: 0,
                width,
                height,
            },
            Frame {
                pixels: frame1_pixels,
                delay: Duration::from_millis(100),
                dispose: DisposalMethod::Keep,
                local_palette: None,
                left: 0,
                top: 0,
                width,
                height,
            },
        ],
        loop_count: LoopCount::Infinite,
        original_palette: None,
    }
}

#[test]
fn test_generate_full_frame_candidate() {
    let gif = create_test_gif(50, 50, 2);
    let seq = CanonicalSequenceBuilder::build(&gif).expect("Failed to build sequence");
    let candidates = CandidateGenerator::generate(&seq);

    // Should have at least one full frame candidate per frame
    let full_frame_candidates: Vec<_> = candidates
        .iter()
        .filter(|c| c.representation == CandidateRepresentation::FullFrame)
        .collect();
    assert!(full_frame_candidates.len() >= 2);
}

#[test]
fn test_opaque_delta_frame_produces_bbox_candidate() {
    // Create a frame with opaque pixels in a small region and transparent elsewhere
    // This tests the opaque bbox candidate generation
    let width = 50u16;
    let height = 50u16;
    let canvas_size = (width as usize) * (height as usize) * 4;

    // Frame 0: full opaque canvas (red)
    let mut frame0_pixels = vec![0u8; canvas_size];
    for j in 0..canvas_size / 4 {
        frame0_pixels[j * 4] = 100; // R
        frame0_pixels[j * 4 + 1] = 100; // G
        frame0_pixels[j * 4 + 2] = 100; // B
        frame0_pixels[j * 4 + 3] = 255; // A
    }

    // Frame 1: opaque pixels only in top-left 10x10, rest transparent
    let mut frame1_pixels = vec![0u8; canvas_size];
    for y in 0..10 {
        for x in 0..10 {
            let idx = (y * (width as usize) + x) * 4;
            frame1_pixels[idx] = 200; // R
            frame1_pixels[idx + 1] = 50; // G
            frame1_pixels[idx + 2] = 50; // B
            frame1_pixels[idx + 3] = 255; // A (opaque)
        }
    }
    // Rest is transparent (alpha = 0)

    let gif = Gif {
        width,
        height,
        global_palette: None,
        frames: vec![
            Frame {
                pixels: frame0_pixels,
                delay: Duration::from_millis(100),
                dispose: DisposalMethod::Keep,
                local_palette: None,
                left: 0,
                top: 0,
                width,
                height,
            },
            Frame {
                pixels: frame1_pixels,
                delay: Duration::from_millis(100),
                dispose: DisposalMethod::Keep,
                local_palette: None,
                left: 0,
                top: 0,
                width,
                height,
            },
        ],
        loop_count: LoopCount::Infinite,
        original_palette: None,
    };

    let seq = CanonicalSequenceBuilder::build(&gif).expect("Failed to build sequence");
    let candidates = CandidateGenerator::generate(&seq);

    // Frame 1 should have candidates (at minimum full frame and transparent sparse)
    let frame1_candidates: Vec<_> = candidates.iter().filter(|c| c.frame_index == 1).collect();
    assert!(!frame1_candidates.is_empty(), "Frame 1 should have candidates");

    // Since frame 1 has transparency, it won't have an opaque bbox candidate
    // But it should have a transparent sparse patch candidate
    let sparse_candidates: Vec<_> = frame1_candidates
        .iter()
        .filter(|c| matches!(c.representation, CandidateRepresentation::TransparentSparsePatch { .. }))
        .collect();
    assert!(!sparse_candidates.is_empty(), "Frame 1 should have transparent sparse candidate");
}

#[test]
fn test_background_disposal_no_unsafe_minimal() {
    let gif = create_background_disposal_gif(50, 50);
    let seq = CanonicalSequenceBuilder::build(&gif).expect("Failed to build sequence");
    let candidates = CandidateGenerator::generate(&seq);

    // Frame 1 with Background disposal should not produce a safe minimal candidate
    let frame1_candidates: Vec<_> = candidates.iter().filter(|c| c.frame_index == 1).collect();
    let minimal_candidates: Vec<_> = frame1_candidates
        .iter()
        .filter(|c| c.representation == CandidateRepresentation::MinimalNoOp)
        .collect();

    // If minimal candidate exists, it should be marked as risky
    for candidate in minimal_candidates {
        assert_eq!(
            candidate.metadata.safety_reason,
            SafetyReason::RiskyMinimalBackground,
            "Minimal candidate with Background disposal should be marked risky"
        );
    }
}

#[test]
fn test_transparent_sparse_candidate_generated() {
    let gif = create_transparent_sparse_gif(50, 50);
    let seq = CanonicalSequenceBuilder::build(&gif).expect("Failed to build sequence");
    let candidates = CandidateGenerator::generate(&seq);

    // Frame 1 should have a transparent sparse patch candidate
    let frame1_candidates: Vec<_> = candidates.iter().filter(|c| c.frame_index == 1).collect();
    let sparse_candidates: Vec<_> = frame1_candidates
        .iter()
        .filter(|c| matches!(c.representation, CandidateRepresentation::TransparentSparsePatch { .. }))
        .collect();

    assert!(!sparse_candidates.is_empty(), "Frame 1 should have transparent sparse candidate");
}

#[test]
fn test_full_frame_always_available() {
    let gif = create_opaque_delta_gif(50, 50);
    let seq = CanonicalSequenceBuilder::build(&gif).expect("Failed to build sequence");
    let candidates = CandidateGenerator::generate(&seq);

    // Every frame should have a full frame candidate
    for frame_idx in 0..seq.frames.len() {
        let frame_candidates: Vec<_> = candidates.iter().filter(|c| c.frame_index == frame_idx).collect();
        let full_frame: Vec<_> = frame_candidates
            .iter()
            .filter(|c| c.representation == CandidateRepresentation::FullFrame)
            .collect();
        assert!(!full_frame.is_empty(), "Frame {} should have full frame candidate", frame_idx);
    }
}

#[test]
fn test_candidate_metadata_populated() {
    let gif = create_test_gif(50, 50, 1);
    let seq = CanonicalSequenceBuilder::build(&gif).expect("Failed to build sequence");
    let candidates = CandidateGenerator::generate(&seq);

    assert!(!candidates.is_empty());
    for candidate in candidates {
        assert_eq!(candidate.metadata.disposal_method, DisposalMethod::Keep);
        assert!((candidate.metadata.changed_pixel_count as f32 / candidate.metadata.canvas_pixel_count as f32) >= 0.0 && (candidate.metadata.changed_pixel_count as f32 / candidate.metadata.canvas_pixel_count as f32) <= 1.0);
    }
}
