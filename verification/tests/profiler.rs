use rusticle::adaptive_ir::CanonicalSequenceBuilder;
use rusticle::profiler::{extract_disposal_distribution, SequenceTaxonomy};
use rusticle::types::{DisposalMethod, Frame, Gif, LoopCount};
use std::time::Duration;

#[test]
fn test_taxonomy_name() {
    assert_eq!(SequenceTaxonomy::OpaqueDeltaGlobalPalette.name(), "opaque-delta/global-palette");
    assert_eq!(
        SequenceTaxonomy::TransparencyHeavySparseDelta.name(),
        "transparency-heavy/sparse-delta"
    );
    assert_eq!(
        SequenceTaxonomy::DisposalHeavyBackgroundPrevious.name(),
        "disposal-heavy/background-previous"
    );
    assert_eq!(SequenceTaxonomy::Photographic.name(), "photographic/noisy");
    assert_eq!(SequenceTaxonomy::Mixed.name(), "mixed/unknown");
}

fn create_disposal_background_gif(width: u16, height: u16) -> Gif {
    let canvas_size = (width as usize) * (height as usize) * 4;

    // Frame 0: full opaque canvas
    let mut frame0_pixels = vec![0u8; canvas_size];
    for j in 0..canvas_size / 4 {
        frame0_pixels[j * 4] = 100;
        frame0_pixels[j * 4 + 1] = 100;
        frame0_pixels[j * 4 + 2] = 100;
        frame0_pixels[j * 4 + 3] = 255;
    }

    // Frame 1: same as frame 0 (will be disposed to transparent)
    let frame1_pixels = frame0_pixels.clone();

    // Frame 2: should show on transparent background
    let mut frame2_pixels = vec![0u8; canvas_size];
    for j in 0..canvas_size / 4 {
        frame2_pixels[j * 4] = 200;
        frame2_pixels[j * 4 + 1] = 50;
        frame2_pixels[j * 4 + 2] = 50;
        frame2_pixels[j * 4 + 3] = 255;
    }

    let frame = |pixels: Vec<u8>, dispose: DisposalMethod| Frame {
        pixels,
        delay: Duration::from_millis(100),
        dispose,
        local_palette: None,
        left: 0,
        top: 0,
        width,
        height,
    };
    Gif {
        width,
        height,
        global_palette: None,
        frames: vec![
            frame(frame0_pixels, DisposalMethod::Keep),
            frame(frame1_pixels, DisposalMethod::Background),
            frame(frame2_pixels, DisposalMethod::Keep),
        ],
        loop_count: LoopCount::Infinite,
        original_palette: None,
    }
}

#[test]
fn test_profile_disposal_distribution() {
    let gif = create_disposal_background_gif(50, 50);
    let seq = CanonicalSequenceBuilder::build(&gif).expect("Failed to build sequence");
    let distribution = extract_disposal_distribution(&seq);

    assert_eq!(distribution.keep_count, 2);
    assert_eq!(distribution.background_count, 1);
    assert_eq!(distribution.none_count, 0);
    assert_eq!(distribution.previous_count, 0);
}
