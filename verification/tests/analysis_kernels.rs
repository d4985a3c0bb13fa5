use rusticle::analysis_kernels::{analyze_changed_pixels_scalar, analyze_changed_pixels_simd, analyze_color_distance_scalar, analyze_color_distance_simd, analyze_transparency_scalar, analyze_transparency_simd};


#[test]
fn test_changed_pixels_no_change() {
    let pixels = vec![100u8, 100, 100, 255, 50, 50, 50, 255];
    let stats = analyze_changed_pixels_simd(&pixels, &pixels, 0);
    assert_eq!(stats.changed_count, 0);
    assert_eq!(stats.became_transparent, 0);
    assert_eq!(stats.became_opaque, 0);
}

#[test]
fn test_changed_pixels_all_changed() {
    let prev = vec![100u8, 100, 100, 255, 50, 50, 50, 255];
    let curr = vec![200u8, 200, 200, 255, 150, 150, 150, 255];
    let stats = analyze_changed_pixels_simd(&prev, &curr, 0);
    assert_eq!(stats.changed_count, 2);
}

#[test]
fn test_changed_pixels_became_transparent() {
    let prev = vec![100u8, 100, 100, 255];
    let curr = vec![100u8, 100, 100, 0]; // alpha changed to transparent
    let stats = analyze_changed_pixels_simd(&prev, &curr, 0);
    assert_eq!(stats.changed_count, 1);
    assert_eq!(stats.became_transparent, 1);
    assert_eq!(stats.became_opaque, 0);
}

#[test]
fn test_changed_pixels_became_opaque() {
    let prev = vec![100u8, 100, 100, 0];
    let curr = vec![100u8, 100, 100, 255]; // alpha changed to opaque
    let stats = analyze_changed_pixels_simd(&prev, &curr, 0);
    assert_eq!(stats.changed_count, 1);
    assert_eq!(stats.became_transparent, 0);
    assert_eq!(stats.became_opaque, 1);
}

#[test]
fn test_changed_pixels_threshold() {
    let prev = vec![100u8, 100, 100, 255];
    let curr = vec![102u8, 101, 100, 255]; // diffs: 2, 1, 0, 0
    let stats = analyze_changed_pixels_simd(&prev, &curr, 2);
    assert_eq!(stats.changed_count, 0); // all within threshold
}

#[test]
fn test_changed_pixels_simd_vs_scalar() {
    let size = 1024;
    let prev: Vec<u8> = (0..size).map(|i| ((i * 7) % 256) as u8).collect();
    let curr: Vec<u8> = (0..size).map(|i| ((i * 7 + 3) % 256) as u8).collect();

    let simd_stats = analyze_changed_pixels_simd(&prev, &curr, 5);
    let scalar_stats = analyze_changed_pixels_scalar(&prev, &curr, 5);

    assert_eq!(simd_stats.changed_count, scalar_stats.changed_count);
    assert_eq!(
        simd_stats.became_transparent,
        scalar_stats.became_transparent
    );
    assert_eq!(simd_stats.became_opaque, scalar_stats.became_opaque);
}

#[test]
fn test_transparency_all_opaque() {
    let pixels = vec![100u8, 100, 100, 255, 50, 50, 50, 255];
    let stats = analyze_transparency_simd(&pixels);
    assert_eq!(stats.opaque_count, 2);
    assert_eq!(stats.transparent_count, 0);
    assert_eq!(stats.semi_transparent_count, 0);
}

#[test]
fn test_transparency_all_transparent() {
    let pixels = vec![100u8, 100, 100, 0, 50, 50, 50, 0];
    let stats = analyze_transparency_simd(&pixels);
    assert_eq!(stats.transparent_count, 2);
    assert_eq!(stats.opaque_count, 0);
    assert_eq!(stats.semi_transparent_count, 0);
}

#[test]
fn test_transparency_mixed() {
    let pixels = vec![
        100u8, 100, 100, 255, // opaque
        50, 50, 50, 0, // transparent
        75, 75, 75, 128, // semi-transparent
    ];
    let stats = analyze_transparency_simd(&pixels);
    assert_eq!(stats.opaque_count, 1);
    assert_eq!(stats.transparent_count, 1);
    assert_eq!(stats.semi_transparent_count, 1);
}

#[test]
fn test_transparency_simd_vs_scalar() {
    let size = 1024;
    let pixels: Vec<u8> = (0..size).map(|i| (i % 256) as u8).collect();

    let simd_stats = analyze_transparency_simd(&pixels);
    let scalar_stats = analyze_transparency_scalar(&pixels);

    assert_eq!(simd_stats.transparent_count, scalar_stats.transparent_count);
    assert_eq!(simd_stats.opaque_count, scalar_stats.opaque_count);
    assert_eq!(
        simd_stats.semi_transparent_count,
        scalar_stats.semi_transparent_count
    );
}

#[test]
fn test_color_distance_identical() {
    let pixels = vec![100u8, 100, 100, 255, 50, 50, 50, 255];
    let stats = analyze_color_distance_simd(&pixels, &pixels);
    assert_eq!(stats.sum_sq_distance, 0);
    assert_eq!(stats.max_distance, 0);
    assert_eq!(stats.pixel_count, 2);
}

#[test]
fn test_color_distance_simple() {
    let prev = vec![0u8, 0, 0, 255];
    let curr = vec![3u8, 4, 0, 255]; // distance = sqrt(9 + 16) = 5
    let stats = analyze_color_distance_simd(&prev, &curr);
    assert_eq!(stats.pixel_count, 1);
    assert_eq!(stats.max_distance, 5);
    assert_eq!(stats.sum_sq_distance, 25);
}

#[test]
fn test_color_distance_simd_vs_scalar() {
    let size = 1024;
    let prev: Vec<u8> = (0..size).map(|i| ((i * 7) % 256) as u8).collect();
    let curr: Vec<u8> = (0..size).map(|i| ((i * 7 + 3) % 256) as u8).collect();

    let simd_stats = analyze_color_distance_simd(&prev, &curr);
    let scalar_stats = analyze_color_distance_scalar(&prev, &curr);

    assert_eq!(simd_stats.sum_sq_distance, scalar_stats.sum_sq_distance);
    assert_eq!(simd_stats.max_distance, scalar_stats.max_distance);
    assert_eq!(simd_stats.pixel_count, scalar_stats.pixel_count);
}

#[test]
fn test_various_sizes() {
    for num_pixels in [1, 3, 4, 5, 15, 16, 17, 63, 64, 65, 100, 256] {
        let size = num_pixels * 4;
        let prev: Vec<u8> = (0..size).map(|i| (i % 256) as u8).collect();
        let curr: Vec<u8> = (0..size).map(|i| ((i + 1) % 256) as u8).collect();

        let simd_changed = analyze_changed_pixels_simd(&prev, &curr, 0);
        let scalar_changed = analyze_changed_pixels_scalar(&prev, &curr, 0);
        assert_eq!(
            simd_changed.changed_count, scalar_changed.changed_count,
            "Changed pixels mismatch at {} pixels",
            num_pixels
        );

        let simd_trans = analyze_transparency_simd(&prev);
        let scalar_trans = analyze_transparency_scalar(&prev);
        assert_eq!(
            simd_trans.transparent_count, scalar_trans.transparent_count,
            "Transparency mismatch at {} pixels",
            num_pixels
        );

        let simd_dist = analyze_color_distance_simd(&prev, &curr);
        let scalar_dist = analyze_color_distance_scalar(&prev, &curr);
        assert_eq!(
            simd_dist.sum_sq_distance, scalar_dist.sum_sq_distance,
            "Color distance mismatch at {} pixels",
            num_pixels
        );
    }
}

#[test]
fn benchmark_changed_pixels_large_canvas() {
    // Simulate a 1920x1080 canvas (8.3M pixels)
    let size = 1920 * 1080 * 4;
    let prev: Vec<u8> = (0..size).map(|i| ((i * 7) % 256) as u8).collect();
    let curr: Vec<u8> = (0..size).map(|i| ((i * 7 + 3) % 256) as u8).collect();

    // SIMD version
    let start = std::time::Instant::now();
    let simd_stats = analyze_changed_pixels_simd(&prev, &curr, 5);
    let simd_elapsed = start.elapsed();

    // Scalar version
    let start = std::time::Instant::now();
    let scalar_stats = analyze_changed_pixels_scalar(&prev, &curr, 5);
    let scalar_elapsed = start.elapsed();

    // Verify correctness
    assert_eq!(simd_stats.changed_count, scalar_stats.changed_count);
    assert_eq!(
        simd_stats.became_transparent,
        scalar_stats.became_transparent
    );
    assert_eq!(simd_stats.became_opaque, scalar_stats.became_opaque);

    // Report timing (not a hard assertion, just informational)
    println!(
        "Changed pixels (1920x1080): SIMD={:?}, Scalar={:?}, Speedup={:.2}x",
        simd_elapsed,
        scalar_elapsed,
        scalar_elapsed.as_secs_f64() / simd_elapsed.as_secs_f64()
    );
}

#[test]
fn benchmark_transparency_large_canvas() {
    // Simulate a 1920x1080 canvas
    let size = 1920 * 1080 * 4;
    let pixels: Vec<u8> = (0..size).map(|i| (i % 256) as u8).collect();

    // SIMD version
    let start = std::time::Instant::now();
    let simd_stats = analyze_transparency_simd(&pixels);
    let simd_elapsed = start.elapsed();

    // Scalar version
    let start = std::time::Instant::now();
    let scalar_stats = analyze_transparency_scalar(&pixels);
    let scalar_elapsed = start.elapsed();

    // Verify correctness
    assert_eq!(simd_stats.transparent_count, scalar_stats.transparent_count);
    assert_eq!(simd_stats.opaque_count, scalar_stats.opaque_count);
    assert_eq!(
        simd_stats.semi_transparent_count,
        scalar_stats.semi_transparent_count
    );

    println!(
        "Transparency (1920x1080): SIMD={:?}, Scalar={:?}, Speedup={:.2}x",
        simd_elapsed,
        scalar_elapsed,
        scalar_elapsed.as_secs_f64() / simd_elapsed.as_secs_f64()
    );
}

#[test]
fn benchmark_color_distance_large_canvas() {
    // Simulate a 1920x1080 canvas
    let size = 1920 * 1080 * 4;
    let prev: Vec<u8> = (0..size).map(|i| ((i * 7) % 256) as u8).collect();
    let curr: Vec<u8> = (0..size).map(|i| ((i * 7 + 3) % 256) as u8).collect();

    // SIMD version
    let start = std::time::Instant::now();
    let simd_stats = analyze_color_distance_simd(&prev, &curr);
    let simd_elapsed = start.elapsed();

    // Scalar version
    let start = std::time::Instant::now();
    let scalar_stats = analyze_color_distance_scalar(&prev, &curr);
    let scalar_elapsed = start.elapsed();

    // Verify correctness
    assert_eq!(simd_stats.sum_sq_distance, scalar_stats.sum_sq_distance);
    assert_eq!(simd_stats.max_distance, scalar_stats.max_distance);
    assert_eq!(simd_stats.pixel_count, scalar_stats.pixel_count);

    println!(
        "Color distance (1920x1080): SIMD={:?}, Scalar={:?}, Speedup={:.2}x",
        simd_elapsed,
        scalar_elapsed,
        scalar_elapsed.as_secs_f64() / simd_elapsed.as_secs_f64()
    );
}
