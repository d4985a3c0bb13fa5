use rusticle::adaptive_ir::CanonicalSequenceBuilder;
use rusticle::classifier::{decide_path, OptimizerPath, PathCriteria};
use rusticle::lut_policy::{classify_lut_eligibility, eligibility_keeps_lut, LutEligibility};
use rusticle::palette_strategy::{
    choose_palette_strategies, PaletteStrategy, PressureChecks, StrategyReason,
};
use rusticle::profiler::{
    classify_taxonomy, count_patch_frames, SequenceTaxonomy, TaxonomyChecks, TaxonomyCounts,
};
use rusticle::quality::count_color_outliers;
use rusticle::types::{DisposalMethod, Frame, Gif, LoopCount};
use std::time::Duration;

fn no_pressure() -> PressureChecks {
    PressureChecks {
        stability_above_70: false,
        stability_above_60: false,
        stability_above_50: false,
        transparency_above_60: false,
        transparency_above_50: false,
        color_above_70: false,
        color_above_60: false,
    }
}

fn stable() -> PressureChecks {
    PressureChecks {
        stability_above_70: true,
        stability_above_60: true,
        stability_above_50: true,
        ..no_pressure()
    }
}

#[test]
fn opaque_delta_with_stable_global_palette_reuses_it() {
    let (set, reasons) =
        choose_palette_strategies(SequenceTaxonomy::OpaqueDeltaGlobalPalette, true, stable());
    assert_eq!(set.preferred, vec![PaletteStrategy::ReuseGlobalPreferred]);
    assert_eq!(
        set.allowed,
        vec![PaletteStrategy::LocalPaletteFallback, PaletteStrategy::ReuseGlobalPreferred]
    );
    assert_eq!(reasons, vec![StrategyReason::SourceGlobalStable]);
    assert_eq!(set.primary(), Some(PaletteStrategy::ReuseGlobalPreferred));
    assert!(set.is_allowed(PaletteStrategy::LocalPaletteFallback));
    assert!(!set.is_allowed(PaletteStrategy::DeriveSequenceGlobalPreferred));
}

#[test]
fn opaque_delta_without_global_palette_derives_one() {
    let (set, reasons) =
        choose_palette_strategies(SequenceTaxonomy::OpaqueDeltaGlobalPalette, false, stable());
    assert_eq!(set.preferred, vec![PaletteStrategy::DeriveSequenceGlobalPreferred]);
    assert_eq!(reasons, vec![StrategyReason::SourceNoGlobal]);
}

#[test]
fn transparency_pressure_prefers_local_palettes() {
    let checks = PressureChecks { transparency_above_60: true, ..stable() };
    let (set, reasons) =
        choose_palette_strategies(SequenceTaxonomy::TransparencyHeavySparseDelta, true, checks);
    assert_eq!(set.preferred, vec![PaletteStrategy::LocalPaletteFallback]);
    assert_eq!(set.allowed, vec![PaletteStrategy::LocalPaletteFallback]);
    assert_eq!(reasons, vec![StrategyReason::TransparencyPressure]);
}

#[test]
fn disposal_heavy_records_its_reason_after_the_choice() {
    let (set, reasons) = choose_palette_strategies(
        SequenceTaxonomy::DisposalHeavyBackgroundPrevious,
        false,
        no_pressure(),
    );
    assert_eq!(set.preferred, vec![PaletteStrategy::DeriveSequenceGlobalPreferred]);
    assert_eq!(
        reasons,
        vec![StrategyReason::SourceGlobalUnstable, StrategyReason::DisposalHeavy]
    );
}

#[test]
fn photographic_and_mixed_rules() {
    let checks = PressureChecks { color_above_70: true, ..no_pressure() };
    let (set, reasons) = choose_palette_strategies(SequenceTaxonomy::Photographic, true, checks);
    assert_eq!(set.preferred, vec![PaletteStrategy::LocalPaletteFallback]);
    assert_eq!(reasons, vec![StrategyReason::ColorPressure]);

    let (set, reasons) = choose_palette_strategies(SequenceTaxonomy::Mixed, true, stable());
    assert_eq!(set.preferred, vec![PaletteStrategy::ReuseGlobalPreferred]);
    assert_eq!(reasons, vec![StrategyReason::MixedStructure]);

    let checks = PressureChecks { color_above_60: true, ..stable() };
    let (set, _) = choose_palette_strategies(SequenceTaxonomy::Mixed, true, checks);
    assert_eq!(set.preferred, vec![PaletteStrategy::LocalPaletteFallback]);
}

#[test]
fn every_choice_allows_its_preferred_strategy() {
    let taxonomies = [
        SequenceTaxonomy::OpaqueDeltaGlobalPalette,
        SequenceTaxonomy::TransparencyHeavySparseDelta,
        SequenceTaxonomy::DisposalHeavyBackgroundPrevious,
        SequenceTaxonomy::Photographic,
        SequenceTaxonomy::Mixed,
    ];
    for t in taxonomies {
        for g in [false, true] {
            for checks in [no_pressure(), stable()] {
                let (set, _) = choose_palette_strategies(t, g, checks);
                assert!(!set.preferred.is_empty());
                for p in &set.preferred {
                    assert!(set.allowed.contains(p));
                }
            }
        }
    }
}

#[test]
fn path_a_needs_every_criterion() {
    let all = PathCriteria {
        has_transparent_gce: false,
        keep_none_at_least_90: true,
        has_global_palette: false,
        stability_at_least_80: true,
        changed_area_at_most_60: true,
    };
    assert_eq!(decide_path(all), OptimizerPath::PathA);
    assert_eq!(
        decide_path(PathCriteria { has_transparent_gce: true, ..all }),
        OptimizerPath::PathB
    );
    assert_eq!(
        decide_path(PathCriteria { changed_area_at_most_60: false, ..all }),
        OptimizerPath::PathB
    );
    // A global palette stands in for palette stability.
    assert_eq!(
        decide_path(PathCriteria { stability_at_least_80: false, ..all }),
        OptimizerPath::PathB
    );
    assert_eq!(
        decide_path(PathCriteria { stability_at_least_80: false, has_global_palette: true, ..all }),
        OptimizerPath::PathA
    );
}

#[test]
fn lut_eligibility_by_taxonomy() {
    assert_eq!(
        classify_lut_eligibility(SequenceTaxonomy::OpaqueDeltaGlobalPalette, true, true),
        LutEligibility::Preserving
    );
    assert_eq!(
        classify_lut_eligibility(SequenceTaxonomy::OpaqueDeltaGlobalPalette, false, true),
        LutEligibility::Mixed
    );
    assert_eq!(
        classify_lut_eligibility(SequenceTaxonomy::DisposalHeavyBackgroundPrevious, false, false),
        LutEligibility::Breaking
    );
    assert_eq!(
        classify_lut_eligibility(SequenceTaxonomy::TransparencyHeavySparseDelta, true, true),
        LutEligibility::Breaking
    );
    assert!(eligibility_keeps_lut(LutEligibility::Mixed));
    assert!(!eligibility_keeps_lut(LutEligibility::Unknown));
}

fn no_checks() -> TaxonomyChecks {
    TaxonomyChecks {
        opaque_at_least_half: false,
        transparency_below_third: false,
        stability_above_70: false,
        bbox_ratio_below_30: false,
        changed_above_50: false,
        density_above_80: false,
        stability_below_50: false,
    }
}

fn counts(frame_count: usize) -> TaxonomyCounts {
    TaxonomyCounts {
        frame_count,
        background_count: 0,
        previous_count: 0,
        significant_transparency_frames: 0,
        sparse_change_frames: 0,
        dense_change_frames: 0,
    }
}

#[test]
fn taxonomy_rules_in_order() {
    let opaque = TaxonomyChecks {
        opaque_at_least_half: true,
        transparency_below_third: true,
        stability_above_70: true,
        ..no_checks()
    };
    assert_eq!(
        classify_taxonomy(TaxonomyCounts { background_count: 1, ..counts(4) }, opaque),
        SequenceTaxonomy::DisposalHeavyBackgroundPrevious
    );
    assert_eq!(classify_taxonomy(counts(4), opaque), SequenceTaxonomy::OpaqueDeltaGlobalPalette);
    let sparse = TaxonomyCounts {
        significant_transparency_frames: 2,
        sparse_change_frames: 2,
        ..counts(4)
    };
    assert_eq!(
        classify_taxonomy(sparse, TaxonomyChecks { bbox_ratio_below_30: true, ..no_checks() }),
        SequenceTaxonomy::TransparencyHeavySparseDelta
    );
    let dense = TaxonomyCounts { dense_change_frames: 3, ..counts(4) };
    let photo = TaxonomyChecks {
        changed_above_50: true,
        density_above_80: true,
        stability_below_50: true,
        ..no_checks()
    };
    assert_eq!(classify_taxonomy(dense, photo), SequenceTaxonomy::Photographic);
    assert_eq!(classify_taxonomy(counts(4), no_checks()), SequenceTaxonomy::Mixed);
}

#[test]
fn patch_frame_counts() {
    let opaque = Frame {
        pixels: vec![9, 9, 9, 255, 9, 9, 9, 255, 9, 9, 9, 255, 9, 9, 9, 255],
        delay: Duration::from_millis(50),
        dispose: DisposalMethod::Keep,
        local_palette: None,
        left: 0,
        top: 0,
        width: 2,
        height: 2,
    };
    let with_hole = Frame {
        pixels: vec![1, 2, 3, 255, 0, 0, 0, 0, 1, 2, 3, 255, 1, 2, 3, 255],
        ..opaque.clone()
    };
    let gif = Gif {
        width: 2,
        height: 2,
        global_palette: None,
        frames: vec![opaque.clone(), with_hole, opaque],
        loop_count: LoopCount::Infinite,
        original_palette: None,
    };
    let seq = CanonicalSequenceBuilder::build(&gif).unwrap();
    assert_eq!(count_patch_frames(&seq), (1, 0));
}

#[test]
fn color_outliers_count_strictly_beyond_the_limit() {
    // Squared distances: 0, 2500 (exactly 50), 2501, 3 * 255^2.
    let original = vec![
        10, 10, 10, 255, 0, 0, 0, 255, 0, 0, 0, 255, 0, 0, 0, 0, 7,
    ];
    let processed = vec![
        10, 10, 10, 0, 50, 0, 0, 255, 50, 1, 0, 255, 255, 255, 255, 0, 9,
    ];
    assert_eq!(count_color_outliers(&original, &processed, 2500), 2);
    assert_eq!(count_color_outliers(&original, &processed, 2499), 3);
    assert_eq!(count_color_outliers(&original, &processed, 0), 3);
}

#[test]
fn test_opaque_delta_lut_preserving() {
    // The opaque-delta profile: stable global palette (stability 0.95).
    let palette_stability: f32 = 0.95;
    let eligibility = classify_lut_eligibility(
        SequenceTaxonomy::OpaqueDeltaGlobalPalette,
        palette_stability > 0.7,
        palette_stability > 0.6,
    );
    assert_eq!(eligibility, LutEligibility::Preserving);
}

#[test]
fn test_transparency_heavy_lut_breaking() {
    // The transparency-heavy profile: palette stability 0.5.
    let palette_stability: f32 = 0.5;
    let eligibility = classify_lut_eligibility(
        SequenceTaxonomy::TransparencyHeavySparseDelta,
        palette_stability > 0.7,
        palette_stability > 0.6,
    );
    assert_eq!(eligibility, LutEligibility::Breaking);
}
