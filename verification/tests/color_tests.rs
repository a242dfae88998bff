use cosmos::color::{blend_colors, jitter_channel, mean_color, spark_tint};
use cosmos::merge::{merge_seeds, MergeKind};

#[test]
fn blend_averages_each_channel() {
    assert_eq!(blend_colors((255, 0, 10), (254, 100, 11)), (254, 50, 10));
    assert_eq!(blend_colors((1, 2, 3), (4, 5, 6)), blend_colors((4, 5, 6), (1, 2, 3)));
}

#[test]
fn spark_tint_saturates() {
    assert_eq!(spark_tint((10, 200, 3), 80), (90, 255, 255));
    assert_eq!(spark_tint((255, 255, 0), 60), (255, 255, 255));
}

#[test]
fn jitter_is_clamped_to_a_channel() {
    assert_eq!(jitter_channel(100, -20), 80);
    assert_eq!(jitter_channel(10, -20), 0);
    assert_eq!(jitter_channel(250, 20), 255);
    assert_eq!(jitter_channel(0, 0), 0);
}

#[test]
fn mean_color_rounds_down() {
    assert_eq!(mean_color(&vec![(10, 20, 30)]), (10, 20, 30));
    assert_eq!(mean_color(&vec![(0, 1, 255), (1, 2, 255), (255, 0, 254)]), (85, 1, 254));
}

#[test]
fn star_merge_blends_colors() {
    let m = merge_seeds(false, (200, 100, 0), false, (100, 50, 21), false);
    assert_eq!(m.kind, MergeKind::StarMerge);
    assert!(!m.is_black_hole);
    assert_eq!(m.color, (150, 75, 10));
    assert_eq!(m.debris_color, (150, 75, 10));
    assert!(!m.restarts_birth);
    assert!(!m.emits_grav_wave);
}

#[test]
fn heavy_star_merge_collapses() {
    let m = merge_seeds(false, (200, 100, 0), false, (100, 50, 20), true);
    assert_eq!(m.kind, MergeKind::StellarCollapse);
    assert!(m.is_black_hole);
    assert_eq!(m.color, (130, 50, 240));
    assert!(m.restarts_birth);
    assert!(!m.emits_grav_wave);
}

#[test]
fn black_hole_swallows_star() {
    for (a, b) in [(true, false), (false, true)] {
        let m = merge_seeds(a, (0, 0, 0), b, (10, 10, 10), false);
        assert_eq!(m.kind, MergeKind::StarSwallowed);
        assert!(m.is_black_hole);
        assert_eq!(m.color, (130, 50, 240));
        assert_eq!(m.debris_color, (5, 5, 5));
        assert!(!m.emits_grav_wave);
    }
}

#[test]
fn two_black_holes_send_a_wave() {
    let m = merge_seeds(true, (130, 50, 240), true, (130, 50, 240), true);
    assert_eq!(m.kind, MergeKind::BlackHoleMerger);
    assert!(m.is_black_hole);
    assert!(m.emits_grav_wave);
    assert!(m.restarts_birth);
}

#[test]
fn mean_color_stays_within_each_channel_range() {
    let clump = vec![(10, 200, 0), (40, 100, 255), (25, 150, 128)];
    let (r, g, b) = mean_color(&clump);
    assert!((10..=40).contains(&r));
    assert!((100..=200).contains(&g));
    assert!(b <= 255);
    assert_eq!((r, g, b), (25, 150, 127));
}
