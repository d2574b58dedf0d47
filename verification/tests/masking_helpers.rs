use butteraugli::masking::{
    amplify_range_around_zero, lut_index_clamp, remove_range_around_zero,
};

#[test]
fn remove_range_outside_zone_shrinks_by_width() {
    assert_eq!(remove_range_around_zero(5, 12), 7);
    assert_eq!(remove_range_around_zero(5, -12), -7);
    assert_eq!(remove_range_around_zero(0, 4), 4);
    assert_eq!(remove_range_around_zero(0, -4), -4);
}

#[test]
fn remove_range_inside_zone_is_zero() {
    assert_eq!(remove_range_around_zero(5, 3), 0);
    assert_eq!(remove_range_around_zero(5, -3), 0);
    assert_eq!(remove_range_around_zero(5, 5), 0);
    assert_eq!(remove_range_around_zero(5, -5), 0);
    assert_eq!(remove_range_around_zero(5, 0), 0);
}

#[test]
fn amplify_range_doubles_inside_widens_outside() {
    assert_eq!(amplify_range_around_zero(5, 12), 17);
    assert_eq!(amplify_range_around_zero(5, -12), -17);
    assert_eq!(amplify_range_around_zero(5, 3), 6);
    assert_eq!(amplify_range_around_zero(5, -3), -6);
    assert_eq!(amplify_range_around_zero(5, 5), 10);
    assert_eq!(amplify_range_around_zero(5, 0), 0);
}

#[test]
fn lut_index_clamps_at_both_ends() {
    assert_eq!(lut_index_clamp(-3, 512), 0);
    assert_eq!(lut_index_clamp(0, 512), 0);
    assert_eq!(lut_index_clamp(17, 512), 17);
    assert_eq!(lut_index_clamp(510, 512), 510);
    assert_eq!(lut_index_clamp(511, 512), 511);
    assert_eq!(lut_index_clamp(512, 512), 511);
    assert_eq!(lut_index_clamp(100000, 512), 511);
    assert_eq!(lut_index_clamp(5, 1), 0);
}
