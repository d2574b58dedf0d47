use butteraugli::heatmap::{heat_ramp_stop, HEAT_RAMP_BAD, HEAT_RAMP_GOOD, HEAT_RAMP_STOPS};
use butteraugli::image::ImageF;
use butteraugli::kernel::{border_tap_range, kernel_taps};

#[test]
fn bytes_per_row_aligns_to_64() {
    assert_eq!(ImageF::bytes_per_row(0), 64);
    assert_eq!(ImageF::bytes_per_row(8), 64);
    assert_eq!(ImageF::bytes_per_row(24), 64);
    assert_eq!(ImageF::bytes_per_row(25), 128);
    assert_eq!(ImageF::bytes_per_row(100), 192);
}

#[test]
fn bytes_per_row_avoids_multiples_of_2048() {
    // 2008 + 40 rounds to exactly 2048, so the stride is bumped by 64.
    assert_eq!(ImageF::bytes_per_row(2008), 2112);
    for w in 0..5000 {
        let r = ImageF::bytes_per_row(w);
        assert_eq!(r % 64, 0);
        assert_ne!(r % 2048, 0);
        assert!(r >= w + 40);
    }
}

#[test]
fn image_f_shape_fields() {
    let im = ImageF {
        xsize_: 21,
        ysize_: 13,
        bytes_per_row: ImageF::bytes_per_row(21),
    };
    assert_eq!(im.xsize_, 21);
    assert_eq!(im.ysize_, 13);
    assert_eq!(im.bytes_per_row, 64);
}

#[test]
fn kernel_taps_ladder() {
    let t = kernel_taps(4);
    assert_eq!(t, vec![-4, -3, -2, -1, 0, 1, 2, 3, 4]);
}

#[test]
fn kernel_taps_symmetric() {
    for diff in 1..40usize {
        let t = kernel_taps(diff);
        let n = t.len();
        assert_eq!(n, 2 * diff + 1);
        assert_eq!(n % 2, 1);
        assert_eq!(t[diff], 0);
        for i in 0..n {
            assert_eq!(t[i], -t[n - 1 - i]);
            assert_eq!(t[i] * t[i], t[n - 1 - i] * t[n - 1 - i]);
        }
    }
}

#[test]
fn border_tap_range_truncates_at_edges() {
    // Interior: the full kernel fits.
    assert_eq!(border_tap_range(10, 3, 100), (7, 13));
    // Left border: taps before the axis are dropped.
    assert_eq!(border_tap_range(1, 3, 100), (0, 4));
    assert_eq!(border_tap_range(0, 3, 100), (0, 3));
    // Right border: taps past the axis are dropped.
    assert_eq!(border_tap_range(98, 3, 100), (95, 99));
    assert_eq!(border_tap_range(99, 3, 100), (96, 99));
    // A kernel wider than the axis keeps the whole axis.
    assert_eq!(border_tap_range(2, 10, 5), (0, 4));
}

#[test]
fn heat_ramp_anchor_colors() {
    assert_eq!(heat_ramp_stop(0), (0, 0, 0));
    assert_eq!(heat_ramp_stop(HEAT_RAMP_GOOD), (0, 2, 0));
    assert_eq!(heat_ramp_stop(HEAT_RAMP_BAD), (2, 0, 0));
    assert_eq!(heat_ramp_stop(HEAT_RAMP_STOPS - 1), (2, 2, 2));
    assert_eq!(heat_ramp_stop(10), (2, 2, 2));
}
