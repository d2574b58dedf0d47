use butteraugli::malta::{
    malta_diffmap, malta_unit, malta_unit_lf, pattern_tap, pattern_tap_count, window_index,
    MALTA_PATTERN_COUNT,
};

fn blank(xs: usize, ys: usize) -> Vec<i64> {
    vec![0; xs * ys]
}

#[test]
fn pattern_counts() {
    let expect: [usize; 16] = [9, 9, 7, 7, 9, 9, 9, 9, 7, 7, 7, 7, 8, 8, 8, 8];
    for p in 0..MALTA_PATTERN_COUNT {
        assert_eq!(pattern_tap_count(false, p), expect[p]);
        assert_eq!(pattern_tap_count(true, p), 5);
    }
}

#[test]
fn pattern_taps_spot_checks() {
    // Dense variant: horizontal line, vertical line, main diagonal centre,
    // and two of the broken-diagonal patterns.
    assert_eq!(pattern_tap(false, 0, 0), (-4, 0));
    assert_eq!(pattern_tap(false, 1, 8), (0, 4));
    assert_eq!(pattern_tap(false, 2, 3), (0, 0));
    assert_eq!(pattern_tap(false, 12, 0), (-4, 2));
    assert_eq!(pattern_tap(false, 15, 7), (-1, 3));
    // Low-frequency variant reads every second pixel along each line.
    assert_eq!(pattern_tap(true, 0, 0), (-4, 0));
    assert_eq!(pattern_tap(true, 0, 1), (-2, 0));
    assert_eq!(pattern_tap(true, 12, 4), (4, -2));
    assert_eq!(pattern_tap(true, 15, 0), (2, -4));
}

#[test]
fn every_pattern_reads_the_centre() {
    for &lf in &[false, true] {
        for p in 0..MALTA_PATTERN_COUNT {
            let mut has_centre = false;
            for t in 0..pattern_tap_count(lf, p) {
                if pattern_tap(lf, p, t) == (0, 0) {
                    has_centre = true;
                }
            }
            assert!(has_centre);
        }
    }
}

#[test]
fn window_index_row_major() {
    assert_eq!(window_index(9, 9, 4, 4, 2, -1), 3 * 9 + 6);
    assert_eq!(window_index(20, 10, 5, 5, -4, 4), 9 * 20 + 1);
    assert_eq!(window_index(20, 10, 5, 5, 0, 0), 5 * 20 + 5);
}

#[test]
fn malta_zero_window_scores_zero() {
    let d = blank(9, 9);
    assert_eq!(malta_unit(&d, 9, 9, 4, 4), 0);
    assert_eq!(malta_unit_lf(&d, 9, 9, 4, 4), 0);
}

#[test]
fn malta_centre_impulse_counts_every_pattern() {
    // Every one of the 16 patterns reads the centre, so a lone centre sample
    // of -7 contributes (-7)^2 to each: 16 * 49.
    let mut d = blank(9, 9);
    d[4 * 9 + 4] = -7;
    assert_eq!(malta_unit(&d, 9, 9, 4, 4), 784);
    assert_eq!(malta_unit_lf(&d, 9, 9, 4, 4), 784);
}

#[test]
fn malta_two_sample_window() {
    // 3 at the centre and 5 one pixel right: five dense patterns read both
    // samples (8^2 each), eleven read only the centre (3^2 each).
    let mut d = blank(11, 9);
    d[4 * 11 + 5] = 3;
    d[4 * 11 + 6] = 5;
    assert_eq!(malta_unit(&d, 11, 9, 5, 4), 419);
    assert_eq!(malta_unit_lf(&d, 11, 9, 5, 4), 144);
}

#[test]
fn malta_diffmap_zero_plane_stays_zero() {
    let d = blank(12, 10);
    let out = malta_diffmap(&d, 12, 10, false);
    assert_eq!(out.len(), 120);
    assert!(out.iter().all(|&v| v == 0));
}

#[test]
fn malta_diffmap_needs_an_interior() {
    // An 8x8 plane has no pixel four away from every edge.
    let d = vec![5i64; 8 * 8];
    let out = malta_diffmap(&d, 8, 8, false);
    assert!(out.iter().all(|&v| v == 0));
}

#[test]
fn malta_diffmap_matches_unit_and_localizes() {
    let xs: usize = 20;
    let ys: usize = 20;
    let mut d = blank(xs, ys);
    d[6 * xs + 6] = 9;
    let out = malta_diffmap(&d, xs, ys, false);
    assert_eq!(out[6 * xs + 6], 16 * 81);
    for y in 0..ys {
        for x in 0..xs {
            let v = out[y * xs + x];
            let inside = x >= 4 && x + 4 < xs && y >= 4 && y + 4 < ys;
            if !inside {
                assert_eq!(v, 0);
            } else {
                assert_eq!(v, malta_unit(&d, xs, ys, x, y));
                // A window that cannot reach the impulse scores zero.
                if (x as i64 - 6).abs() > 4 || (y as i64 - 6).abs() > 4 {
                    assert_eq!(v, 0);
                }
            }
        }
    }
    let out_lf = malta_diffmap(&d, xs, ys, true);
    assert_eq!(out_lf[6 * xs + 6], 16 * 81);
}

#[test]
fn malta_translation_invariant() {
    // The same window contents placed around two different centres (the
    // second shifted by (4, 1)) give identical responses.
    let xs: usize = 16;
    let ys: usize = 14;
    let mut a = blank(xs, ys);
    let mut b = blank(xs, ys);
    let vals: [(i32, i32, i64); 6] = [
        (0, 0, 9),
        (1, 0, -4),
        (-2, 3, 7),
        (4, -4, 11),
        (-4, -4, 5),
        (3, 2, -6),
    ];
    let (ax, ay) = (5i32, 6i32);
    let (bx, by) = (9i32, 7i32);
    for &(dx, dy, v) in &vals {
        a[(ay + dy) as usize * xs + (ax + dx) as usize] = v;
        b[(by + dy) as usize * xs + (bx + dx) as usize] = v;
    }
    let ra = malta_unit(&a, xs, ys, 5, 6);
    let rb = malta_unit(&b, xs, ys, 9, 7);
    assert_eq!(ra, rb);
    assert!(ra > 0);
    assert_eq!(malta_unit_lf(&a, xs, ys, 5, 6), malta_unit_lf(&b, xs, ys, 9, 7));
}
