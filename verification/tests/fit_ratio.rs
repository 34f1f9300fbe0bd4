use docfit::fit::compute_fit;

#[test]
fn ratio_fixture_landscape() {
    // Page 745x800 document units in a 945x900 panel: the panel aspect
    // (1.05) exceeds the page aspect (0.93...), so the page is fitted by
    // height and the ratio is exactly 900/800 = 1.125.
    let r = compute_fit(745, 800, 945, 900);
    assert_eq!(r.num, 900);
    assert_eq!(r.den, 800);
    assert_eq!(r.num as f64 / r.den as f64, 1.125);
}

#[test]
fn ratio_portrait_fit_by_width() {
    // A narrow panel: the page is fitted by width, ratio 400/745.
    let r = compute_fit(745, 800, 400, 900);
    assert_eq!(r.num, 400);
    assert_eq!(r.den, 745);
}

#[test]
fn contain_never_crops() {
    let cases: [(u32, u32, u32, u32); 5] = [
        (745, 800, 945, 900),
        (745, 800, 400, 900),
        (100, 100, 200, 200),
        (640, 480, 1920, 1080),
        (1000, 10, 10, 1000),
    ];
    for (pw, ph, vw, vh) in cases {
        let r = compute_fit(pw, ph, vw, vh);
        let (pw, ph, vw, vh) = (pw as u64, ph as u64, vw as u64, vh as u64);
        let (n, d) = (r.num as u64, r.den as u64);
        // Contain: the scaled page exceeds the panel on neither axis.
        assert!(pw * n <= vw * d);
        assert!(ph * n <= vh * d);
        // The fitted axis is filled exactly.
        assert!(pw * n == vw * d || ph * n == vh * d);
    }
}

#[test]
fn square_aspect_fills_both_axes() {
    let r = compute_fit(100, 100, 200, 200);
    assert_eq!(r.num, 200);
    assert_eq!(r.den, 100);
    // Equal aspect ratios: both axes are filled exactly.
    assert_eq!(100 * r.num as u64, 200 * r.den as u64);
}

#[test]
fn ratio_scales_with_viewport() {
    // Doubling the panel doubles the ratio, exactly.
    let r1 = compute_fit(745, 800, 945, 900);
    let r2 = compute_fit(745, 800, 1890, 1800);
    assert_eq!(
        r2.num as u64 * r1.den as u64,
        2 * r1.num as u64 * r2.den as u64
    );
}
