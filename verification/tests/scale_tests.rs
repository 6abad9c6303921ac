use screenshot_ocr::scale::{resolve_scale_factor, round_scaled, ScaleFactor};

#[test]
fn valid_reported_scale_is_kept() {
    let reported = Some(ScaleFactor { num: 5, den: 4 });
    let s = resolve_scale_factor(reported, 2400, 1350, 1920, 1080);
    assert_eq!(s.num, 5);
    assert_eq!(s.den, 4);
}

#[test]
fn invalid_reported_scale_falls_back_to_derivation() {
    // A zero numerator is a zero scale: derive from the extents instead.
    let reported = Some(ScaleFactor { num: 0, den: 1 });
    let s = resolve_scale_factor(reported, 3840, 2160, 1920, 1080);
    // mean of 3840/1920 and 2160/1080 = 2 exactly, as one fraction
    assert_eq!(s.num as u128 * 1, 3840u128 * 1080 + 2160 * 1920);
    assert_eq!(s.den as u128, 2u128 * 1920 * 1080);
    assert!(s.num > 0 && s.den > 0);
    // the ratio is exactly 2
    assert_eq!(s.num, 2 * s.den);
}

#[test]
fn zero_logical_extent_substitutes_exactly_one() {
    // Derivation would divide by zero: the resolved scale is exactly one.
    let s = resolve_scale_factor(None, 1920, 1080, 0, 1080);
    assert_eq!(s.num, 1);
    assert_eq!(s.den, 1);
}

#[test]
fn zero_captured_extent_substitutes_exactly_one() {
    // Derivation would yield zero: the resolved scale is exactly one.
    let s = resolve_scale_factor(None, 0, 0, 1920, 1080);
    assert_eq!(s.num, 1);
    assert_eq!(s.den, 1);
}

#[test]
fn resolved_scale_is_always_positive() {
    let cases = [
        (None, 0u32, 0u32, 0u32, 0u32),
        (Some(ScaleFactor { num: 0, den: 0 }), 10, 10, 10, 10),
        (None, 1920, 1080, 1920, 1080),
        (Some(ScaleFactor { num: 3, den: 2 }), 1, 1, 1, 1),
    ];
    for (reported, cw, ch, lw, lh) in cases {
        let s = resolve_scale_factor(reported, cw, ch, lw, lh);
        assert!(s.num > 0);
        assert!(s.den > 0);
    }
}

#[test]
fn rounding_is_half_away_from_zero() {
    let half = ScaleFactor { num: 1, den: 2 };
    assert_eq!(round_scaled(3, &half), 2); // 1.5 rounds up
    assert_eq!(round_scaled(-3, &half), -2); // -1.5 rounds away from zero
    assert_eq!(round_scaled(5, &half), 3); // 2.5 rounds up
    assert_eq!(round_scaled(4, &half), 2);
}

#[test]
fn scaled_placement_examples() {
    let s = ScaleFactor { num: 5, den: 4 };
    assert_eq!(round_scaled(1920, &s), 2400);
    assert_eq!(round_scaled(0, &s), 0);
    assert_eq!(round_scaled(-1920, &s), -2400);
    let one = ScaleFactor { num: 1, den: 1 };
    assert_eq!(round_scaled(1920, &one), 1920);
}

#[test]
fn scaled_placement_saturates_at_the_i32_range() {
    let big = ScaleFactor { num: u64::MAX, den: 1 };
    assert_eq!(round_scaled(2, &big), i32::MAX);
    assert_eq!(round_scaled(-2, &big), i32::MIN);
}
