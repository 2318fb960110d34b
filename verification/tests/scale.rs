use frame_annotator::scale::ScaleFactor;

fn factor(numerator: u32, denominator: u32) -> ScaleFactor {
    ScaleFactor::new(numerator, denominator).expect("a fraction between 0 and 1")
}

#[test]
fn new_takes_fractions_strictly_between_zero_and_one() {
    assert!(ScaleFactor::new(1, 4).is_some());
    assert!(ScaleFactor::new(3, 10).is_some());
    assert!(ScaleFactor::new(1, 2).is_some());
    assert!(ScaleFactor::new(u32::MAX - 1, u32::MAX).is_some());
}

#[test]
fn new_refuses_zero_one_and_more() {
    assert!(ScaleFactor::new(0, 4).is_none());
    assert!(ScaleFactor::new(4, 4).is_none());
    assert!(ScaleFactor::new(5, 4).is_none());
    assert!(ScaleFactor::new(0, 0).is_none());
    assert!(ScaleFactor::new(1, 0).is_none());
}

#[test]
fn new_keeps_the_fraction_as_given() {
    let scale = factor(2, 8);
    assert_eq!(scale.numerator(), 2);
    assert_eq!(scale.denominator(), 8);
}

#[test]
fn quarter_is_one_over_four() {
    let scale = ScaleFactor::quarter();
    assert_eq!(scale.numerator(), 1);
    assert_eq!(scale.denominator(), 4);
    assert_eq!(scale, factor(1, 4));
    assert_eq!(scale.inverse_multiplier(), 4);
    assert!(scale.is_exact());
}

#[test]
fn inverse_multiplier_is_the_rounded_reciprocal() {
    assert_eq!(factor(1, 2).inverse_multiplier(), 2);
    assert_eq!(factor(1, 3).inverse_multiplier(), 3);
    assert_eq!(factor(3, 10).inverse_multiplier(), 3);
    assert_eq!(factor(3, 8).inverse_multiplier(), 3);
    assert_eq!(factor(9, 10).inverse_multiplier(), 1);
    assert_eq!(factor(1, u32::MAX).inverse_multiplier(), u32::MAX);
    assert_eq!(factor(u32::MAX - 1, u32::MAX).inverse_multiplier(), 1);
}

#[test]
fn inverse_multiplier_rounds_a_half_up() {
    // 5/2 lies halfway between 2 and 3
    assert_eq!(factor(2, 5).inverse_multiplier(), 3);
    // 3/2 lies halfway between 1 and 2
    assert_eq!(factor(2, 3).inverse_multiplier(), 2);
}

#[test]
fn exact_factors_are_reciprocals_of_whole_numbers() {
    assert!(factor(1, 2).is_exact());
    assert!(factor(1, 3).is_exact());
    assert!(factor(2, 8).is_exact());
    assert!(factor(1, u32::MAX).is_exact());
    assert!(!factor(3, 10).is_exact());
    assert!(!factor(2, 5).is_exact());
    assert!(!factor(9, 10).is_exact());
}

#[test]
fn scale_length_rounds_to_the_nearest_pixel() {
    let scale = ScaleFactor::quarter();
    assert_eq!(scale.scale_length(0), 0);
    assert_eq!(scale.scale_length(1), 0);
    assert_eq!(scale.scale_length(640), 160);
    assert_eq!(scale.scale_length(480), 120);
    assert_eq!(scale.scale_length(641), 160);
    assert_eq!(scale.scale_length(643), 161);
    assert_eq!(factor(3, 10).scale_length(100), 30);
    assert_eq!(factor(3, 10).scale_length(101), 30);
    assert_eq!(factor(3, 10).scale_length(102), 31);
}

#[test]
fn scale_length_rounds_a_half_away_from_zero() {
    let scale = ScaleFactor::quarter();
    assert_eq!(scale.scale_length(2), 1);
    assert_eq!(scale.scale_length(642), 161);
    assert_eq!(scale.scale_length(-2), -1);
    assert_eq!(scale.scale_length(-642), -161);
    assert_eq!(factor(1, 2).scale_length(5), 3);
    assert_eq!(factor(1, 2).scale_length(-5), -3);
}

#[test]
fn scale_length_mirrors_negative_lengths() {
    let scale = factor(3, 10);
    for length in [1, 2, 5, 17, 100, 12_345, i32::MAX] {
        assert_eq!(scale.scale_length(-length), -scale.scale_length(length));
    }
}

#[test]
fn scale_length_holds_at_the_ends_of_the_range() {
    let quarter = ScaleFactor::quarter();
    assert_eq!(quarter.scale_length(i32::MAX), 536_870_912);
    assert_eq!(quarter.scale_length(i32::MIN), -536_870_912);
    let almost_one = factor(u32::MAX - 1, u32::MAX);
    assert_eq!(almost_one.scale_length(i32::MAX), i32::MAX);
    assert_eq!(almost_one.scale_length(i32::MIN), -i32::MAX);
    let almost_zero = factor(1, u32::MAX);
    assert_eq!(almost_zero.scale_length(i32::MAX), 0);
    assert_eq!(almost_zero.scale_length(i32::MIN), -1);
}

#[test]
fn scale_length_never_lengthens() {
    for (numerator, denominator) in [(1, 4), (3, 10), (2, 5), (9, 10), (1, 1000)] {
        let scale = factor(numerator, denominator);
        for length in [0, 1, 2, 3, 7, 30, 640, 1_000_003] {
            let scaled = scale.scale_length(length);
            assert!(0 <= scaled && scaled <= length);
        }
    }
}

#[test]
fn equal_fractions_written_differently_scale_alike() {
    let a = factor(1, 4);
    let b = factor(25, 100);
    for length in [-643, -2, 0, 1, 2, 3, 640, 641, 642, 643] {
        assert_eq!(a.scale_length(length), b.scale_length(length));
    }
    assert_eq!(a.inverse_multiplier(), b.inverse_multiplier());
}
