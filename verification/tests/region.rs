use frame_annotator::region::Region;
use frame_annotator::scale::ScaleFactor;

fn region(x: i32, y: i32, width: i32, height: i32) -> Region {
    Region { x, y, width, height }
}

#[test]
fn to_original_space_multiplies_every_field() {
    let mapped = region(10, 20, 30, 40).to_original_space(4);
    assert_eq!(mapped, region(40, 80, 120, 160));
}

#[test]
fn to_original_space_keeps_a_negative_origin_negative() {
    let mapped = region(-3, -7, 30, 30).to_original_space(4);
    assert_eq!(mapped, region(-12, -28, 120, 120));
}

#[test]
fn to_original_space_by_one_changes_nothing() {
    let given = region(-5, 9, 31, 47);
    assert_eq!(given.to_original_space(1), given);
}

#[test]
fn zero_region_maps_to_zero_region() {
    let zero = region(0, 0, 0, 0);
    for multiplier in [0, 1, 2, 4, 1000, u32::MAX] {
        assert_eq!(zero.to_original_space(multiplier), zero);
        assert_eq!(zero.checked_to_original_space(multiplier), Some(zero));
    }
}

#[test]
fn checked_to_original_space_agrees_where_the_result_fits() {
    let given = region(10, 20, 30, 40);
    assert_eq!(given.checked_to_original_space(4), Some(region(40, 80, 120, 160)));
    assert_eq!(given.checked_to_original_space(0), Some(region(0, 0, 0, 0)));
}

#[test]
fn checked_to_original_space_reaches_the_ends_of_the_range() {
    let low = region(i32::MIN, 0, 0, 0);
    assert_eq!(low.checked_to_original_space(1), Some(low));
    let half = region(-(1 << 30), 1 << 29, (1 << 30) - 1, 1);
    assert_eq!(
        half.checked_to_original_space(2),
        Some(region(i32::MIN, 1 << 30, i32::MAX - 1, 2))
    );
}

#[test]
fn checked_to_original_space_refuses_what_does_not_fit() {
    assert_eq!(region(1 << 30, 0, 0, 0).checked_to_original_space(2), None);
    assert_eq!(region(0, 1 << 29, 0, 0).checked_to_original_space(4), None);
    assert_eq!(region(0, 0, i32::MAX, 0).checked_to_original_space(2), None);
    assert_eq!(region(0, 0, 0, 1).checked_to_original_space(u32::MAX), None);
    assert_eq!(region(-(1 << 30) - 1, 0, 0, 0).checked_to_original_space(2), None);
    assert_eq!(region(i32::MIN, 0, 0, 0).checked_to_original_space(u32::MAX), None);
}

#[test]
fn to_preprocessed_space_scales_every_field() {
    let scale = ScaleFactor::quarter();
    assert_eq!(region(40, 80, 120, 160).to_preprocessed_space(&scale), region(10, 20, 30, 40));
    assert_eq!(region(41, 82, 123, 159).to_preprocessed_space(&scale), region(10, 21, 31, 40));
    assert_eq!(region(-41, -82, 3, 1).to_preprocessed_space(&scale), region(-10, -21, 1, 0));
    assert_eq!(region(0, 0, 0, 0).to_preprocessed_space(&scale), region(0, 0, 0, 0));
}

#[test]
fn regions_on_the_grid_come_back_unchanged() {
    let scale = ScaleFactor::quarter();
    let multiplier = scale.inverse_multiplier();
    for given in [region(0, 0, 0, 0), region(40, 80, 120, 160), region(-400, 4, 8, 1200)] {
        let back = given.to_preprocessed_space(&scale).to_original_space(multiplier);
        assert_eq!(back, given);
    }
}

#[test]
fn regions_near_the_grid_come_back_within_one_pixel() {
    let scale = ScaleFactor::quarter();
    let multiplier = scale.inverse_multiplier();
    let given = region(41, 79, 121, 200);
    let back = given.to_preprocessed_space(&scale).to_original_space(multiplier);
    assert_eq!(back, region(40, 80, 120, 200));
    for (a, b) in [
        (back.x, given.x),
        (back.y, given.y),
        (back.width, given.width),
        (back.height, given.height),
    ] {
        assert!((a - b).abs() <= 1);
    }
    let negative = region(-41, -79, 1, 3);
    let back = negative.to_preprocessed_space(&scale).to_original_space(multiplier);
    assert_eq!(back, region(-40, -80, 0, 4));
}

#[test]
fn round_trip_by_a_half_or_a_third_stays_within_one_pixel() {
    for denominator in [2u32, 3] {
        let scale = ScaleFactor::new(1, denominator).unwrap();
        let multiplier = scale.inverse_multiplier();
        for v in -50..=50 {
            let given = region(v, -v, v.abs(), v.abs() + 1);
            let back = given.to_preprocessed_space(&scale).to_original_space(multiplier);
            assert!((back.x - given.x).abs() <= 1);
            assert!((back.y - given.y).abs() <= 1);
            assert!((back.width - given.width).abs() <= 1);
            assert!((back.height - given.height).abs() <= 1);
        }
    }
}

#[test]
fn round_trip_lands_on_the_nearest_multiple_of_the_multiplier() {
    let scale = ScaleFactor::quarter();
    let multiplier = scale.inverse_multiplier();
    let given = region(2, 6, 10, 5);
    let back = given.to_preprocessed_space(&scale).to_original_space(multiplier);
    // 2 -> 1 -> 4, 6 -> 2 -> 8, 10 -> 3 -> 12, 5 -> 1 -> 4
    assert_eq!(back, region(4, 8, 12, 4));
    for v in 0..1000 {
        let given = region(v, 0, 0, 0);
        let back = given.to_preprocessed_space(&scale).to_original_space(multiplier);
        assert_eq!(back.x % 4, 0);
        assert!((back.x - v).abs() <= 2);
        assert_eq!(
            back.to_preprocessed_space(&scale),
            given.to_preprocessed_space(&scale)
        );
    }
}

#[test]
fn round_trip_by_an_inexact_factor_drifts() {
    let scale = ScaleFactor::new(3, 10).unwrap();
    let multiplier = scale.inverse_multiplier();
    assert_eq!(multiplier, 3);
    let given = region(100, 1000, 10, 1);
    let back = given.to_preprocessed_space(&scale).to_original_space(multiplier);
    assert_eq!(back, region(90, 900, 9, 0));
}

#[test]
fn overlaps_sees_shared_pixels() {
    let a = region(0, 0, 10, 10);
    assert!(a.overlaps(&region(5, 5, 10, 10)));
    assert!(a.overlaps(&region(9, 9, 1, 1)));
    assert!(a.overlaps(&region(-5, -5, 6, 6)));
    assert!(a.overlaps(&a));
    assert!(region(2, 2, 3, 3).overlaps(&a));
}

#[test]
fn overlaps_is_false_for_regions_that_only_touch() {
    let a = region(0, 0, 10, 10);
    assert!(!a.overlaps(&region(10, 0, 10, 10)));
    assert!(!a.overlaps(&region(0, 10, 10, 10)));
    assert!(!a.overlaps(&region(-10, 0, 10, 10)));
    assert!(!a.overlaps(&region(20, 20, 5, 5)));
}

#[test]
fn overlaps_is_false_for_an_empty_region() {
    let a = region(0, 0, 10, 10);
    assert!(!a.overlaps(&region(5, 5, 0, 10)));
    assert!(!a.overlaps(&region(5, 5, 10, 0)));
    assert!(!region(5, 5, 0, 0).overlaps(&a));
}

#[test]
fn overlaps_holds_at_the_ends_of_the_range() {
    let far = region(i32::MAX, i32::MAX, i32::MAX, i32::MAX);
    let wide = region(i32::MIN, i32::MIN, i32::MAX, i32::MAX);
    assert!(!far.overlaps(&wide));
    assert!(far.overlaps(&far));
    assert!(region(i32::MAX - 1, 0, i32::MAX, 1).overlaps(&region(i32::MAX, 0, 1, 1)));
}

#[test]
fn new_takes_any_origin_and_no_negative_extent() {
    assert_eq!(Region::new(1, 2, 3, 4), Some(region(1, 2, 3, 4)));
    assert_eq!(Region::new(i32::MIN, i32::MAX, 0, 0), Some(region(i32::MIN, i32::MAX, 0, 0)));
    assert_eq!(Region::new(-5, -6, i32::MAX, i32::MAX), Some(region(-5, -6, i32::MAX, i32::MAX)));
    assert_eq!(Region::new(0, 0, -1, 4), None);
    assert_eq!(Region::new(0, 0, 4, -1), None);
    assert_eq!(Region::new(0, 0, i32::MIN, i32::MIN), None);
}

#[test]
fn small_coordinates_survive_an_inexact_factor() {
    // 3/10 is undone by 3 only roughly, yet 1 comes back as 0 and 3 as 3
    let scale = ScaleFactor::new(3, 10).unwrap();
    let multiplier = scale.inverse_multiplier();
    let given = region(1, 3, 4, 2);
    let back = given.to_preprocessed_space(&scale).to_original_space(multiplier);
    assert_eq!(back, region(0, 3, 3, 3));
}

#[test]
fn round_trip_that_leaves_the_range_is_refused() {
    let scale = ScaleFactor::quarter();
    let given = region(i32::MAX, 0, 0, 0);
    let small = given.to_preprocessed_space(&scale);
    assert_eq!(small, region(536_870_912, 0, 0, 0));
    assert_eq!(small.checked_to_original_space(scale.inverse_multiplier()), None);
}
