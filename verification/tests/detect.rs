use frame_annotator::detect::{DetectionConfig, DetectionOutcome, Extent};
use frame_annotator::mapper::to_original_regions;
use frame_annotator::region::Region;

fn region(x: i32, y: i32, width: i32, height: i32) -> Region {
    Region { x, y, width, height }
}

#[test]
fn standard_config_holds_the_fixed_parameters() {
    let config = DetectionConfig::standard();
    assert_eq!(config.scale_step_numerator, 11);
    assert_eq!(config.scale_step_denominator, 10);
    assert_eq!(config.min_neighbors, 2);
    assert_eq!(config.min_size, Extent { width: 30, height: 30 });
    assert_eq!(config.max_size, None);
    assert_eq!(config, DetectionConfig::standard());
}

#[test]
fn found_regions_are_kept_in_order() {
    let found = vec![region(1, 2, 30, 30), region(50, 60, 40, 40), region(1, 2, 30, 30)];
    assert_eq!(DetectionOutcome::Found(found.clone()).into_regions(), found);
}

#[test]
fn nothing_found_is_no_fault() {
    assert_eq!(DetectionOutcome::Found(Vec::new()).into_regions(), Vec::<Region>::new());
}

#[test]
fn fault_yields_no_regions_whatever_was_written_down() {
    let partial = vec![region(1, 2, 30, 30), region(50, 60, 40, 40)];
    assert_eq!(DetectionOutcome::Fault { partial }.into_regions(), Vec::<Region>::new());
    assert_eq!(
        DetectionOutcome::Fault { partial: Vec::new() }.into_regions(),
        Vec::<Region>::new()
    );
}

#[test]
fn to_original_regions_maps_each_region_alike() {
    let detected = vec![region(10, 20, 30, 40), region(0, 0, 0, 0), region(-1, -2, 33, 31)];
    assert_eq!(
        to_original_regions(&detected, 4),
        vec![region(40, 80, 120, 160), region(0, 0, 0, 0), region(-4, -8, 132, 124)]
    );
}

#[test]
fn to_original_regions_of_nothing_is_nothing() {
    assert_eq!(to_original_regions(&Vec::new(), 4), Vec::<Region>::new());
}

#[test]
fn to_original_regions_leaves_out_what_does_not_fit() {
    let detected = vec![
        region(10, 20, 30, 40),
        region(1 << 30, 0, 30, 30),
        region(5, 5, 30, 30),
        region(0, 0, 30, i32::MAX),
        region(7, 7, 31, 31),
    ];
    assert_eq!(
        to_original_regions(&detected, 4),
        vec![region(40, 80, 120, 160), region(20, 20, 120, 120), region(28, 28, 124, 124)]
    );
}

#[test]
fn to_original_regions_would_fail_if_regions_came_back_unchanged() {
    let detected = vec![region(3, 5, 30, 30)];
    let mapped = to_original_regions(&detected, 4);
    assert_ne!(mapped, detected);
    assert_eq!(mapped, vec![region(12, 20, 120, 120)]);
}
