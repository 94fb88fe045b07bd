use gear_trading::fixed::SCALE;
use gear_trading::gear::Gear;

#[test]
fn lib_exploration() {
    assert_eq!(2 + 2, 4);
}

// Prices and gears are micro units: 1_000_000 is 1.0.
#[test]
fn symmetric() {
    let gear = Gear::symmetric(500_000, 1_500_000);
    assert_eq!(gear.g(250_000), 1_000_000);
    assert_eq!(gear.g(500_000), 1_000_000);
    assert_eq!(gear.g(750_000), 500_000);
    assert_eq!(gear.g(1_000_000), 0);
    assert_eq!(gear.g(1_250_000), -500_000);
    assert_eq!(gear.g(1_500_000), -1_000_000);
    assert_eq!(gear.g(2_000_000), -1_000_000);
}

#[test]
fn constant_minus() {
    let gear = Gear::constant(-1);
    assert_eq!(gear.g(250_000), -1_000_000);
    assert_eq!(gear.g(1_500_000), -1_000_000);
}

#[test]
fn constant_plus() {
    let gear = Gear::constant(1);
    assert_eq!(gear.g(250_000), 1_000_000);
    assert_eq!(gear.g(1_500_000), 1_000_000);
}

#[test]
fn positive_tapers_to_flat() {
    let gear = Gear::positive(1_000_000, 2_000_000);
    assert_eq!(gear.g(900_000), SCALE);
    assert_eq!(gear.g(1_000_000), SCALE);
    assert_eq!(gear.g(1_500_000), 500_000);
    assert_eq!(gear.g(2_000_000), 0);
    assert_eq!(gear.g(2_500_000), 0);
}

#[test]
fn negative_sells_high() {
    let gear = Gear::negative(1_000_000, 2_000_000);
    assert_eq!(gear.g(900_000), 0);
    assert_eq!(gear.g(1_500_000), -500_000);
    assert_eq!(gear.g(2_000_000), -SCALE);
}

#[test]
fn jump_is_a_step() {
    let gear = Gear::jump(1_000_000, SCALE, 0);
    assert_eq!(gear.g(999_999), SCALE);
    assert_eq!(gear.g(1_000_000), 0);
    assert_eq!(gear.g(1_000_001), 0);
}

#[test]
fn segment_interpolates() {
    let gear = Gear::segment(1_000_000, 400_000, 2_000_000, -400_000);
    assert_eq!(gear.g(1_000_000), 400_000);
    assert_eq!(gear.g(1_500_000), 0);
    assert_eq!(gear.g(2_000_000), -400_000);
    assert_eq!(gear.g(3_000_000), -400_000);
}

#[test]
fn coastline_line() {
    // direction 1, centre 1.0, scale 0.001, five steps wide.
    let gear = Gear::coastline(1, 1_000_000, 1_000, 5);
    assert_eq!(gear.g(990_000), 5_000_000);
    assert_eq!(gear.g(995_000), 5_000_000);
    assert_eq!(gear.g(1_000_000), 0);
    assert_eq!(gear.g(1_005_000), -5_000_000);
    assert_eq!(gear.g(1_010_000), -5_000_000);
}
