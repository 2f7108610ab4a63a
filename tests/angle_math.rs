use iso_camera::angle::{
    ease_in_out_cubic, lerp_angle_deg, snap_to_quarter_turns, wrap_degrees, FRACTION_ONE,
};

#[test]
fn wrap_degrees_reduces_into_one_turn() {
    assert_eq!(wrap_degrees(0), 0);
    assert_eq!(wrap_degrees(360_000), 0);
    assert_eq!(wrap_degrees(405_000), 45_000);
    assert_eq!(wrap_degrees(-45_000), 315_000);
    assert_eq!(wrap_degrees(-720_001), 359_999);
}

#[test]
fn lerp_wraps_through_zero_not_half_turn() {
    assert_eq!(lerp_angle_deg(10_000, 350_000, 500_000), 0);
    assert_eq!(lerp_angle_deg(350_000, 10_000, 500_000), 360_000);
}

#[test]
fn lerp_endpoints() {
    assert_eq!(lerp_angle_deg(45_000, 135_000, 0), 45_000);
    assert_eq!(lerp_angle_deg(45_000, 135_000, FRACTION_ONE), 135_000);
    assert_eq!(lerp_angle_deg(45_000, 135_000, 250_000), 67_500);
    assert_eq!(lerp_angle_deg(315_000, 405_000, FRACTION_ONE), 405_000);
}

#[test]
fn lerp_half_turn_goes_positive() {
    assert_eq!(lerp_angle_deg(0, 180_000, FRACTION_ONE), 180_000);
    assert_eq!(lerp_angle_deg(0, -180_000, FRACTION_ONE), 180_000);
    assert_eq!(lerp_angle_deg(0, 180_001, FRACTION_ONE), -179_999);
}

#[test]
fn lerp_rounds_down() {
    assert_eq!(lerp_angle_deg(0, -1, 500_000), -1);
    assert_eq!(lerp_angle_deg(0, 1, 500_000), 0);
}

#[test]
fn ease_values() {
    assert_eq!(ease_in_out_cubic(0), 0);
    assert_eq!(ease_in_out_cubic(250_000), 62_500);
    assert_eq!(ease_in_out_cubic(500_000), 500_000);
    assert_eq!(ease_in_out_cubic(750_000), 937_500);
    assert_eq!(ease_in_out_cubic(FRACTION_ONE), FRACTION_ONE);
}

#[test]
fn ease_is_monotone_on_samples() {
    let mut prev = 0;
    let mut a = 0;
    while a <= FRACTION_ONE {
        let e = ease_in_out_cubic(a);
        assert!(e >= prev);
        assert!(e <= FRACTION_ONE);
        prev = e;
        a += 12_500;
    }
}

#[test]
fn snap_to_nearest_rest_heading() {
    assert_eq!(snap_to_quarter_turns(44_900), 45_000);
    assert_eq!(snap_to_quarter_turns(89_900), 45_000);
    assert_eq!(snap_to_quarter_turns(135_000), 135_000);
    assert_eq!(snap_to_quarter_turns(134_999), 135_000);
    assert_eq!(snap_to_quarter_turns(359_999), 315_000);
}

#[test]
fn snap_ties_go_away_from_offset() {
    assert_eq!(snap_to_quarter_turns(90_000), 135_000);
    assert_eq!(snap_to_quarter_turns(0), 315_000);
}

#[test]
fn snap_wraps_negative_and_large_headings() {
    assert_eq!(snap_to_quarter_turns(-10_000), 315_000);
    assert_eq!(snap_to_quarter_turns(400_000), 45_000);
    assert_eq!(snap_to_quarter_turns(-300_000), 45_000);
}
