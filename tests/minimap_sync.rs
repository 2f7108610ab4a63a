use iso_camera::minimap::{minimap_up_axis, minimap_up_heading};

#[test]
fn heading_follows_camera_yaw() {
    assert_eq!(minimap_up_heading(45_000), 0);
    assert_eq!(minimap_up_heading(135_000), 90_000);
    assert_eq!(minimap_up_heading(0), 315_000);
    assert_eq!(minimap_up_heading(12_345), 327_345);
}

#[test]
fn quarter_turn_of_camera_turns_minimap_a_quarter() {
    for yaw in [0i64, 10_000, 45_000, 100_001, 359_999] {
        let a = minimap_up_heading(yaw);
        let b = minimap_up_heading(yaw + 90_000);
        assert_eq!(b, (a + 90_000) % 360_000);
    }
}

#[test]
fn up_axes_at_rest_headings() {
    assert_eq!(minimap_up_axis(45_000), (0, -1));
    assert_eq!(minimap_up_axis(135_000), (-1, 0));
    assert_eq!(minimap_up_axis(225_000), (0, 1));
    assert_eq!(minimap_up_axis(315_000), (1, 0));
}

#[test]
fn up_axis_turns_at_right_angles() {
    for yaw in [45_000i64, 135_000, 225_000, 315_000] {
        let before = minimap_up_axis(yaw);
        let after = minimap_up_axis((yaw + 90_000) % 360_000);
        assert_eq!(after, (before.1, -before.0));
        assert_eq!(before.0 * after.0 + before.1 * after.1, 0);
    }
}
