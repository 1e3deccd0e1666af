use bot_core::angle::{norm_angle, SmoothAngle};

#[test]
fn t_norm_angle_basic() {
    assert_eq!(norm_angle(0), 0);
    assert_eq!(norm_angle(179_000), 179_000);
    assert_eq!(norm_angle(180_000), -180_000);
    assert_eq!(norm_angle(190_000), -170_000);
    assert_eq!(norm_angle(-190_000), 170_000);
    assert_eq!(norm_angle(360_000), 0);
    assert_eq!(norm_angle(-360_000), 0);
    assert_eq!(norm_angle(720_000 + 45_000), 45_000);
}

#[test]
fn t_update_moves_at_most_speed_dt() {
    // 10 deg/s for one second moves exactly 10 degrees of the 90 owed.
    let mut s = SmoothAngle { angle: 0, target: 90_000, speed: 10_000 };
    s.update(1000);
    assert_eq!(s.angle, 10_000);
    s.update(500);
    assert_eq!(s.angle, 15_000);
}

#[test]
fn t_update_never_overshoots() {
    // A step larger than the remaining distance lands exactly on the target.
    let mut s = SmoothAngle { angle: 0, target: 5_000, speed: 10_000 };
    s.update(1000);
    assert_eq!(s.angle, 5_000);
    s.update(1000);
    assert_eq!(s.angle, 5_000);
}

#[test]
fn t_update_wraps_through_half_turn() {
    // Approaching -179 deg from 179 deg goes through 180, not through 0.
    let mut s = SmoothAngle { angle: 179_000, target: -179_000, speed: 1_000 };
    s.update(1000);
    // One degree further: wrapped past the boundary.
    assert_eq!(s.angle, -180_000);
    s.update(1000);
    assert_eq!(s.angle, -179_000);
    s.update(1000);
    assert_eq!(s.angle, -179_000);
}

#[test]
fn t_update_negative_direction() {
    let mut s = SmoothAngle { angle: 0, target: -90_000, speed: 30_000 };
    s.update(1000);
    assert_eq!(s.angle, -30_000);
}

#[test]
fn t_set_target_normalizes() {
    let mut s = SmoothAngle { angle: 0, target: 0, speed: 1_000 };
    s.set_target(350_000);
    assert_eq!(s.target, -10_000);
}

#[test]
fn t_new_normalizes_both() {
    let s = SmoothAngle::new(540_000, -540_000, 2_000);
    assert_eq!(s.angle, -180_000);
    assert_eq!(s.target, -180_000);
    assert_eq!(s.speed, 2_000);
}
