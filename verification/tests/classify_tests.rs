use opw_robot::classify::axis_configuration;
use opw_robot::classify::quadrant;

/// One nanodegree-scaled unit per degree.
const SCALE_F: f64 = opw_robot::SCALE as f64;

fn deg(x: f64) -> i64 {
    (x * SCALE_F).round() as i64
}

#[test]
fn test_quadrant_values() {
    assert_eq!(quadrant(deg(-130.0)), -2);
    assert_eq!(quadrant(deg(10.0)), 0);
    assert_eq!(quadrant(deg(95.0)), 1);
    assert_eq!(quadrant(deg(-90.0)), -1);
    assert_eq!(quadrant(deg(90.0)), 1);
}

#[test]
fn test_quadrant_boundaries() {
    assert_eq!(quadrant(0), 0);
    assert_eq!(quadrant(deg(89.999999)), 0);
    assert_eq!(quadrant(deg(-0.000001)), -1);
    assert_eq!(quadrant(deg(180.0)), 2);
    assert_eq!(quadrant(deg(-180.0)), -2);
    assert_eq!(quadrant(deg(359.999)), 3);
}

#[test]
fn test_axis_configuration_posture_code() {
    let joints = [
        deg(-103.1),
        deg(-85.03),
        deg(19.06),
        deg(-70.19),
        deg(-35.87),
        deg(185.01),
    ];
    assert_eq!(axis_configuration(&joints), [-2, -1, 2, 5]);
}

#[test]
fn test_axis_configuration_cfx_bits() {
    // All three bits set: wrist negative, elbow below -90, shoulder negative.
    let joints = [0, deg(-1.0), deg(-91.0), 0, deg(-1.0), 0];
    assert_eq!(axis_configuration(&joints), [0, 0, 0, 7]);
    // No bit set.
    let joints = [0, 0, 0, 0, 0, 0];
    assert_eq!(axis_configuration(&joints), [0, 0, 0, 0]);
    // Elbow exactly at -90 does not set the +2 bit.
    let joints = [0, 0, deg(-90.0), 0, 0, 0];
    assert_eq!(axis_configuration(&joints), [0, 0, 0, 0]);
    // One degree below -90 sets it.
    let joints = [0, 0, deg(-91.0), 0, 0, 0];
    assert_eq!(axis_configuration(&joints), [0, 0, 0, 2]);
}
