//! Axis-configuration classification: a pure mapping from a joint vector
//! (degrees, fixed-point) to the 4-integer posture code `[cf1, cf4, cf6, cfx]`
//! used by industrial controllers to identify an inverse-kinematics branch.

use vstd::prelude::*;
use crate::JointVector;

verus! {

/// Nanodegrees in a 90-degree quadrant.
pub const QUADRANT_NANODEG: i64 = 90_000_000_000;

/// The quadrant of an angle given in nanodegrees: `floor(angle / 90)` in
/// degrees, with floor toward negative infinity (not truncation).
pub open spec fn quadrant_spec(angle: int) -> int {
    angle / (QUADRANT_NANODEG as int)
}

/// The wrist-elbow-shoulder posture bits: +1 if the wrist joint J5 is
/// negative, +2 if the elbow joint J3 is below -90 degrees, +4 if the
/// shoulder joint J2 is negative. The thresholds are fixed industrial
/// convention.
pub open spec fn cfx_spec(j: Seq<i64>) -> int {
    (if j[4] < 0 {
        1int
    } else {
        0int
    }) + (if j[2] < -QUADRANT_NANODEG {
        2int
    } else {
        0int
    }) + (if j[1] < 0 {
        4int
    } else {
        0int
    })
}

/// Quadrant of a joint angle in nanodegrees, floored toward negative infinity.
pub fn quadrant(angle: i64) -> (r: i32)
    ensures
        r as int == quadrant_spec(angle as int),
{
    let q: i64 = match angle.checked_div_euclid(QUADRANT_NANODEG) {
        Some(q) => q,
        None => 0,
    };
    proof {
        vstd::arithmetic::div_mod::lemma_fundamental_div_mod(
            angle as int,
            QUADRANT_NANODEG as int,
        );
    }
    q as i32
}

/// The posture bits cfx of a joint vector, a value in 0..=7.
pub fn cfx_value(joints: &JointVector) -> (r: i32)
    ensures
        r as int == cfx_spec(joints@),
        0 <= r <= 7,
{
    let mut cfx: i32 = 0;
    if joints[4] < 0 {
        cfx += 1;
    }
    if joints[2] < -QUADRANT_NANODEG {
        cfx += 2;
    }
    if joints[1] < 0 {
        cfx += 4;
    }
    cfx
}

/// The full axis configuration `[cf1, cf4, cf6, cfx]` of a joint vector:
/// the quadrants of J1, J4 and J6, and the posture bits of J2, J3 and J5.
pub fn axis_configuration(joints: &JointVector) -> (r: [i32; 4])
    ensures
        r@[0] as int == quadrant_spec(joints@[0] as int),
        r@[1] as int == quadrant_spec(joints@[3] as int),
        r@[2] as int == quadrant_spec(joints@[5] as int),
        r@[3] as int == cfx_spec(joints@),
{
    let cf1 = quadrant(joints[0]);
    let cf4 = quadrant(joints[3]);
    let cf6 = quadrant(joints[5]);
    let cfx = cfx_value(joints);
    [cf1, cf4, cf6, cfx]
}

} // verus!
