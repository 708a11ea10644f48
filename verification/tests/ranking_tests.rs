use opw_robot::ranking::filter_and_rank;
use opw_robot::JointVector;

/// One nanodegree-scaled unit per degree.
const SCALE_F: f64 = opw_robot::SCALE as f64;

fn deg(x: f64) -> i64 {
    (x * SCALE_F).round() as i64
}

/// A joint vector with the given posture bits: bit 1 from J5 < 0,
/// bit 2 from J3 < -90, bit 4 from J2 < 0. The first joint carries a
/// marker value so candidates stay distinguishable.
fn jv_with_cfx(marker: i64, cfx: i32) -> JointVector {
    let j5 = if cfx & 1 != 0 { deg(-10.0) } else { deg(10.0) };
    let j3 = if cfx & 2 != 0 { deg(-120.0) } else { deg(0.0) };
    let j2 = if cfx & 4 != 0 { deg(-20.0) } else { deg(20.0) };
    [marker, j2, j3, 0, j5, 0]
}

#[test]
fn test_ranker_drops_flagged_candidates() {
    let candidates = vec![
        jv_with_cfx(1, 5),
        jv_with_cfx(2, 0),
        jv_with_cfx(3, 5),
        jv_with_cfx(4, 3),
    ];
    let flags = vec![false, true, false, true];
    let out = filter_and_rank(&candidates, &flags, None);
    assert_eq!(out, vec![jv_with_cfx(1, 5), jv_with_cfx(3, 5)]);
    // No returned candidate is a flagged one.
    for s in &out {
        assert!(s[0] != 2 && s[0] != 4);
    }
}

#[test]
fn test_ranker_all_flagged_yields_empty() {
    let candidates = vec![jv_with_cfx(1, 0), jv_with_cfx(2, 1)];
    let flags = vec![true, true];
    let out = filter_and_rank(&candidates, &flags, Some([0, 0, 0, 1]));
    assert!(out.is_empty());
}

#[test]
fn test_ranker_matching_first_and_stable() {
    let candidates = vec![
        jv_with_cfx(1, 0),
        jv_with_cfx(2, 5),
        jv_with_cfx(3, 0),
        jv_with_cfx(4, 5),
        jv_with_cfx(5, 7),
    ];
    let flags = vec![false, false, false, false, false];
    let out = filter_and_rank(&candidates, &flags, Some([0, 0, 0, 5]));
    // cfx-matching candidates first, each group in enumeration order.
    assert_eq!(
        out,
        vec![
            jv_with_cfx(2, 5),
            jv_with_cfx(4, 5),
            jv_with_cfx(1, 0),
            jv_with_cfx(3, 0),
            jv_with_cfx(5, 7),
        ]
    );
}

#[test]
fn test_ranker_only_cfx_field_compared() {
    // The desired quadrants differ wildly from the candidate's, but only
    // the fourth field (cfx) decides the ranking, by explicit policy.
    let candidates = vec![jv_with_cfx(1, 0), jv_with_cfx(2, 5)];
    let flags = vec![false, false];
    let out = filter_and_rank(&candidates, &flags, Some([9, -9, 9, 5]));
    assert_eq!(out, vec![jv_with_cfx(2, 5), jv_with_cfx(1, 0)]);
}

#[test]
fn test_ranker_no_target_keeps_enumeration_order() {
    let candidates = vec![jv_with_cfx(1, 7), jv_with_cfx(2, 0), jv_with_cfx(3, 1)];
    let flags = vec![false, false, false];
    let out = filter_and_rank(&candidates, &flags, None);
    assert_eq!(out, candidates);
}
