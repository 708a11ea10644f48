//! Batch kinematics over tables: forward and inverse applied row-wise,
//! independently per row, preserving the row count and the row order.
//! A row with any missing required cell yields a fully null output row —
//! never a partial one — and never affects any other row. A missing
//! required column, by contrast, is a hard error for the whole call.

use vstd::prelude::*;
use crate::robot::Robot;
use crate::solver::Solver;
use crate::table::Column;
use crate::table::ColumnError;
use crate::table::Table;
use crate::table::extract_column;
use crate::table::first_match;
use crate::table::lemma_first_match_is_column;

verus! {

/// The required joint-column names, in the order they are looked up.
pub open spec fn joint_col_name(k: int) -> Seq<char> {
    if k == 0 {
        "J1"@
    } else if k == 1 {
        "J2"@
    } else if k == 2 {
        "J3"@
    } else if k == 3 {
        "J4"@
    } else if k == 4 {
        "J5"@
    } else {
        "J6"@
    }
}

/// The required pose-column names, in the order they are looked up.
pub open spec fn pose_col_name(k: int) -> Seq<char> {
    if k == 0 {
        "X"@
    } else if k == 1 {
        "Y"@
    } else if k == 2 {
        "Z"@
    } else if k == 3 {
        "A"@
    } else if k == 4 {
        "B"@
    } else if k == 5 {
        "C"@
    } else {
        "D"@
    }
}

/// The joint-column names as one lookup function.
pub open spec fn joint_names() -> spec_fn(int) -> Seq<char> {
    |k: int| joint_col_name(k)
}

/// The pose-column names as one lookup function.
pub open spec fn pose_names() -> spec_fn(int) -> Seq<char> {
    |k: int| pose_col_name(k)
}

/// The cells of the first column of `t` named `name`.
pub open spec fn extracted(t: Table, name: Seq<char>) -> Seq<Option<i64>> {
    first_match(t.columns@, name).unwrap()
}

/// The first `count` of the columns `names(0), names(1), ...` are all
/// present in `t`.
pub open spec fn inputs_present(t: Table, count: int, names: spec_fn(int) -> Seq<char>) -> bool {
    forall|k: int| 0 <= k < count ==> (#[trigger] first_match(t.columns@, names(k))).is_some()
}

/// Row `i` of `t` has a value in each of the first `count` required columns.
pub open spec fn row_complete(t: Table, i: int, count: int, names: spec_fn(int) -> Seq<char>) -> bool {
    forall|k: int| 0 <= k < count ==> (#[trigger] extracted(t, names(k))[i]).is_some()
}

/// Row `i` of `t` is fully filled.
pub open spec fn row_all_some(t: Table, i: int) -> bool {
    forall|c: int| 0 <= c < t.columns@.len() ==> (#[trigger] t.columns@[c].cells@[i]).is_some()
}

/// Row `i` of `t` is fully null.
pub open spec fn row_all_none(t: Table, i: int) -> bool {
    forall|c: int| 0 <= c < t.columns@.len() ==> (#[trigger] t.columns@[c].cells@[i]).is_none()
}

/// `e` names the first of the required columns `names(0..count)` that is
/// missing from `t`.
pub open spec fn names_first_missing(
    t: Table,
    e: ColumnError,
    count: int,
    names: spec_fn(int) -> Seq<char>,
) -> bool {
    exists|k: int|
        0 <= k < count && (#[trigger] first_match(t.columns@, names(k))) is None && (forall|
            k2: int,
        |
            0 <= k2 < k ==> (#[trigger] first_match(t.columns@, names(k2))).is_some())
            && e.column@ == names(k)
}

impl<S: Solver> Robot<S> {
    /// Forward kinematics over a table with columns `J1..J6`: every complete
    /// row yields the seven pose values of [`Robot::forward`] in columns
    /// `X, Y, Z, A, B, C, D`; every incomplete row yields seven nulls and
    /// affects no other row. The output has exactly one row per input row.
    pub fn batch_forward(&self, joints: &Table) -> (r: Result<Table, ColumnError>)
        requires
            joints.wf(),
        ensures
            match r {
                Ok(out) => inputs_present(*joints, 6, joint_names()) && out.wf()
                    && out.columns@.len() == 7 && out.height() == joints.height() && (forall|c: int|
                    0 <= c < 7 ==> (#[trigger] out.columns@[c]).name@ == pose_col_name(c)) && (
                forall|i: int|
                    0 <= i < joints.height() && row_complete(*joints, i, 6, joint_names())
                        ==> #[trigger] row_all_some(out, i)) && (forall|i: int|
                    0 <= i < joints.height() && !row_complete(*joints, i, 6, joint_names())
                        ==> #[trigger] row_all_none(out, i)),
                Err(e) => !inputs_present(*joints, 6, joint_names()) && names_first_missing(
                    *joints,
                    e,
                    6,
                    joint_names(),
                ),
            },
    {
        let names: [&str; 6] = ["J1", "J2", "J3", "J4", "J5", "J6"];
        proof {
            assert forall|k: int| 0 <= k < 6 implies (#[trigger] names@[k])@ == joint_names()(
                k,
            ) by {
                if k == 0 {
                } else if k == 1 {
                } else if k == 2 {
                } else if k == 3 {
                } else if k == 4 {
                } else {
                }
            }
        }
        let mut cols: Vec<Vec<Option<i64>>> = Vec::new();
        for k in 0..6
            invariant
                joints.wf(),
                names@.len() == 6,
                forall|k2: int| 0 <= k2 < 6 ==> (#[trigger] names@[k2])@ == joint_names()(k2),
                cols@.len() == k as int,
                forall|k2: int|
                    0 <= k2 < k as int ==> (#[trigger] first_match(
                        joints.columns@,
                        joint_names()(k2),
                    )).is_some(),
                forall|k2: int|
                    0 <= k2 < k as int ==> first_match(joints.columns@, joint_names()(k2))
                        == Option::Some((#[trigger] cols@[k2])@),
        {
            let name: String = names[k].to_owned();
            match extract_column(joints, &name) {
                Ok(c) => cols.push(c),
                Err(e) => {
                    proof {
                        let kk = k as int;
                        assert(first_match(joints.columns@, joint_names()(kk)) is None);
                        assert(names_first_missing(*joints, e, 6, joint_names()));
                        assert(!inputs_present(*joints, 6, joint_names()));
                    }
                    return Err(e);
                },
            }
        }
        proof {
            assert forall|k: int| 0 <= k < 6 implies (#[trigger] cols@[k])@.len()
                == joints.height() by {
                assert(first_match(joints.columns@, joint_names()(k)) == Option::Some(cols@[k]@));
                lemma_first_match_is_column(joints.columns@, joint_names()(k));
            }
            assert(inputs_present(*joints, 6, joint_names()));
        }
        let h = cols[0].len();
        let mut out: Vec<Vec<Option<i64>>> = new_out_columns(7);
        let c0 = &cols[0];
        let c1 = &cols[1];
        let c2 = &cols[2];
        let c3 = &cols[3];
        let c4 = &cols[4];
        let c5 = &cols[5];
        for i in 0..h
            invariant
                h as int == joints.height(),
                out@.len() == 7,
                c0@ == extracted(*joints, joint_names()(0)),
                c1@ == extracted(*joints, joint_names()(1)),
                c2@ == extracted(*joints, joint_names()(2)),
                c3@ == extracted(*joints, joint_names()(3)),
                c4@ == extracted(*joints, joint_names()(4)),
                c5@ == extracted(*joints, joint_names()(5)),
                c0@.len() == h as int,
                c1@.len() == h as int,
                c2@.len() == h as int,
                c3@.len() == h as int,
                c4@.len() == h as int,
                c5@.len() == h as int,
                forall|c: int| 0 <= c < 7 ==> (#[trigger] out@[c])@.len() == i as int,
                forall|ii: int, c: int|
                    0 <= ii < i as int && 0 <= c < 7 && row_complete(*joints, ii, 6, joint_names())
                        ==> (#[trigger] out@[c]@[ii]).is_some(),
                forall|ii: int, c: int|
                    0 <= ii < i as int && 0 <= c < 7 && !row_complete(*joints, ii, 6, joint_names())
                        ==> (#[trigger] out@[c]@[ii]).is_none(),
        {
            let complete = c0[i].is_some() && c1[i].is_some() && c2[i].is_some() && c3[i].is_some()
                && c4[i].is_some() && c5[i].is_some();
            if complete {
                proof {
                    assert forall|k: int| 0 <= k < 6 implies (#[trigger] extracted(
                        *joints,
                        joint_names()(k),
                    )[i as int]).is_some() by {
                        if k == 0 {
                            assert(extracted(*joints, joint_names()(0))[i as int] == c0@[i as int]);
                        } else if k == 1 {
                            assert(extracted(*joints, joint_names()(1))[i as int] == c1@[i as int]);
                        } else if k == 2 {
                            assert(extracted(*joints, joint_names()(2))[i as int] == c2@[i as int]);
                        } else if k == 3 {
                            assert(extracted(*joints, joint_names()(3))[i as int] == c3@[i as int]);
                        } else if k == 4 {
                            assert(extracted(*joints, joint_names()(4))[i as int] == c4@[i as int]);
                        } else {
                            assert(extracted(*joints, joint_names()(5))[i as int] == c5@[i as int]);
                        }
                    }
                    assert(row_complete(*joints, i as int, 6, joint_names()));
                }
                let jv = [
                    c0[i].unwrap(),
                    c1[i].unwrap(),
                    c2[i].unwrap(),
                    c3[i].unwrap(),
                    c4[i].unwrap(),
                    c5[i].unwrap(),
                ];
                let (tr, q) = self.forward(jv);
                let row: Vec<Option<i64>> = vec![
                    Some(tr[0]),
                    Some(tr[1]),
                    Some(tr[2]),
                    Some(q[0]),
                    Some(q[1]),
                    Some(q[2]),
                    Some(q[3]),
                ];
                out = push_row(out, &row);
            } else {
                proof {
                    if row_complete(*joints, i as int, 6, joint_names()) {
                        assert((extracted(*joints, joint_names()(0))[i as int]).is_some());
                        assert((extracted(*joints, joint_names()(1))[i as int]).is_some());
                        assert((extracted(*joints, joint_names()(2))[i as int]).is_some());
                        assert((extracted(*joints, joint_names()(3))[i as int]).is_some());
                        assert((extracted(*joints, joint_names()(4))[i as int]).is_some());
                        assert((extracted(*joints, joint_names()(5))[i as int]).is_some());
                    }
                    assert(!row_complete(*joints, i as int, 6, joint_names()));
                }
                let row: Vec<Option<i64>> = vec![None, None, None, None, None, None, None];
                out = push_row(out, &row);
            }
        }
        let t = assemble_pose_table(out);
        proof {
            assert forall|i: int|
                0 <= i < joints.height() && row_complete(*joints, i, 6, joint_names())
                    implies #[trigger] row_all_some(t, i) by {
                assert forall|c: int| 0 <= c < t.columns@.len() implies (
                #[trigger] t.columns@[c].cells@[i]).is_some() by {
                    assert((t.columns@[c]).cells@[i].is_some());
                }
            }
            assert forall|i: int|
                0 <= i < joints.height() && !row_complete(*joints, i, 6, joint_names())
                    implies #[trigger] row_all_none(t, i) by {
                assert forall|c: int| 0 <= c < t.columns@.len() implies (
                #[trigger] t.columns@[c].cells@[i]).is_none() by {
                    assert((t.columns@[c]).cells@[i].is_none());
                }
            }
        }
        Ok(t)
    }

    /// Inverse kinematics over a table with columns `X, Y, Z, A, B, C, D`
    /// (translation, then quaternion ordered `[w, x, y, z]`): every
    /// complete row is solved with the solver's canonical centered default
    /// seed — batch mode never threads a prior row's result as a seed —
    /// then ranked as in [`Robot::inverse`], and the first ranked solution
    /// fills columns `J1..J6`. A row that is incomplete, or whose
    /// candidates were all flagged singular, yields six nulls; no other
    /// row is affected either way, and no row is ever partially filled.
    /// The output has exactly one row per input row.
    pub fn batch_inverse(
        &self,
        poses: &Table,
        axis_configuration: Option<[i32; 4]>,
    ) -> (r: Result<Table, ColumnError>)
        requires
            poses.wf(),
        ensures
            match r {
                Ok(out) => inputs_present(*poses, 7, pose_names()) && out.wf()
                    && out.columns@.len() == 6 && out.height() == poses.height() && (forall|c: int|
                    0 <= c < 6 ==> (#[trigger] out.columns@[c]).name@ == joint_col_name(c)) && (
                forall|i: int|
                    0 <= i < poses.height() && row_complete(*poses, i, 7, pose_names())
                        ==> #[trigger] row_all_some(out, i) || row_all_none(out, i)) && (forall|
                    i: int,
                |
                    0 <= i < poses.height() && !row_complete(*poses, i, 7, pose_names())
                        ==> #[trigger] row_all_none(out, i)),
                Err(e) => !inputs_present(*poses, 7, pose_names()) && names_first_missing(
                    *poses,
                    e,
                    7,
                    pose_names(),
                ),
            },
    {
        let names: [&str; 7] = ["X", "Y", "Z", "A", "B", "C", "D"];
        proof {
            assert forall|k: int| 0 <= k < 7 implies (#[trigger] names@[k])@ == pose_names()(
                k,
            ) by {
                if k == 0 {
                } else if k == 1 {
                } else if k == 2 {
                } else if k == 3 {
                } else if k == 4 {
                } else if k == 5 {
                } else {
                }
            }
        }
        let mut cols: Vec<Vec<Option<i64>>> = Vec::new();
        for k in 0..7
            invariant
                poses.wf(),
                names@.len() == 7,
                forall|k2: int| 0 <= k2 < 7 ==> (#[trigger] names@[k2])@ == pose_names()(k2),
                cols@.len() == k as int,
                forall|k2: int|
                    0 <= k2 < k as int ==> (#[trigger] first_match(
                        poses.columns@,
                        pose_names()(k2),
                    )).is_some(),
                forall|k2: int|
                    0 <= k2 < k as int ==> first_match(poses.columns@, pose_names()(k2))
                        == Option::Some((#[trigger] cols@[k2])@),
        {
            let name: String = names[k].to_owned();
            match extract_column(poses, &name) {
                Ok(c) => cols.push(c),
                Err(e) => {
                    proof {
                        let kk = k as int;
                        assert(first_match(poses.columns@, pose_names()(kk)) is None);
                        assert(names_first_missing(*poses, e, 7, pose_names()));
                        assert(!inputs_present(*poses, 7, pose_names()));
                    }
                    return Err(e);
                },
            }
        }
        proof {
            assert forall|k: int| 0 <= k < 7 implies (#[trigger] cols@[k])@.len()
                == poses.height() by {
                assert(first_match(poses.columns@, pose_names()(k)) == Option::Some(cols@[k]@));
                lemma_first_match_is_column(poses.columns@, pose_names()(k));
            }
            assert(inputs_present(*poses, 7, pose_names()));
        }
        let h = cols[0].len();
        let mut out: Vec<Vec<Option<i64>>> = new_out_columns(6);
        let c0 = &cols[0];
        let c1 = &cols[1];
        let c2 = &cols[2];
        let c3 = &cols[3];
        let c4 = &cols[4];
        let c5 = &cols[5];
        let c6 = &cols[6];
        for i in 0..h
            invariant
                h as int == poses.height(),
                out@.len() == 6,
                c0@ == extracted(*poses, pose_names()(0)),
                c1@ == extracted(*poses, pose_names()(1)),
                c2@ == extracted(*poses, pose_names()(2)),
                c3@ == extracted(*poses, pose_names()(3)),
                c4@ == extracted(*poses, pose_names()(4)),
                c5@ == extracted(*poses, pose_names()(5)),
                c6@ == extracted(*poses, pose_names()(6)),
                c0@.len() == h as int,
                c1@.len() == h as int,
                c2@.len() == h as int,
                c3@.len() == h as int,
                c4@.len() == h as int,
                c5@.len() == h as int,
                c6@.len() == h as int,
                forall|c: int| 0 <= c < 6 ==> (#[trigger] out@[c])@.len() == i as int,
                forall|ii: int, c: int, c2: int|
                    #![trigger out@[c]@[ii], out@[c2]@[ii]]
                    0 <= ii < i as int && 0 <= c < 6 && 0 <= c2 < 6 ==> (out@[c]@[ii].is_some()
                        <==> out@[c2]@[ii].is_some()),
                forall|ii: int, c: int|
                    0 <= ii < i as int && 0 <= c < 6 && !row_complete(*poses, ii, 7, pose_names())
                        ==> (#[trigger] out@[c]@[ii]).is_none(),
        {
            let complete = c0[i].is_some() && c1[i].is_some() && c2[i].is_some() && c3[i].is_some()
                && c4[i].is_some() && c5[i].is_some() && c6[i].is_some();
            let row: Vec<Option<i64>> = if complete {
                proof {
                    assert forall|k: int| 0 <= k < 7 implies (#[trigger] extracted(
                        *poses,
                        pose_names()(k),
                    )[i as int]).is_some() by {
                        if k == 0 {
                            assert(extracted(*poses, pose_names()(0))[i as int] == c0@[i as int]);
                        } else if k == 1 {
                            assert(extracted(*poses, pose_names()(1))[i as int] == c1@[i as int]);
                        } else if k == 2 {
                            assert(extracted(*poses, pose_names()(2))[i as int] == c2@[i as int]);
                        } else if k == 3 {
                            assert(extracted(*poses, pose_names()(3))[i as int] == c3@[i as int]);
                        } else if k == 4 {
                            assert(extracted(*poses, pose_names()(4))[i as int] == c4@[i as int]);
                        } else if k == 5 {
                            assert(extracted(*poses, pose_names()(5))[i as int] == c5@[i as int]);
                        } else {
                            assert(extracted(*poses, pose_names()(6))[i as int] == c6@[i as int]);
                        }
                    }
                    assert(row_complete(*poses, i as int, 7, pose_names()));
                }
                let pose = (
                    [c0[i].unwrap(), c1[i].unwrap(), c2[i].unwrap()],
                    [c3[i].unwrap(), c4[i].unwrap(), c5[i].unwrap(), c6[i].unwrap()],
                );
                let solutions = self.inverse(pose, None, axis_configuration);
                if solutions.len() > 0 {
                    let s = solutions[0];
                    vec![Some(s[0]), Some(s[1]), Some(s[2]), Some(s[3]), Some(s[4]), Some(s[5])]
                } else {
                    vec![None, None, None, None, None, None]
                }
            } else {
                proof {
                    if row_complete(*poses, i as int, 7, pose_names()) {
                        assert((extracted(*poses, pose_names()(0))[i as int]).is_some());
                        assert((extracted(*poses, pose_names()(1))[i as int]).is_some());
                        assert((extracted(*poses, pose_names()(2))[i as int]).is_some());
                        assert((extracted(*poses, pose_names()(3))[i as int]).is_some());
                        assert((extracted(*poses, pose_names()(4))[i as int]).is_some());
                        assert((extracted(*poses, pose_names()(5))[i as int]).is_some());
                        assert((extracted(*poses, pose_names()(6))[i as int]).is_some());
                    }
                    assert(!row_complete(*poses, i as int, 7, pose_names()));
                }
                vec![None, None, None, None, None, None]
            };
            proof {
                assert(forall|c: int, c2: int|
                    0 <= c < 6 && 0 <= c2 < 6 ==> ((#[trigger] row@[c]).is_some() <==> (
                    #[trigger] row@[c2]).is_some()));
            }
            out = push_row(out, &row);
        }
        let t = assemble_joint_table(out);
        proof {
            assert forall|i: int|
                0 <= i < poses.height() && row_complete(*poses, i, 7, pose_names()) implies (
            #[trigger] row_all_some(t, i) || row_all_none(t, i)) by {
                if t.columns@[0].cells@[i].is_some() {
                    assert forall|c: int| 0 <= c < t.columns@.len() implies (
                    #[trigger] t.columns@[c].cells@[i]).is_some() by {
                        assert(t.columns@[c].cells@ == out@[c]@);
                        assert(out@[c]@[i].is_some() <==> out@[0]@[i].is_some());
                    }
                } else {
                    assert forall|c: int| 0 <= c < t.columns@.len() implies (
                    #[trigger] t.columns@[c].cells@[i]).is_none() by {
                        assert(t.columns@[c].cells@ == out@[c]@);
                        assert(out@[c]@[i].is_some() <==> out@[0]@[i].is_some());
                    }
                }
            }
            assert forall|i: int|
                0 <= i < poses.height() && !row_complete(*poses, i, 7, pose_names())
                    implies #[trigger] row_all_none(t, i) by {
                assert forall|c: int| 0 <= c < t.columns@.len() implies (
                #[trigger] t.columns@[c].cells@[i]).is_none() by {
                    assert(t.columns@[c].cells@ == out@[c]@);
                }
            }
        }
        Ok(t)
    }
}

/// Fresh empty output columns, one per output field.
fn new_out_columns(n: usize) -> (r: Vec<Vec<Option<i64>>>)
    ensures
        r@.len() == n as int,
        forall|c: int| 0 <= c < n as int ==> (#[trigger] r@[c])@.len() == 0,
{
    let mut r: Vec<Vec<Option<i64>>> = Vec::new();
    for k in 0..n
        invariant
            r@.len() == k as int,
            forall|c: int| 0 <= c < k as int ==> (#[trigger] r@[c])@.len() == 0,
    {
        r.push(Vec::new());
    }
    r
}

/// Append one output row: cell `c` of `row` goes to column `c`.
fn push_row(out: Vec<Vec<Option<i64>>>, row: &Vec<Option<i64>>) -> (r: Vec<Vec<Option<i64>>>)
    requires
        out@.len() == row@.len(),
    ensures
        r@.len() == out@.len(),
        forall|c: int| 0 <= c < out@.len() ==> (#[trigger] r@[c])@ == out@[c]@.push(row@[c]),
{
    let n = row.len();
    let ghost orig = out@;
    let mut rest = out;
    let mut r: Vec<Vec<Option<i64>>> = Vec::new();
    let mut c: usize = 0;
    while c < n
        invariant
            c <= n,
            orig.len() == n as int,
            row@.len() == n as int,
            rest@.len() == n as int - c as int,
            forall|c2: int|
                0 <= c2 < n as int - c as int ==> (#[trigger] rest@[c2])@ == orig[c2 + c as int]@,
            r@.len() == c as int,
            forall|c2: int| 0 <= c2 < c as int ==> (#[trigger] r@[c2])@ == orig[c2]@.push(row@[c2]),
        decreases n - c,
    {
        let ghost rest_before = rest@;
        let mut col = rest.remove(0);
        proof {
            assert forall|c2: int| 0 <= c2 < rest@.len() implies (#[trigger] rest@[c2])@
                == orig[c2 + c as int + 1]@ by {
                assert(rest@[c2] == rest_before[c2 + 1]);
            }
        }
        col.push(row[c]);
        r.push(col);
        c += 1;
    }
    r
}

/// Wrap the seven output columns into a table under the pose-column names.
fn assemble_pose_table(out: Vec<Vec<Option<i64>>>) -> (t: Table)
    requires
        out@.len() == 7,
        forall|c: int, c2: int|
            0 <= c < 7 && 0 <= c2 < 7 ==> (#[trigger] out@[c])@.len() == (#[trigger] out@[c2])@.len(),
    ensures
        t.wf(),
        t.columns@.len() == 7,
        forall|c: int| 0 <= c < 7 ==> (#[trigger] t.columns@[c]).name@ == pose_col_name(c),
        forall|c: int| 0 <= c < 7 ==> (#[trigger] t.columns@[c]).cells@ == out@[c]@,
        t.height() == out@[0]@.len(),
{
    let names: [&str; 7] = ["X", "Y", "Z", "A", "B", "C", "D"];
    proof {
        assert forall|k: int| 0 <= k < 7 implies (#[trigger] names@[k])@ == pose_col_name(k) by {
            if k == 0 {
            } else if k == 1 {
            } else if k == 2 {
            } else if k == 3 {
            } else if k == 4 {
            } else if k == 5 {
            } else {
            }
        }
    }
    let ghost orig = out@;
    let mut rest = out;
    let mut columns: Vec<Column> = Vec::new();
    let mut c: usize = 0;
    while c < 7
        invariant
            c <= 7,
            orig.len() == 7,
            names@.len() == 7,
            forall|k: int| 0 <= k < 7 ==> (#[trigger] names@[k])@ == pose_col_name(k),
            rest@.len() == 7 - c as int,
            forall|c2: int|
                0 <= c2 < 7 - c as int ==> (#[trigger] rest@[c2])@ == orig[c2 + c as int]@,
            columns@.len() == c as int,
            forall|c2: int|
                0 <= c2 < c as int ==> (#[trigger] columns@[c2]).name@ == pose_col_name(c2),
            forall|c2: int| 0 <= c2 < c as int ==> (#[trigger] columns@[c2]).cells@ == orig[c2]@,
        decreases 7 - c,
    {
        let ghost rest_before = rest@;
        let cells = rest.remove(0);
        proof {
            assert forall|c2: int| 0 <= c2 < rest@.len() implies (#[trigger] rest@[c2])@
                == orig[c2 + c as int + 1]@ by {
                assert(rest@[c2] == rest_before[c2 + 1]);
            }
        }
        columns.push(Column { name: names[c].to_owned(), cells });
        c += 1;
    }
    let t = Table { columns };
    proof {
        assert forall|i: int, j: int|
            #![trigger t.columns@[i].cells, t.columns@[j].cells]
            0 <= i < t.columns@.len() && 0 <= j < t.columns@.len() implies t.columns@[i].cells@.len()
            == t.columns@[j].cells@.len() by {
            assert(t.columns@[i].cells@ == orig[i]@);
            assert(t.columns@[j].cells@ == orig[j]@);
        }
    }
    t
}

/// Wrap the six output columns into a table under the joint-column names.
fn assemble_joint_table(out: Vec<Vec<Option<i64>>>) -> (t: Table)
    requires
        out@.len() == 6,
        forall|c: int, c2: int|
            0 <= c < 6 && 0 <= c2 < 6 ==> (#[trigger] out@[c])@.len() == (#[trigger] out@[c2])@.len(),
    ensures
        t.wf(),
        t.columns@.len() == 6,
        forall|c: int| 0 <= c < 6 ==> (#[trigger] t.columns@[c]).name@ == joint_col_name(c),
        forall|c: int| 0 <= c < 6 ==> (#[trigger] t.columns@[c]).cells@ == out@[c]@,
        t.height() == out@[0]@.len(),
{
    let names: [&str; 6] = ["J1", "J2", "J3", "J4", "J5", "J6"];
    proof {
        assert forall|k: int| 0 <= k < 6 implies (#[trigger] names@[k])@ == joint_col_name(k) by {
            if k == 0 {
            } else if k == 1 {
            } else if k == 2 {
            } else if k == 3 {
            } else if k == 4 {
            } else {
            }
        }
    }
    let ghost orig = out@;
    let mut rest = out;
    let mut columns: Vec<Column> = Vec::new();
    let mut c: usize = 0;
    while c < 6
        invariant
            c <= 6,
            orig.len() == 6,
            names@.len() == 6,
            forall|k: int| 0 <= k < 6 ==> (#[trigger] names@[k])@ == joint_col_name(k),
            rest@.len() == 6 - c as int,
            forall|c2: int|
                0 <= c2 < 6 - c as int ==> (#[trigger] rest@[c2])@ == orig[c2 + c as int]@,
            columns@.len() == c as int,
            forall|c2: int|
                0 <= c2 < c as int ==> (#[trigger] columns@[c2]).name@ == joint_col_name(c2),
            forall|c2: int| 0 <= c2 < c as int ==> (#[trigger] columns@[c2]).cells@ == orig[c2]@,
        decreases 6 - c,
    {
        let ghost rest_before = rest@;
        let cells = rest.remove(0);
        proof {
            assert forall|c2: int| 0 <= c2 < rest@.len() implies (#[trigger] rest@[c2])@
                == orig[c2 + c as int + 1]@ by {
                assert(rest@[c2] == rest_before[c2 + 1]);
            }
        }
        columns.push(Column { name: names[c].to_owned(), cells });
        c += 1;
    }
    let t = Table { columns };
    proof {
        assert forall|i: int, j: int|
            #![trigger t.columns@[i].cells, t.columns@[j].cells]
            0 <= i < t.columns@.len() && 0 <= j < t.columns@.len() implies t.columns@[i].cells@.len()
            == t.columns@[j].cells@.len() by {
            assert(t.columns@[i].cells@ == orig[i]@);
            assert(t.columns@[j].cells@ == orig[j]@);
        }
    }
    t
}

} // verus!
