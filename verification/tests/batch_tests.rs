use opw_robot::model::KinematicModel;
use opw_robot::robot::BaseConfig;
use opw_robot::robot::Robot;
use opw_robot::robot::ToolConfig;
use opw_robot::solver::Solver;
use opw_robot::solver::SolverPose;
use opw_robot::table::Column;
use opw_robot::table::Table;
use opw_robot::JointVector;

/// One nanodegree-scaled unit per degree.
const SCALE_F: f64 = opw_robot::SCALE as f64;

fn deg(x: f64) -> i64 {
    (x * SCALE_F).round() as i64
}

/// Joint vectors whose first angle equals this marker are reported as
/// singular by the fake solver.
const SINGULAR_MARK: i64 = 77;

/// A deterministic stand-in for the analytic solver, so the batch and
/// ranking plumbing can be exercised on exact integer values.
struct FakeSolver;

impl Solver for FakeSolver {
    fn forward(&self, joints_deg: &JointVector) -> SolverPose {
        SolverPose {
            translation: [joints_deg[0] + 1, joints_deg[1] + 2, joints_deg[2] + 3],
            quat_xyzw: [joints_deg[3], joints_deg[4], joints_deg[5], 1000],
        }
    }

    fn inverse_continuing(
        &self,
        pose: &SolverPose,
        _seed_deg: &Option<JointVector>,
    ) -> Vec<JointVector> {
        if pose.translation[0] < 0 {
            return vec![];
        }
        let base = pose.translation[0];
        vec![
            [base, deg(20.0), 0, 0, deg(10.0), 0],      // cfx = 0
            [base + 1, deg(-20.0), 0, 0, deg(-10.0), 0], // cfx = 5
        ]
    }

    fn kinematic_singularity(&self, joints_deg: &JointVector) -> bool {
        joints_deg[0] == SINGULAR_MARK
    }
}

fn fake_robot() -> Robot<FakeSolver> {
    let km = KinematicModel::new(0, 0, 0, 0, 0, 0, 0, (0, 0, 0, 0, 0, 0), (1, 1, 1, 1, 1, 1));
    let base = BaseConfig::new([0, 0, 0], [deg(1.0), 0, 0, 0]);
    let tool = ToolConfig::new([0, 0, 0], [deg(1.0), 0, 0, 0]);
    Robot::new(km, base, tool, FakeSolver)
}

fn col(name: &str, cells: Vec<Option<i64>>) -> Column {
    Column { name: name.to_string(), cells }
}

fn joint_table(rows: Vec<[Option<i64>; 6]>) -> Table {
    let mut columns = Vec::new();
    for (k, name) in ["J1", "J2", "J3", "J4", "J5", "J6"].iter().enumerate() {
        columns.push(col(name, rows.iter().map(|r| r[k]).collect()));
    }
    Table { columns }
}

fn pose_table(rows: Vec<[Option<i64>; 7]>) -> Table {
    let mut columns = Vec::new();
    for (k, name) in ["X", "Y", "Z", "A", "B", "C", "D"].iter().enumerate() {
        columns.push(col(name, rows.iter().map(|r| r[k]).collect()));
    }
    Table { columns }
}

fn cells<'a>(t: &'a Table, name: &str) -> &'a Vec<Option<i64>> {
    &t.columns.iter().find(|c| c.name == name).unwrap().cells
}

#[test]
fn test_batch_forward_rows_and_nulls() {
    let robot = fake_robot();
    let input = joint_table(vec![
        [Some(10), Some(20), Some(30), Some(40), Some(50), Some(60)],
        [Some(1), None, Some(3), Some(4), Some(5), Some(6)],
        [Some(7), Some(8), Some(9), Some(10), Some(11), Some(12)],
    ]);
    let out = robot.batch_forward(&input).unwrap();
    // Row count is preserved, and the columns come in the fixed order.
    let names: Vec<&str> = out.columns.iter().map(|c| c.name.as_str()).collect();
    assert_eq!(names, vec!["X", "Y", "Z", "A", "B", "C", "D"]);
    for c in &out.columns {
        assert_eq!(c.cells.len(), 3);
    }
    // Complete rows get the solver's pose, with the quaternion exported
    // in the order [w, x, y, z] from the native [x, y, z, w].
    assert_eq!(cells(&out, "X")[0], Some(11));
    assert_eq!(cells(&out, "Y")[0], Some(22));
    assert_eq!(cells(&out, "Z")[0], Some(33));
    assert_eq!(cells(&out, "A")[0], Some(1000));
    assert_eq!(cells(&out, "B")[0], Some(40));
    assert_eq!(cells(&out, "C")[0], Some(50));
    assert_eq!(cells(&out, "D")[0], Some(60));
    // The incomplete row yields seven nulls; no other row is affected.
    for c in &out.columns {
        assert_eq!(c.cells[1], None);
        assert!(c.cells[0].is_some());
        assert!(c.cells[2].is_some());
    }
    assert_eq!(cells(&out, "X")[2], Some(8));
}

#[test]
fn test_batch_forward_missing_column_is_hard_error() {
    let robot = fake_robot();
    let mut t = joint_table(vec![[Some(1), Some(2), Some(3), Some(4), Some(5), Some(6)]]);
    // Remove J4: the whole call fails, naming the column.
    t.columns.retain(|c| c.name != "J4");
    let err = robot.batch_forward(&t).unwrap_err();
    assert_eq!(err.column, "J4");
}

#[test]
fn test_batch_forward_first_missing_column_named() {
    let robot = fake_robot();
    let mut t = joint_table(vec![[Some(1), Some(2), Some(3), Some(4), Some(5), Some(6)]]);
    t.columns.retain(|c| c.name != "J2" && c.name != "J5");
    let err = robot.batch_forward(&t).unwrap_err();
    assert_eq!(err.column, "J2");
}

#[test]
fn test_batch_forward_extra_columns_ignored() {
    let robot = fake_robot();
    let mut t = joint_table(vec![[Some(1), Some(2), Some(3), Some(4), Some(5), Some(6)]]);
    t.columns.insert(0, col("comment", vec![None]));
    let out = robot.batch_forward(&t).unwrap();
    assert_eq!(out.columns.len(), 7);
    assert_eq!(cells(&out, "X")[0], Some(2));
}

#[test]
fn test_batch_inverse_rows_and_nulls() {
    let robot = fake_robot();
    let input = pose_table(vec![
        // Complete row with solutions: first enumerated solution is taken.
        [Some(5), Some(6), Some(7), Some(1), Some(0), Some(0), Some(0)],
        // Complete row with no solutions: all six outputs are null.
        [Some(-1), Some(0), Some(0), Some(1), Some(0), Some(0), Some(0)],
        // Incomplete row: all six outputs are null.
        [Some(5), None, Some(7), Some(1), Some(0), Some(0), Some(0)],
    ]);
    let out = robot.batch_inverse(&input, None).unwrap();
    let names: Vec<&str> = out.columns.iter().map(|c| c.name.as_str()).collect();
    assert_eq!(names, vec!["J1", "J2", "J3", "J4", "J5", "J6"]);
    for c in &out.columns {
        assert_eq!(c.cells.len(), 3);
    }
    assert_eq!(cells(&out, "J1")[0], Some(5));
    assert_eq!(cells(&out, "J2")[0], Some(deg(20.0)));
    assert_eq!(cells(&out, "J5")[0], Some(deg(10.0)));
    for c in &out.columns {
        assert_eq!(c.cells[1], None);
        assert_eq!(c.cells[2], None);
    }
}

#[test]
fn test_batch_inverse_ranks_by_desired_configuration() {
    let robot = fake_robot();
    let input = pose_table(vec![[
        Some(5),
        Some(6),
        Some(7),
        Some(1),
        Some(0),
        Some(0),
        Some(0),
    ]]);
    // The second enumerated solution has cfx = 5; with a matching desired
    // configuration it is ranked first and taken.
    let out = robot.batch_inverse(&input, Some([0, 0, 0, 5])).unwrap();
    assert_eq!(cells(&out, "J1")[0], Some(6));
    assert_eq!(cells(&out, "J2")[0], Some(deg(-20.0)));
    assert_eq!(cells(&out, "J5")[0], Some(deg(-10.0)));
}

#[test]
fn test_batch_inverse_missing_column_is_hard_error() {
    let robot = fake_robot();
    let mut t = pose_table(vec![[Some(1), Some(2), Some(3), Some(4), Some(5), Some(6), Some(7)]]);
    t.columns.retain(|c| c.name != "D");
    let err = robot.batch_inverse(&t, None).unwrap_err();
    assert_eq!(err.column, "D");
}

#[test]
fn test_inverse_filters_singular_candidates() {
    let robot = fake_robot();
    // The fake solver enumerates candidates with markers 77 and 78 for this
    // pose; 77 is flagged singular and must never be returned.
    let pose = ([SINGULAR_MARK, 0, 0], [1, 0, 0, 0]);
    let out = robot.inverse(pose, None, None);
    assert_eq!(out.len(), 1);
    assert_eq!(out[0][0], SINGULAR_MARK + 1);
}

/// A solver that flags every candidate as singular.
struct AllSingular;

impl Solver for AllSingular {
    fn forward(&self, _joints_deg: &JointVector) -> SolverPose {
        SolverPose { translation: [0, 0, 0], quat_xyzw: [0, 0, 0, 1] }
    }

    fn inverse_continuing(
        &self,
        _pose: &SolverPose,
        _seed_deg: &Option<JointVector>,
    ) -> Vec<JointVector> {
        vec![[1, 0, 0, 0, 0, 0], [2, 0, 0, 0, 0, 0]]
    }

    fn kinematic_singularity(&self, _joints_deg: &JointVector) -> bool {
        true
    }
}

#[test]
fn test_inverse_empty_when_all_singular() {
    let km = KinematicModel::new(0, 0, 0, 0, 0, 0, 0, (0, 0, 0, 0, 0, 0), (1, 1, 1, 1, 1, 1));
    let base = BaseConfig::new([0, 0, 0], [deg(1.0), 0, 0, 0]);
    let tool = ToolConfig::new([0, 0, 0], [deg(1.0), 0, 0, 0]);
    let robot = Robot::new(km, base, tool, AllSingular);
    let out = robot.inverse(([0, 0, 0], [1, 0, 0, 0]), None, Some([0, 0, 0, 0]));
    assert!(out.is_empty());
}
