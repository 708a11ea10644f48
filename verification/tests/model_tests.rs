use opw_robot::model::KinematicModel;
use opw_robot::robot::export_pose;
use opw_robot::robot::import_pose;
use opw_robot::solver::SolverPose;
use opw_robot::table::extract_column;
use opw_robot::table::Column;
use opw_robot::table::Table;

#[test]
fn test_model_accessors_return_construction_values() {
    let km = KinematicModel::new(
        150_000_000,
        -110_000_000,
        0,
        486_500_000,
        700_000_000,
        678_000_000,
        135_000_000,
        (1, 2, 3, 4, 5, 6),
        (1, -1, 1, -1, 1, -1),
    );
    assert_eq!(km.a1(), 150_000_000);
    assert_eq!(km.a2(), -110_000_000);
    assert_eq!(km.b(), 0);
    assert_eq!(km.c1(), 486_500_000);
    assert_eq!(km.c2(), 700_000_000);
    assert_eq!(km.c3(), 678_000_000);
    assert_eq!(km.c4(), 135_000_000);
    assert_eq!(km.offsets(), vec![1, 2, 3, 4, 5, 6]);
    assert_eq!(km.sign_corrections(), vec![1, -1, 1, -1, 1, -1]);
}

#[test]
fn test_pose_export_reorders_quaternion() {
    let native = SolverPose { translation: [10, 20, 30], quat_xyzw: [1, 2, 3, 4] };
    let (translation, rotation) = export_pose(&native);
    assert_eq!(translation, [10, 20, 30]);
    // Native storage [x, y, z, w] comes out as [w, x, y, z].
    assert_eq!(rotation, [4, 1, 2, 3]);
}

#[test]
fn test_pose_import_reorders_quaternion() {
    // Boundary order [w, x, y, z] goes into native storage [x, y, z, w].
    let pose = ([10, 20, 30], [4, 1, 2, 3]);
    let native = import_pose(&pose);
    assert_eq!(native.translation, [10, 20, 30]);
    assert_eq!(native.quat_xyzw, [1, 2, 3, 4]);
}

#[test]
fn test_pose_conventions_compose() {
    // Exporting and re-importing a pose restores the native storage, so
    // forward's output can be handed straight back to inverse.
    let native = SolverPose { translation: [7, 8, 9], quat_xyzw: [11, 12, 13, 14] };
    let back = import_pose(&export_pose(&native));
    assert_eq!(back.translation, native.translation);
    assert_eq!(back.quat_xyzw, native.quat_xyzw);
}

#[test]
fn test_extract_column_matches_exact_name() {
    let t = Table {
        columns: vec![
            Column { name: "x".to_string(), cells: vec![Some(1)] },
            Column { name: "X".to_string(), cells: vec![Some(2)] },
            Column { name: "XX".to_string(), cells: vec![Some(3)] },
        ],
    };
    // Case-sensitive, exact match; the first matching column wins.
    let cells = extract_column(&t, &"X".to_string()).unwrap();
    assert_eq!(cells, vec![Some(2)]);
    let err = extract_column(&t, &"Y".to_string()).unwrap_err();
    assert_eq!(err.column, "Y");
}
