//! Verified orchestration layer for a mounted 6-axis robot.
//!
//! The library composes a kinematic model, a base transform and a tool
//! transform into one forward / inverse kinematics interface, classifies
//! inverse-kinematics branches with an industrial axis-configuration code,
//! ranks candidate solutions against a desired configuration, and applies
//! both directions row-wise over tabular batches with strict missing-value
//! propagation.
//!
//! All quantities are carried as fixed-point integers: one unit is one
//! nanodegree, one nanometer, or one billionth of a quaternion component.
//! The per-pose analytic trigonometric solving of the arm is delegated to an
//! opaque collaborator behind the [`solver::Solver`] trait; every decision
//! made around that collaborator is verified.

use vstd::prelude::*;

pub mod batch;
pub mod classify;
pub mod model;
pub mod ranking;
pub mod robot;
pub mod solver;
pub mod table;

verus! {

/// Fixed-point scale: sub-units per unit (nanodegrees per degree,
/// nanometers per meter, billionths per quaternion component).
pub const SCALE: i64 = 1_000_000_000;

/// Six joint angles, ordered J1 to J6. Degrees at this boundary, as
/// fixed-point nanodegrees.
pub type JointVector = [i64; 6];

} // verus!
