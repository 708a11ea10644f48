//! The analytic per-pose solver, an opaque external collaborator. The
//! closed-form trigonometric solving of the arm is not done here: a `Solver`
//! is built outside the library from a [`crate::model::KinematicModel`] and
//! the base and tool transforms, and every call is answered by that outside
//! code. The library states nothing about the values a `Solver` returns;
//! every guarantee is proved over whatever comes back.

use vstd::prelude::*;
use crate::JointVector;

verus! {

/// A pose in the solver's native frame and native storage order:
/// translation in nanometers, rotation quaternion stored `[x, y, z, w]`
/// in billionths.
pub struct SolverPose {
    pub translation: [i64; 3],
    pub quat_xyzw: [i64; 4],
}

/// The contract surface of the external solver collaborator. Angles cross
/// this boundary in degrees (fixed-point nanodegrees); the implementation
/// converts to its internal radians — the conversion is mandatory at every
/// crossing.
pub trait Solver {
    /// Forward kinematics: the pose of the tool for the given joints, in the
    /// solver's native frame and storage order.
    fn forward(&self, joints_deg: &JointVector) -> SolverPose;

    /// Multi-branch inverse kinematics: the ordered candidate joint vectors
    /// for the given pose, continuing from the seed. `None` stands for the
    /// solver's own canonical centered default seed, used whenever no caller
    /// seed is supplied. The list may be empty; its order must be preserved
    /// downstream.
    fn inverse_continuing(&self, pose: &SolverPose, seed_deg: &Option<JointVector>) -> Vec<
        JointVector,
    >;

    /// Whether the solver flags the given joint vector as a kinematic
    /// singularity.
    fn kinematic_singularity(&self, joints_deg: &JointVector) -> bool;
}

} // verus!
