//! The mounted robot: a kinematic model composed with a base transform and
//! a tool transform into one world/tool-frame forward / inverse interface.
//! The frame composition itself (world → base → flange → tool) is carried
//! out by the solver collaborator the robot was built with; this module
//! owns the conventions at the public boundary — degrees at the surface,
//! and the two distinct quaternion orderings — and the post-processing of
//! inverse candidates.

use vstd::prelude::*;
use crate::JointVector;
use crate::model::KinematicModel;
use crate::ranking::filter_and_rank;
use crate::solver::Solver;
use crate::solver::SolverPose;

verus! {

/// The placement of the robot's base in the world frame: translation in
/// nanometers, rotation quaternion ordered `[w, x, y, z]` in billionths.
/// The quaternion is expected to be of unit norm.
#[derive(Clone, Copy, Debug)]
pub struct BaseConfig {
    pub translation: [i64; 3],
    pub rotation: [i64; 4],
}

impl BaseConfig {
    pub fn new(translation: [i64; 3], rotation: [i64; 4]) -> (r: Self)
        ensures
            r.translation == translation,
            r.rotation == rotation,
    {
        BaseConfig { translation, rotation }
    }
}

/// The placement of the tool relative to the flange: translation in
/// nanometers, rotation quaternion ordered `[w, x, y, z]` in billionths.
/// The quaternion is expected to be of unit norm.
#[derive(Clone, Copy, Debug)]
pub struct ToolConfig {
    pub translation: [i64; 3],
    pub rotation: [i64; 4],
}

impl ToolConfig {
    pub fn new(translation: [i64; 3], rotation: [i64; 4]) -> (r: Self)
        ensures
            r.translation == translation,
            r.rotation == rotation,
    {
        ToolConfig { translation, rotation }
    }
}

/// Export a solver-frame pose at the public boundary: the translation is
/// passed through, and the quaternion is explicitly reordered from the
/// solver's `[x, y, z, w]` storage to the boundary order `[w, x, y, z]` —
/// a deliberate reordering, not a passthrough.
pub fn export_pose(native: &SolverPose) -> (r: ([i64; 3], [i64; 4]))
    ensures
        r.0@ == native.translation@,
        r.1@[0] == native.quat_xyzw@[3],
        r.1@[1] == native.quat_xyzw@[0],
        r.1@[2] == native.quat_xyzw@[1],
        r.1@[3] == native.quat_xyzw@[2],
{
    let t = [native.translation[0], native.translation[1], native.translation[2]];
    let q = [
        native.quat_xyzw[3],
        native.quat_xyzw[0],
        native.quat_xyzw[1],
        native.quat_xyzw[2],
    ];
    proof {
        assert(t@ =~= native.translation@);
    }
    (t, q)
}

/// Import a public-boundary pose for the solver: the translation is passed
/// through, and the quaternion, given at the boundary in the order
/// `[w, x, y, z]`, is reordered into the solver's `[x, y, z, w]` storage.
/// This input convention deliberately differs from the output convention
/// of [`export_pose`]; the two are separate and both are fixed.
pub fn import_pose(pose: &([i64; 3], [i64; 4])) -> (r: SolverPose)
    ensures
        r.translation@ == pose.0@,
        r.quat_xyzw@[0] == pose.1@[1],
        r.quat_xyzw@[1] == pose.1@[2],
        r.quat_xyzw@[2] == pose.1@[3],
        r.quat_xyzw@[3] == pose.1@[0],
{
    let t = [pose.0[0], pose.0[1], pose.0[2]];
    let q = [pose.1[1], pose.1[2], pose.1[3], pose.1[0]];
    proof {
        assert(t@ =~= pose.0@);
    }
    SolverPose { translation: t, quat_xyzw: q }
}

/// A mounted robot: one kinematic model, one base transform, one tool
/// transform, and the solver built from the three. Immutable after
/// construction; safe to share read-only.
pub struct Robot<S: Solver> {
    pub kinematic_model: KinematicModel,
    pub base_config: BaseConfig,
    pub tool_config: ToolConfig,
    pub solver: S,
}

impl<S: Solver> Robot<S> {
    /// Assemble a robot from its parts. The solver must have been built
    /// from this same model, base and tool; invalid geometry surfaces when
    /// the solver is built, never at call time.
    pub fn new(
        kinematic_model: KinematicModel,
        base_config: BaseConfig,
        tool_config: ToolConfig,
        solver: S,
    ) -> (r: Self)
        ensures
            r.kinematic_model == kinematic_model,
            r.base_config == base_config,
            r.tool_config == tool_config,
    {
        Robot { kinematic_model, base_config, tool_config, solver }
    }

    /// Forward kinematics: the world-frame pose of the tool for the given
    /// joints in degrees (nanodegrees). The translation is in nanometers;
    /// the quaternion is exported in the boundary order `[w, x, y, z]`
    /// (see [`export_pose`], which carries the proved reordering contract;
    /// the pose values themselves come from the opaque solver).
    pub fn forward(&self, joints: JointVector) -> (r: ([i64; 3], [i64; 4])) {
        let native = self.solver.forward(&joints);
        export_pose(&native)
    }

    /// The axis configuration `[cf1, cf4, cf6, cfx]` of a joint vector in
    /// degrees (nanodegrees), as defined by the industrial posture-code
    /// convention.
    pub fn axis_configuration(&self, joints: JointVector) -> (r: [i32; 4])
        ensures
            r@[0] as int == crate::classify::quadrant_spec(joints@[0] as int),
            r@[1] as int == crate::classify::quadrant_spec(joints@[3] as int),
            r@[2] as int == crate::classify::quadrant_spec(joints@[5] as int),
            r@[3] as int == crate::classify::cfx_spec(joints@),
    {
        crate::classify::axis_configuration(&joints)
    }

    /// Inverse kinematics: the candidate joint vectors (degrees) for a
    /// world-frame pose given as translation (nanometers) and quaternion
    /// ordered `[w, x, y, z]` (billionths). Continues from `current_joints`
    /// when given, else from the solver's canonical centered default seed.
    /// Candidates the solver flags as singular are dropped, and when
    /// `axis_configuration` is given the survivors whose cfx matches it
    /// come first, in enumeration order — the exact selection and ordering
    /// contract is stated and proved on
    /// [`filter_and_rank`](crate::ranking::filter_and_rank) over whatever
    /// candidates and flags the opaque solver produced. Pure: no side
    /// effects.
    pub fn inverse(
        &self,
        pose: ([i64; 3], [i64; 4]),
        current_joints: Option<JointVector>,
        axis_configuration: Option<[i32; 4]>,
    ) -> (r: Vec<JointVector>)
        ensures
            exists|cands: Seq<JointVector>, flags: Seq<bool>|
                #![auto]
                cands.len() == flags.len() && r@ == crate::ranking::rank_result(
                    cands,
                    flags,
                    axis_configuration,
                ),
    {
        let native = import_pose(&pose);
        let candidates = self.solver.inverse_continuing(&native, &current_joints);
        let mut flags: Vec<bool> = Vec::new();
        let n = candidates.len();
        for i in 0..n
            invariant
                n == candidates@.len(),
                flags@.len() == i as int,
        {
            flags.push(self.solver.kinematic_singularity(&candidates[i]));
        }
        let r = filter_and_rank(&candidates, &flags, axis_configuration);
        proof {
            assert(candidates@.len() == flags@.len() && r@ == crate::ranking::rank_result(
                candidates@,
                flags@,
                axis_configuration,
            ));
        }
        r
    }
}

} // verus!
