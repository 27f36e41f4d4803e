//! A leg for inverse kinematics: which joints of a skeleton are its hip,
//! knee, ankle and toe, and the three-link chain that is solved for them and
//! written back into a pose.

use crate::fabrik_solver::{lemma_solved_turns_only, solved, FabrikSolver, FabrikView};
use crate::glam_transform::Transform;
use crate::pose::Pose;
use crate::skeleton::Skeleton;
use crate::track::Track;
use glam::{Quat, Vec3};
use vstd::prelude::*;

verus! {

/// One of the four joints of a leg.
#[derive(Clone, Copy, Debug, PartialEq, Eq, Structural)]
pub enum LegJoint {
    Hip,
    Knee,
    Ankle,
    Toe,
}

/// The part that a joint of the given name plays in a leg whose joints bear
/// the names `hip`, `knee`, `ankle` and `toe`. Where two parts share a name,
/// the joint plays the one that comes first in that order.
pub open spec fn spec_role(
    name: Seq<char>,
    hip: Seq<char>,
    knee: Seq<char>,
    ankle: Seq<char>,
    toe: Seq<char>,
) -> Option<LegJoint> {
    if name == hip {
        Some(LegJoint::Hip)
    } else if name == knee {
        Some(LegJoint::Knee)
    } else if name == ankle {
        Some(LegJoint::Ankle)
    } else if name == toe {
        Some(LegJoint::Toe)
    } else {
        None
    }
}

/// The last of the first `upto` joints that plays `role`.
pub open spec fn spec_find(
    names: Seq<String>,
    upto: int,
    hip: Seq<char>,
    knee: Seq<char>,
    ankle: Seq<char>,
    toe: Seq<char>,
    role: LegJoint,
) -> Option<int>
    decreases upto,
{
    if upto <= 0 {
        None
    } else if spec_role(names[upto - 1]@, hip, knee, ankle, toe) == Some(role) {
        Some(upto - 1)
    } else {
        spec_find(names, upto - 1, hip, knee, ankle, toe, role)
    }
}

/// The first part, in the order hip, knee, ankle, toe, that none of the
/// first `upto` joints plays.
pub open spec fn spec_missing(
    names: Seq<String>,
    upto: int,
    hip: Seq<char>,
    knee: Seq<char>,
    ankle: Seq<char>,
    toe: Seq<char>,
) -> Option<LegJoint> {
    if spec_find(names, upto, hip, knee, ankle, toe, LegJoint::Hip).is_none() {
        Some(LegJoint::Hip)
    } else if spec_find(names, upto, hip, knee, ankle, toe, LegJoint::Knee).is_none() {
        Some(LegJoint::Knee)
    } else if spec_find(names, upto, hip, knee, ankle, toe, LegJoint::Ankle).is_none() {
        Some(LegJoint::Ankle)
    } else if spec_find(names, upto, hip, knee, ankle, toe, LegJoint::Toe).is_none() {
        Some(LegJoint::Toe)
    } else {
        None
    }
}

/// The solver's chain as a solve of the leg starts: the hip placed in the
/// model's space, and the knee and the ankle as the pose has them.
pub open spec fn spec_seeded<S>(
    solver: FabrikView<S>,
    model: Transform,
    pose: Pose,
    hip: int,
    knee: int,
    ankle: int,
) -> FabrikView<S> {
    FabrikView {
        chain: solver.chain.update(
            0,
            Transform::spec_combine(model, pose.spec_global_transform(hip)),
        ).update(1, pose@.joints[knee]).update(2, pose@.joints[ankle]),
        ..solver
    }
}

/// The solved hip link brought back into the space of the hip's parent.
pub open spec fn spec_hip_local(model: Transform, pose: Pose, hip: int, solved: Transform) -> Transform {
    Transform::spec_combine(
        Transform::spec_inverse(
            Transform::spec_combine(
                model,
                pose.spec_global_transform(pose@.parents[hip].unwrap() as int),
            ),
        ),
        solved,
    )
}

/// The joints of `pose` with a solved chain written back: the hip replaced
/// by the solved hip link in the space of the hip's parent, then the knee and
/// then the ankle by the solved knee and ankle links.
pub open spec fn spec_written(
    model: Transform,
    pose: Pose,
    hip: int,
    knee: int,
    ankle: int,
    chain: Seq<Transform>,
) -> Seq<Transform> {
    pose@.joints.update(hip, spec_hip_local(model, pose, hip, chain[0])).update(
        knee,
        chain[1],
    ).update(ankle, chain[2])
}

/// A leg of a skeleton. `pin_track` says, over one walk cycle, how firmly
/// the foot is planted; `ik_pose` is the pose the last solve left;
/// `ankle_to_ground_offset` is how high the ankle stands above the sole.
pub struct IkLeg<S> {
    pub pin_track: Track<S>,
    pub solver: FabrikSolver<S>,
    pub ik_pose: Pose,
    pub hip_index: usize,
    pub knee_index: usize,
    pub ankle_index: usize,
    pub toe_index: usize,
    pub ankle_to_ground_offset: S,
}

impl<S: Copy> IkLeg<S> {
    /// Whether the leg's chain has its three links: hip, knee and ankle.
    pub open spec fn wf(&self) -> bool {
        self.solver@.chain.len() == 3
    }

    /// The leg whose joints bear the given names in `skeleton`. Where
    /// several joints bear a name, the last one is taken. Fails with the
    /// first part, in the order hip, knee, ankle, toe, that no joint plays.
    ///
    /// The leg's solver takes a goal for reached within `threshold` of it
    /// and gives up after 15 rounds; `zero` is the length zero.
    pub fn new(
        hip: &str,
        knee: &str,
        ankle: &str,
        toe: &str,
        ankle_to_ground_offset: S,
        skeleton: &Skeleton,
        threshold: S,
        zero: S,
    ) -> (r: Result<Self, LegJoint>)
        requires
            skeleton@.rest_pose@.joints.len() <= skeleton@.joint_names.len(),
        ensures
            ({
                let names = skeleton@.joint_names;
                let n = skeleton@.rest_pose@.joints.len() as int;
                match r {
                    Ok(leg) => {
                        &&& spec_missing(names, n, hip@, knee@, ankle@, toe@).is_none()
                        &&& Some(leg.hip_index as int) == spec_find(
                            names,
                            n,
                            hip@,
                            knee@,
                            ankle@,
                            toe@,
                            LegJoint::Hip,
                        )
                        &&& Some(leg.knee_index as int) == spec_find(
                            names,
                            n,
                            hip@,
                            knee@,
                            ankle@,
                            toe@,
                            LegJoint::Knee,
                        )
                        &&& Some(leg.ankle_index as int) == spec_find(
                            names,
                            n,
                            hip@,
                            knee@,
                            ankle@,
                            toe@,
                            LegJoint::Ankle,
                        )
                        &&& Some(leg.toe_index as int) == spec_find(
                            names,
                            n,
                            hip@,
                            knee@,
                            ankle@,
                            toe@,
                            LegJoint::Toe,
                        )
                        &&& leg.ankle_to_ground_offset == ankle_to_ground_offset
                        &&& leg.wf()
                        &&& leg.solver@.num_steps == 15
                        &&& leg.solver@.threshold == threshold
                        &&& leg.solver@.zero == zero
                        &&& leg.pin_track.frames@.len() == 0
                        &&& leg.ik_pose@.joints.len() == 0
                        &&& leg.ik_pose@.parents.len() == 0
                    },
                    Err(missing) => spec_missing(names, n, hip@, knee@, ankle@, toe@) == Some(
                        missing,
                    ),
                }
            }),
    {
        let mut solver = FabrikSolver::new(threshold, zero);
        solver.resize(3);
        let hip_name = hip.to_owned();
        let knee_name = knee.to_owned();
        let ankle_name = ankle.to_owned();
        let toe_name = toe.to_owned();
        let mut hip_index: Option<usize> = None;
        let mut knee_index: Option<usize> = None;
        let mut ankle_index: Option<usize> = None;
        let mut toe_index: Option<usize> = None;
        let n = skeleton.rest_pose().len();
        let ghost names = skeleton@.joint_names;
        let mut i: usize = 0;
        while i < n
            invariant
                n <= names.len(),
                names == skeleton@.joint_names,
                i <= n,
                hip_name@ == hip@,
                knee_name@ == knee@,
                ankle_name@ == ankle@,
                toe_name@ == toe@,
                found(hip_index) == spec_find(names, i as int, hip@, knee@, ankle@, toe@, LegJoint::Hip),
                found(knee_index) == spec_find(
                    names,
                    i as int,
                    hip@,
                    knee@,
                    ankle@,
                    toe@,
                    LegJoint::Knee,
                ),
                found(ankle_index) == spec_find(
                    names,
                    i as int,
                    hip@,
                    knee@,
                    ankle@,
                    toe@,
                    LegJoint::Ankle,
                ),
                found(toe_index) == spec_find(names, i as int, hip@, knee@, ankle@, toe@, LegJoint::Toe),
            decreases n - i,
        {
            if skeleton.joint_is_named(i, &hip_name) {
                hip_index = Some(i);
            } else if skeleton.joint_is_named(i, &knee_name) {
                knee_index = Some(i);
            } else if skeleton.joint_is_named(i, &ankle_name) {
                ankle_index = Some(i);
            } else if skeleton.joint_is_named(i, &toe_name) {
                toe_index = Some(i);
            }
            i += 1;
        }
        match (hip_index, knee_index, ankle_index, toe_index) {
            (None, _, _, _) => Err(LegJoint::Hip),
            (Some(_), None, _, _) => Err(LegJoint::Knee),
            (Some(_), Some(_), None, _) => Err(LegJoint::Ankle),
            (Some(_), Some(_), Some(_), None) => Err(LegJoint::Toe),
            (Some(hip_index), Some(knee_index), Some(ankle_index), Some(toe_index)) => Ok(
                Self {
                    pin_track: Track::new(),
                    solver,
                    ik_pose: Pose::new(),
                    hip_index,
                    knee_index,
                    ankle_index,
                    toe_index,
                    ankle_to_ground_offset,
                },
            ),
        }
    }

    /// Whether the leg's chain has its three links.
    pub fn is_well_formed(&self) -> (r: bool)
        ensures
            r == self.wf(),
    {
        self.solver.len() == 3
    }

    /// Solves the leg in `pose` for the sole to come to
    /// `ankle_target_position`, and leaves the result in `ik_pose`.
    ///
    /// The target of the ankle is what `lift` makes of that position and the
    /// height of the ankle above the sole. The chain is seeded with the hip
    /// placed in the space of `model`, and the knee and the ankle as `pose`
    /// has them, and solved for the target. `ik_pose` becomes `pose` with
    /// the hip replaced by the solved hip link brought back into the space
    /// of the hip's parent, then the knee and then the ankle replaced by the
    /// solved knee and ankle links.
    pub fn solve<L, D, R, P, Q>(
        &mut self,
        model: &Transform,
        pose: &Pose,
        ankle_target_position: Vec3,
        lift: &L,
        distance: &D,
        reached: &R,
        place: &P,
        from_to: &Q,
    ) where
        L: Fn(Vec3, S) -> Vec3,
        D: Fn(Vec3, Vec3) -> S,
        R: Fn(Vec3, Vec3, S) -> bool,
        P: Fn(Vec3, Vec3, S) -> Vec3,
        Q: Fn(Vec3, Vec3) -> Quat,

        requires
            old(self).wf(),
            pose.wf(),
            old(self).hip_index < pose@.joints.len(),
            old(self).knee_index < pose@.joints.len(),
            old(self).ankle_index < pose@.joints.len(),
            pose@.parents[old(self).hip_index as int].is_some(),
            forall|a: Vec3, l: S| call_requires(*lift, (a, l)),
            forall|a: Vec3, b: Vec3| call_requires(*distance, (a, b)),
            forall|a: Vec3, b: Vec3, l: S| call_requires(*reached, (a, b, l)),
            forall|a: Vec3, b: Vec3, l: S| call_requires(*place, (a, b, l)),
            forall|a: Vec3, b: Vec3| call_requires(*from_to, (a, b)),
        ensures
            final(self).pin_track == old(self).pin_track,
            final(self).hip_index == old(self).hip_index,
            final(self).knee_index == old(self).knee_index,
            final(self).ankle_index == old(self).ankle_index,
            final(self).toe_index == old(self).toe_index,
            final(self).ankle_to_ground_offset == old(self).ankle_to_ground_offset,
            final(self).wf(),
            exists|target: Vec3, r: bool|
                {
                    &&& call_ensures(
                        *lift,
                        (ankle_target_position, old(self).ankle_to_ground_offset),
                        target,
                    )
                    &&& #[trigger] solved(
                        spec_seeded(
                            old(self).solver@,
                            *model,
                            *pose,
                            old(self).hip_index as int,
                            old(self).knee_index as int,
                            old(self).ankle_index as int,
                        ),
                        target,
                        *distance,
                        *reached,
                        *place,
                        *from_to,
                        r,
                        final(self).solver@,
                    )
                },
            final(self).ik_pose@.parents == pose@.parents,
            final(self).ik_pose@.joints == spec_written(
                *model,
                *pose,
                old(self).hip_index as int,
                old(self).knee_index as int,
                old(self).ankle_index as int,
                final(self).solver@.chain,
            ),
    {
        self.solver.set_local_transform(0, model.combine(&pose.global_transform(self.hip_index)));
        self.solver.set_local_transform(1, *pose.local_transform(self.knee_index));
        self.solver.set_local_transform(2, *pose.local_transform(self.ankle_index));
        self.ik_pose = pose.clone();
        let ghost seeded = self.solver@;
        proof {
            assert(seeded == spec_seeded(
                old(self).solver@,
                *model,
                *pose,
                old(self).hip_index as int,
                old(self).knee_index as int,
                old(self).ankle_index as int,
            ));
        }
        let target = lift(ankle_target_position, self.ankle_to_ground_offset);
        let r = self.solver.solve(target, distance, reached, place, from_to);
        proof {
            lemma_solved_turns_only(
                seeded,
                target,
                *distance,
                *reached,
                *place,
                *from_to,
                r,
                self.solver@,
            );
        }
        let hip_parent = match pose.parent(self.hip_index) {
            Some(p) => p,
            None => self.hip_index,
        };
        proof {
            pose.lemma_global_transform(self.hip_index as int);
        }
        let root_world = model.combine(&pose.global_transform(hip_parent));
        self.ik_pose.set_local_transform(
            self.hip_index,
            root_world.inverse().combine(self.solver.local_transform(0)),
        );
        self.ik_pose.set_local_transform(self.knee_index, *self.solver.local_transform(1));
        self.ik_pose.set_local_transform(self.ankle_index, *self.solver.local_transform(2));
        proof {
            assert(call_ensures(
                *lift,
                (ankle_target_position, old(self).ankle_to_ground_offset),
                target,
            ));
            assert(solved(
                spec_seeded(
                    old(self).solver@,
                    *model,
                    *pose,
                    old(self).hip_index as int,
                    old(self).knee_index as int,
                    old(self).ankle_index as int,
                ),
                target,
                *distance,
                *reached,
                *place,
                *from_to,
                r,
                self.solver@,
            ));
        }
    }
}

/// An index that may be missing, as a mathematical integer.
pub open spec fn found(index: Option<usize>) -> Option<int> {
    match index {
        Some(i) => Some(i as int),
        None => None,
    }
}

} // verus!
