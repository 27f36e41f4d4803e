//! A pose: one local transform per joint, and each joint's parent.

use crate::glam_ops::{
    mat4_mul, mat4_product, quat_inverse, quat_inverted, quat_mul, quat_negated, quat_product,
    vec3_add,
    vec3_difference, vec3_sub, vec3_sum,
};
use crate::clip::Clip;
use crate::glam_transform::Transform;
use crate::skeleton::Skeleton;
use crate::time::Time;
use crate::track::Track;
use glam::{Mat4, Quat, Vec3};
use vstd::prelude::*;

verus! {

/// Whether the walk from `joint` towards the root stays inside the hierarchy
/// and ends at a joint without a parent after at most `fuel` steps.
pub open spec fn reaches_root(parents: Seq<Option<usize>>, joint: int, fuel: nat) -> bool
    decreases fuel,
{
    &&& 0 <= joint < parents.len()
    &&& match parents[joint] {
        None => true,
        Some(p) => fuel > 0 && reaches_root(parents, p as int, (fuel - 1) as nat),
    }
}

/// Whether the parent links form a forest: every parent is a joint of the
/// hierarchy and no joint is its own ancestor. In a hierarchy of `n` joints
/// that is to say that every walk towards the root ends within `n` steps.
pub open spec fn is_forest(parents: Seq<Option<usize>>) -> bool {
    forall|joint: int| 0 <= joint < parents.len() ==> reaches_root(parents, joint, parents.len())
}

/// The transform of `joint` relative to the space its root lives in, as far
/// as `fuel` steps up the hierarchy reach: the parent's such transform
/// combined with the joint's local one.
pub open spec fn global_within(
    joints: Seq<Transform>,
    parents: Seq<Option<usize>>,
    joint: int,
    fuel: nat,
) -> Transform
    decreases fuel,
{
    match parents[joint] {
        Some(p) if fuel > 0 => Transform::spec_combine(
            global_within(joints, parents, p as int, (fuel - 1) as nat),
            joints[joint],
        ),
        _ => joints[joint],
    }
}

/// Whether `search` is `root` or has `root` among the first `fuel` joints
/// above it.
pub open spec fn in_hierarchy_within(
    parents: Seq<Option<usize>>,
    root: int,
    search: int,
    fuel: nat,
) -> bool
    decreases fuel,
{
    search == root || match parents[search] {
        Some(p) if fuel > 0 => in_hierarchy_within(parents, root, p as int, (fuel - 1) as nat),
        _ => false,
    }
}

/// Whether `search` is `root` or a descendant of it.
pub open spec fn in_hierarchy(parents: Seq<Option<usize>>, root: int, search: int) -> bool {
    in_hierarchy_within(parents, root, search, parents.len())
}

/// Whether an operation restricted to the hierarchy under `blend_root`
/// touches `joint`: every joint where there is no restriction.
pub open spec fn selected(
    parents: Seq<Option<usize>>,
    blend_root: Option<usize>,
    joint: int,
) -> bool {
    match blend_root {
        None => true,
        Some(root) => in_hierarchy(parents, root as int, joint),
    }
}

/// Whether `q` holds the joints of `p` stored in another order: joint `i` of
/// `p` is joint `s[i]` of `q`, with the same local transform and with the
/// joint that its parent has become for its parent. A permutation `s` of the
/// joints of `p` gives such a `q`.
pub open spec fn reordered(p: PoseView, s: Seq<usize>, q: PoseView) -> bool {
    &&& s.len() == p.joints.len()
    &&& q.joints.len() == p.joints.len()
    &&& q.parents.len() == p.parents.len()
    &&& forall|i: int|
        0 <= i < s.len() ==> {
            &&& (#[trigger] s[i]) < q.joints.len()
            &&& q.joints[s[i] as int] == p.joints[i]
            &&& q.parents[s[i] as int] == (match p.parents[i] {
                None => None,
                Some(parent) => Some(s[parent as int]),
            })
        }
}

/// Whether `after` is `before` blended: each joint that the restriction
/// selects is a blend of that joint in `a` and in `b` (see
/// [`Transform::mixed`]), every other joint is as it was, and so is the
/// hierarchy.
pub open spec fn blended<V: Fn(Vec3, Vec3) -> Vec3, Q: Fn(Quat, Quat) -> Quat>(
    before: PoseView,
    a: PoseView,
    b: PoseView,
    lerp_vec3: V,
    lerp_quat: Q,
    blend_root: Option<usize>,
    after: PoseView,
) -> bool {
    &&& after.parents == before.parents
    &&& after.joints.len() == before.joints.len()
    &&& forall|i: int|
        0 <= i < before.joints.len() ==> if selected(before.parents, blend_root, i) {
            Transform::mixed(a.joints[i], b.joints[i], lerp_vec3, lerp_quat, #[trigger] after.joints[i])
        } else {
            after.joints[i] == before.joints[i]
        }
}

/// The first joint whose parent comes after it, looking from `from` on; the
/// number of joints if there is none.
pub open spec fn first_unordered(parents: Seq<Option<usize>>, from: int) -> int
    decreases parents.len() - from,
{
    if from < 0 || from >= parents.len() {
        parents.len() as int
    } else {
        match parents[from] {
            Some(p) if p > from => from,
            _ => first_unordered(parents, from + 1),
        }
    }
}

/// `local` turned by `rotator`, a rotation in the space in which the joint
/// has rotation `world_rotation`: the rotation is multiplied, on the right,
/// by `rotator` carried from that space into the joint's own.
pub open spec fn spec_turned(local: Transform, world_rotation: Quat, rotator: Quat) -> Transform {
    Transform {
        rotation: quat_product(
            local.rotation,
            quat_product(quat_inverted(world_rotation), quat_product(rotator, world_rotation)),
        ),
        ..local
    }
}

/// `input` with the difference between `additive` and `base` laid on top:
/// translations and scales add the difference, the rotation is multiplied by
/// the rotation that leads from `base` to `additive`.
pub open spec fn spec_additive(input: Transform, additive: Transform, base: Transform) -> Transform {
    Transform {
        translation: vec3_sum(
            input.translation,
            vec3_difference(additive.translation, base.translation),
        ),
        rotation: quat_product(
            input.rotation,
            quat_product(quat_inverted(base.rotation), additive.rotation),
        ),
        scale: vec3_sum(input.scale, vec3_difference(additive.scale, base.scale)),
    }
}

/// What a pose holds.
pub struct PoseView {
    pub joints: Seq<Transform>,
    pub parents: Seq<Option<usize>>,
}

/// The local transforms of a skeleton's joints, with the hierarchy that
/// relates them. A joint's index is its id; `parents[i]` is the id of joint
/// `i`'s parent, if it has one. Parents may be stored before or after their
/// children.
#[derive(Debug, PartialEq)]
pub struct Pose {
    joints: Vec<Transform>,
    parents: Vec<Option<usize>>,
}

impl View for Pose {
    type V = PoseView;

    closed spec fn view(&self) -> PoseView {
        PoseView { joints: self.joints@, parents: self.parents@ }
    }
}

impl Clone for Pose {
    fn clone(&self) -> (r: Self)
        ensures
            r@ == self@,
    {
        let mut joints: Vec<Transform> = Vec::new();
        let mut i: usize = 0;
        while i < self.joints.len()
            invariant
                i <= self.joints.len(),
                joints@ == self.joints@.take(i as int),
            decreases self.joints.len() - i,
        {
            joints.push(self.joints[i]);
            i += 1;
        }
        let mut parents: Vec<Option<usize>> = Vec::new();
        let mut k: usize = 0;
        while k < self.parents.len()
            invariant
                k <= self.parents.len(),
                parents@ == self.parents@.take(k as int),
            decreases self.parents.len() - k,
        {
            parents.push(self.parents[k]);
            k += 1;
        }
        assert(joints@ == self.joints@);
        assert(parents@ == self.parents@);
        Pose { joints, parents }
    }
}

impl Pose {
    /// Whether the pose is one of a skeleton: as many parent entries as
    /// joints, and the parent links a forest.
    pub open spec fn wf(&self) -> bool {
        &&& self@.joints.len() == self@.parents.len()
        &&& is_forest(self@.parents)
    }

    /// The transform of `joint` relative to the space its root lives in.
    pub open spec fn spec_global_transform(&self, joint: int) -> Transform {
        global_within(self@.joints, self@.parents, joint, self@.parents.len())
    }

    /// The number of leading joints that the single forward pass of
    /// [`Pose::matrix_palette`] covers: those before the first joint whose
    /// parent comes after it.
    pub open spec fn ordered_prefix(&self) -> int {
        first_unordered(self@.parents, 0)
    }

    /// The matrix that [`Pose::matrix_palette`] holds for `joint`. Within the
    /// ordered prefix it is the parent's matrix times the joint's local
    /// matrix; from there on it is the matrix of the joint's global
    /// transform.
    pub open spec fn spec_palette(&self, joint: int) -> Mat4
        decreases joint,
    {
        if 0 <= joint < self.ordered_prefix() {
            match self@.parents[joint] {
                Some(p) if p < joint => mat4_product(
                    self.spec_palette(p as int),
                    Transform::spec_matrix(self@.joints[joint]),
                ),
                _ => Transform::spec_matrix(self@.joints[joint]),
            }
        } else {
            Transform::spec_matrix(self.spec_global_transform(joint))
        }
    }

    /// A pose without joints.
    pub fn new() -> (r: Self)
        ensures
            r@.joints.len() == 0,
            r@.parents.len() == 0,
    {
        Self { joints: Vec::new(), parents: Vec::new() }
    }

    /// The pose that an additive clip's differences are taken from: the
    /// skeleton's rest pose with the clip sampled into it at the clip's
    /// start. `fold` brings a playback time into a stretch of time; the
    /// samplers evaluate a track at an instant.
    pub fn make_additive<W, V, Q>(
        skeleton: &Skeleton,
        clip: &Clip,
        fold: &W,
        sample_vec3: &V,
        sample_quat: &Q,
    ) -> (r: Self) where
        W: Fn(Time, Time, Time) -> Time,
        V: Fn(&Track<Vec3>, Time, bool) -> Vec3,
        Q: Fn(&Track<Quat>, Time, bool) -> Quat,

        requires
            clip@.start_time@ != clip@.end_time@ ==> clip.spec_animates_within(
                skeleton@.rest_pose@.joints.len() as int,
            ),
            forall|a: Time, b: Time, c: Time| call_requires(*fold, (a, b, c)),
            forall|track: &Track<Vec3>, at: Time, l: bool|
                call_requires(*sample_vec3, (track, at, l)),
            forall|track: &Track<Quat>, at: Time, l: bool|
                call_requires(*sample_quat, (track, at, l)),
        ensures
            exists|at: Time| #[trigger]
                clip.samples_into(
                    skeleton@.rest_pose@,
                    clip@.start_time,
                    *fold,
                    *sample_vec3,
                    *sample_quat,
                    at,
                    r@,
                ),
    {
        let mut result = skeleton.rest_pose().clone();
        let at = clip.sample(&mut result, clip.start_time(), fold, sample_vec3, sample_quat);
        proof {
            assert(clip.samples_into(
                skeleton@.rest_pose@,
                clip@.start_time,
                *fold,
                *sample_vec3,
                *sample_quat,
                at,
                result@,
            ));
        }
        result
    }

    /// The number of joints.
    pub fn len(&self) -> (r: usize)
        ensures
            r == self@.joints.len(),
    {
        self.joints.len()
    }

    /// The number of parent entries, which in a pose of a skeleton is the
    /// number of joints.
    pub fn parents_len(&self) -> (r: usize)
        ensures
            r == self@.parents.len(),
    {
        self.parents.len()
    }

    /// The transform of joint `idx` relative to its parent.
    pub fn local_transform(&self, idx: usize) -> (r: &Transform)
        requires
            idx < self@.joints.len(),
        ensures
            *r == self@.joints[idx as int],
    {
        &self.joints[idx]
    }

    /// Sets the transform of joint `idx` relative to its parent.
    pub fn set_local_transform(&mut self, idx: usize, tf: Transform)
        requires
            idx < old(self)@.joints.len(),
        ensures
            final(self)@.joints == old(self)@.joints.update(idx as int, tf),
            final(self)@.parents == old(self)@.parents,
    {
        self.joints.set(idx, tf);
    }

    /// Appends a joint's local transform. Its parent entry is appended by
    /// [`Pose::add_parent`].
    pub fn add_local_transform(&mut self, tf: Transform)
        ensures
            final(self)@.joints == old(self)@.joints.push(tf),
            final(self)@.parents == old(self)@.parents,
    {
        self.joints.push(tf);
    }

    /// The parent of joint `idx`, if it has one.
    pub fn parent(&self, idx: usize) -> (r: Option<usize>)
        requires
            idx < self@.parents.len(),
        ensures
            r == self@.parents[idx as int],
    {
        self.parents[idx]
    }

    /// Makes `parent` the parent of joint `idx`.
    pub fn set_parent(&mut self, idx: usize, parent: usize)
        requires
            idx < old(self)@.parents.len(),
        ensures
            final(self)@.parents == old(self)@.parents.update(idx as int, Some(parent)),
            final(self)@.joints == old(self)@.joints,
    {
        self.parents.set(idx, Some(parent));
    }

    /// Makes joint `idx` a root.
    pub fn unset_parent(&mut self, idx: usize)
        requires
            idx < old(self)@.parents.len(),
        ensures
            final(self)@.parents == old(self)@.parents.update(idx as int, None),
            final(self)@.joints == old(self)@.joints,
    {
        self.parents.set(idx, None);
    }

    /// Appends a joint's parent entry.
    pub fn add_parent(&mut self, parent: Option<usize>)
        ensures
            final(self)@.parents == old(self)@.parents.push(parent),
            final(self)@.joints == old(self)@.joints,
    {
        self.parents.push(parent);
    }

    /// Turns joint `idx` by `rotator`, a rotation in the space in which the
    /// joint has rotation `world_rotation`.
    pub fn turn_in_world(&mut self, idx: usize, world_rotation: Quat, rotator: Quat)
        requires
            idx < old(self)@.joints.len(),
        ensures
            final(self)@.joints == old(self)@.joints.update(
                idx as int,
                spec_turned(old(self)@.joints[idx as int], world_rotation, rotator),
            ),
            final(self)@.parents == old(self)@.parents,
    {
        let local = self.joints[idx];
        let world_rotated = quat_mul(rotator, world_rotation);
        let local_rotated = quat_mul(quat_inverse(world_rotation), world_rotated);
        let turned = Transform {
            translation: local.translation,
            rotation: quat_mul(local.rotation, local_rotated),
            scale: local.scale,
        };
        self.joints.set(idx, turned);
    }

    /// Whether the walk from `joint` towards the root ends at a root without
    /// leaving the hierarchy or running in a circle.
    fn climbs_to_root(&self, joint: usize) -> (r: bool)
        ensures
            r == reaches_root(self@.parents, joint as int, self@.parents.len()),
    {
        let n = self.parents.len();
        let mut cur = joint;
        let mut fuel = n;
        loop
            invariant
                n == self.parents@.len(),
                fuel <= n,
                reaches_root(self@.parents, joint as int, n as nat) == reaches_root(
                    self@.parents,
                    cur as int,
                    fuel as nat,
                ),
            decreases fuel,
        {
            if cur >= n {
                return false;
            }
            match self.parents[cur] {
                None => {
                    return true;
                },
                Some(p) => {
                    if fuel == 0 {
                        return false;
                    }
                    cur = p;
                    fuel -= 1;
                },
            }
        }
    }

    /// Whether the pose is one of a skeleton (see [`Pose::wf`]).
    pub fn is_well_formed(&self) -> (r: bool)
        ensures
            r == self.wf(),
    {
        if self.joints.len() != self.parents.len() {
            return false;
        }
        let n = self.parents.len();
        let mut j: usize = 0;
        while j < n
            invariant
                n == self.parents@.len(),
                j <= n,
                forall|k: int| 0 <= k < j ==> reaches_root(self@.parents, k, n as nat),
            decreases n - j,
        {
            if !self.climbs_to_root(j) {
                return false;
            }
            j += 1;
        }
        true
    }

    /// The transform of joint `idx` relative to the space its root lives in:
    /// the local transforms from the root down to the joint, combined from
    /// the root on.
    pub fn global_transform(&self, idx: usize) -> (r: Transform)
        requires
            self.wf(),
            idx < self@.joints.len(),
        ensures
            r == self.spec_global_transform(idx as int),
    {
        let ghost n = self@.parents.len();
        let mut chain: Vec<usize> = Vec::new();
        chain.push(idx);
        let mut cur = idx;
        let ghost mut fuel: nat = n;
        loop
            invariant
                n == self@.parents.len(),
                self@.joints.len() == n,
                chain@.len() >= 1,
                chain@[0] == idx,
                chain@[chain@.len() - 1] == cur,
                forall|m: int| 0 <= m < chain@.len() ==> (#[trigger] chain@[m]) < n,
                forall|m: int|
                    0 <= m < chain@.len() - 1 ==> self@.parents[(#[trigger] chain@[m]) as int]
                        == Some(chain@[m + 1]),
                reaches_root(self@.parents, cur as int, fuel),
            ensures
                n == self@.parents.len(),
                chain@.len() >= 1,
                chain@[0] == idx,
                forall|m: int| 0 <= m < chain@.len() ==> (#[trigger] chain@[m]) < n,
                forall|m: int|
                    0 <= m < chain@.len() - 1 ==> self@.parents[(#[trigger] chain@[m]) as int]
                        == Some(chain@[m + 1]),
                self@.parents[chain@[chain@.len() - 1] as int].is_none(),
            decreases fuel,
        {
            match self.parents[cur] {
                None => {
                    break ;
                },
                Some(p) => {
                    proof {
                        fuel = (fuel - 1) as nat;
                        assert(reaches_root(self@.parents, p as int, fuel));
                    }
                    chain.push(p);
                    cur = p;
                },
            }
        }
        let mut k: usize = chain.len() - 1;
        let mut acc: Transform = self.joints[chain[k]];
        proof {
            self.lemma_global_transform(chain@[k as int] as int);
        }
        while k > 0
            invariant
                self.wf(),
                n == self@.parents.len(),
                k < chain@.len(),
                forall|m: int| 0 <= m < chain@.len() ==> (#[trigger] chain@[m]) < n,
                forall|m: int|
                    0 <= m < chain@.len() - 1 ==> self@.parents[(#[trigger] chain@[m]) as int]
                        == Some(chain@[m + 1]),
                acc == self.spec_global_transform(chain@[k as int] as int),
            decreases k,
        {
            k -= 1;
            proof {
                self.lemma_global_transform(chain@[k as int] as int);
            }
            acc = acc.combine(&self.joints[chain[k]]);
        }
        acc
    }

    /// One global matrix per joint. The joints up to the first whose parent
    /// is stored after it are done in one forward pass, each from its
    /// parent's matrix; the others from their global transforms.
    pub fn matrix_palette(&self) -> (r: Vec<Mat4>)
        requires
            self.wf(),
        ensures
            r@.len() == self@.joints.len(),
            forall|j: int| 0 <= j < r@.len() ==> r@[j] == self.spec_palette(j),
    {
        let n = self.joints.len();
        let mut result: Vec<Mat4> = Vec::new();
        let mut j: usize = 0;
        while j < n
            invariant
                self.wf(),
                n == self@.joints.len(),
                j <= n,
                result@.len() == j,
                first_unordered(self@.parents, 0) == first_unordered(self@.parents, j as int),
                forall|k: int| 0 <= k < j ==> result@[k] == self.spec_palette(k),
            ensures
                j <= n,
                result@.len() == j,
                j == self.ordered_prefix(),
                forall|k: int| 0 <= k < j ==> result@[k] == self.spec_palette(k),
            decreases n - j,
        {
            let parent_index = self.parents[j];
            let local: Mat4 = self.joints[j].to_matrix();
            match parent_index {
                Some(p) => {
                    if p > j {
                        break ;
                    }
                    proof {
                        lemma_no_self_parent(self@.parents, j as int, n as nat);
                        lemma_first_unordered_bounds(self@.parents, j + 1);
                        assert(first_unordered(self@.parents, j as int) == first_unordered(
                            self@.parents,
                            j + 1,
                        ));
                        assert(j < self.ordered_prefix());
                        assert(self.spec_palette(j as int) == mat4_product(
                            self.spec_palette(p as int),
                            Transform::spec_matrix(self@.joints[j as int]),
                        ));
                    }
                    result.push(mat4_mul(result[p], local));
                },
                None => {
                    proof {
                        lemma_first_unordered_bounds(self@.parents, j + 1);
                        assert(first_unordered(self@.parents, j as int) == first_unordered(
                            self@.parents,
                            j + 1,
                        ));
                        assert(self.spec_palette(j as int) == Transform::spec_matrix(
                            self@.joints[j as int],
                        ));
                    }
                    result.push(local);
                },
            }
            j += 1;
        }
        while j < n
            invariant
                self.wf(),
                n == self@.joints.len(),
                self.ordered_prefix() <= j <= n,
                result@.len() == j,
                forall|k: int| 0 <= k < j ==> result@[k] == self.spec_palette(k),
            decreases n - j,
        {
            result.push(self.global_transform(j).to_matrix());
            j += 1;
        }
        result
    }

    /// Whether `search` is `parent` or a descendant of it.
    pub fn is_in_hierarchy(&self, parent: usize, search: usize) -> (r: bool)
        requires
            self.wf(),
            search < self@.joints.len(),
        ensures
            r == in_hierarchy(self@.parents, parent as int, search as int),
    {
        if search == parent {
            return true;
        }
        let ghost n = self@.parents.len();
        let mut current_parent = search;
        let ghost mut fuel: nat = n;
        loop
            invariant
                n == self@.parents.len(),
                current_parent != parent,
                reaches_root(self@.parents, current_parent as int, fuel),
                in_hierarchy(self@.parents, parent as int, search as int) == in_hierarchy_within(
                    self@.parents,
                    parent as int,
                    current_parent as int,
                    fuel,
                ),
            decreases fuel,
        {
            match self.parents[current_parent] {
                None => {
                    return false;
                },
                Some(new_parent) => {
                    proof {
                        fuel = (fuel - 1) as nat;
                        assert(reaches_root(self@.parents, new_parent as int, fuel));
                        assert(in_hierarchy_within(
                            self@.parents,
                            parent as int,
                            new_parent as int,
                            fuel,
                        ) == in_hierarchy(self@.parents, parent as int, search as int));
                    }
                    if new_parent == parent {
                        return true;
                    }
                    current_parent = new_parent;
                },
            }
        }
    }

    /// Sets each joint to the blend of that joint in `a` and in `b`, the
    /// rotation taken the short way round. With a `blend_root`, only the
    /// joints of the hierarchy under it are set; the others keep their
    /// transforms. `lerp_vec3` and `lerp_quat` go some of the way from their
    /// first argument to their second.
    pub fn blend<V: Fn(Vec3, Vec3) -> Vec3, Q: Fn(Quat, Quat) -> Quat>(
        &mut self,
        a: &Self,
        b: &Self,
        lerp_vec3: &V,
        lerp_quat: &Q,
        blend_root: Option<usize>,
    )
        requires
            old(self)@.joints.len() <= a@.joints.len(),
            old(self)@.joints.len() <= b@.joints.len(),
            blend_root.is_some() ==> old(self).wf(),
            forall|x: Vec3, y: Vec3| call_requires(*lerp_vec3, (x, y)),
            forall|x: Quat, y: Quat| call_requires(*lerp_quat, (x, y)),
        ensures
            blended(old(self)@, a@, b@, *lerp_vec3, *lerp_quat, blend_root, final(self)@),
    {
        let n = self.joints.len();
        let mut i: usize = 0;
        while i < n
            invariant
                n == old(self)@.joints.len(),
                n <= a@.joints.len(),
                n <= b@.joints.len(),
                i <= n,
                blend_root.is_some() ==> self.wf(),
                forall|x: Vec3, y: Vec3| call_requires(*lerp_vec3, (x, y)),
                forall|x: Quat, y: Quat| call_requires(*lerp_quat, (x, y)),
                self@.parents == old(self)@.parents,
                self@.joints.len() == n,
                forall|k: int|
                    0 <= k < i ==> if selected(old(self)@.parents, blend_root, k) {
                        Transform::mixed(
                            a@.joints[k],
                            b@.joints[k],
                            *lerp_vec3,
                            *lerp_quat,
                            #[trigger] self@.joints[k],
                        )
                    } else {
                        self@.joints[k] == old(self)@.joints[k]
                    },
                forall|k: int| i <= k < n ==> self@.joints[k] == old(self)@.joints[k],
            decreases n - i,
        {
            let included = match blend_root {
                Some(root) => self.is_in_hierarchy(root, i),
                None => true,
            };
            if included {
                let mixed = a.joints[i].mix(&b.joints[i], lerp_vec3, lerp_quat);
                self.joints.set(i, mixed);
            }
            i += 1;
        }
    }

    /// Sets each joint that `add_pose` has to that joint in `in_pose` with
    /// the difference between `add_pose` and `base_pose` laid on top. With a
    /// `blend_root`, only the joints of the hierarchy under it in this pose
    /// are set; the others keep their transforms.
    pub fn add(
        &mut self,
        in_pose: &Pose,
        add_pose: &Pose,
        base_pose: &Pose,
        blend_root: Option<usize>,
    )
        requires
            add_pose@.joints.len() <= old(self)@.joints.len(),
            add_pose@.joints.len() <= in_pose@.joints.len(),
            add_pose@.joints.len() <= base_pose@.joints.len(),
            blend_root.is_some() ==> old(self).wf(),
        ensures
            final(self)@.parents == old(self)@.parents,
            final(self)@.joints.len() == old(self)@.joints.len(),
            forall|i: int|
                0 <= i < old(self)@.joints.len() ==> #[trigger] final(self)@.joints[i] == (if i
                    < add_pose@.joints.len() && selected(old(self)@.parents, blend_root, i) {
                    spec_additive(in_pose@.joints[i], add_pose@.joints[i], base_pose@.joints[i])
                } else {
                    old(self)@.joints[i]
                }),
    {
        let n = add_pose.joints.len();
        let mut i: usize = 0;
        while i < n
            invariant
                n == add_pose@.joints.len(),
                n <= old(self)@.joints.len(),
                n <= in_pose@.joints.len(),
                n <= base_pose@.joints.len(),
                i <= n,
                blend_root.is_some() ==> self.wf(),
                self@.parents == old(self)@.parents,
                self@.joints.len() == old(self)@.joints.len(),
                forall|k: int|
                    0 <= k < old(self)@.joints.len() ==> #[trigger] self@.joints[k] == (if k < i
                        && selected(old(self)@.parents, blend_root, k) {
                        spec_additive(in_pose@.joints[k], add_pose@.joints[k], base_pose@.joints[k])
                    } else {
                        old(self)@.joints[k]
                    }),
            decreases n - i,
        {
            let included = match blend_root {
                Some(root) => self.is_in_hierarchy(root, i),
                None => true,
            };
            if included {
                let input = in_pose.joints[i];
                let additive = add_pose.joints[i];
                let additive_base = base_pose.joints[i];
                let result = Transform {
                    translation: vec3_add(
                        input.translation,
                        vec3_sub(additive.translation, additive_base.translation),
                    ),
                    rotation: quat_mul(
                        input.rotation,
                        quat_mul(quat_inverse(additive_base.rotation), additive.rotation),
                    ),
                    scale: vec3_add(input.scale, vec3_sub(additive.scale, additive_base.scale)),
                };
                self.joints.set(i, result);
            }
            i += 1;
        }
    }

    /// The global transform of a joint is its local transform for a root,
    /// and else its parent's global transform combined with its local one,
    /// wherever in the pose the parent is stored.
    pub proof fn lemma_global_transform(&self, joint: int)
        requires
            self.wf(),
            0 <= joint < self@.joints.len(),
        ensures
            self.spec_global_transform(joint) == (match self@.parents[joint] {
                None => self@.joints[joint],
                Some(p) => Transform::spec_combine(
                    self.spec_global_transform(p as int),
                    self@.joints[joint],
                ),
            }),
            self@.parents[joint] matches Some(p) ==> p < self@.joints.len(),
    {
        let n = self@.parents.len();
        match self@.parents[joint] {
            None => {},
            Some(p) => {
                assert(reaches_root(self@.parents, joint, n));
                assert(reaches_root(self@.parents, p as int, (n - 1) as nat));
                lemma_global_fuel(self@.joints, self@.parents, p as int, (n - 1) as nat, n);
            },
        }
    }

    /// The global transform of a joint does not depend on the order in which
    /// the joints are stored: in a pose that holds the same joints in
    /// another order, the joint has the same global transform.
    pub proof fn lemma_global_storage_order(&self, s: Seq<usize>, q: Pose, joint: int)
        requires
            self.wf(),
            q.wf(),
            reordered(self@, s, q@),
            0 <= joint < self@.joints.len(),
        ensures
            q.spec_global_transform(s[joint] as int) == self.spec_global_transform(joint),
    {
        self.lemma_storage_order_within(s, q, joint, self@.parents.len());
    }

    proof fn lemma_storage_order_within(&self, s: Seq<usize>, q: Pose, joint: int, fuel: nat)
        requires
            self.wf(),
            q.wf(),
            reordered(self@, s, q@),
            0 <= joint < self@.joints.len(),
            reaches_root(self@.parents, joint, fuel),
        ensures
            q.spec_global_transform(s[joint] as int) == self.spec_global_transform(joint),
        decreases fuel,
    {
        self.lemma_global_transform(joint);
        q.lemma_global_transform(s[joint] as int);
        match self@.parents[joint] {
            None => {},
            Some(parent) => {
                self.lemma_storage_order_within(s, q, parent as int, (fuel - 1) as nat);
                assert(s[parent as int] < q@.joints.len());
            },
        }
    }

    /// A joint is in the hierarchy under `root` exactly when it is `root` or
    /// its parent is in that hierarchy.
    pub proof fn lemma_in_hierarchy(&self, root: int, joint: int)
        requires
            self.wf(),
            0 <= joint < self@.joints.len(),
        ensures
            in_hierarchy(self@.parents, root, joint) == (joint == root || match self@.parents[joint] {
                None => false,
                Some(p) => in_hierarchy(self@.parents, root, p as int),
            }),
    {
        let n = self@.parents.len();
        match self@.parents[joint] {
            None => {},
            Some(p) => {
                assert(reaches_root(self@.parents, joint, n));
                assert(reaches_root(self@.parents, p as int, (n - 1) as nat));
                lemma_in_hierarchy_fuel(self@.parents, root, p as int, (n - 1) as nat, n);
            },
        }
    }
}

/// Blending by steps that hand back their first argument, as going none of
/// the way does, leaves every selected joint as it is in `a`. Blending by
/// steps that hand back their second, as going all of the way does, leaves
/// it with the translation and the scale that it has in `b`, and with the
/// rotation that it has in `b` or the negative of it, which is the same
/// rotation.
pub proof fn lemma_blend_boundary<V: Fn(Vec3, Vec3) -> Vec3, Q: Fn(Quat, Quat) -> Quat>(
    before: PoseView,
    a: PoseView,
    b: PoseView,
    lerp_vec3: V,
    lerp_quat: Q,
    blend_root: Option<usize>,
    after: PoseView,
)
    requires
        blended(before, a, b, lerp_vec3, lerp_quat, blend_root, after),
    ensures
        after.parents == before.parents,
        after.joints.len() == before.joints.len(),
        (forall|x: Vec3, y: Vec3, r: Vec3| call_ensures(lerp_vec3, (x, y), r) ==> r == x) && (
        forall|x: Quat, y: Quat, r: Quat| call_ensures(lerp_quat, (x, y), r) ==> r == x)
            ==> forall|i: int|
            0 <= i < before.joints.len() && selected(before.parents, blend_root, i)
                ==> #[trigger] after.joints[i] == a.joints[i],
        (forall|x: Vec3, y: Vec3, r: Vec3| call_ensures(lerp_vec3, (x, y), r) ==> r == y) && (
        forall|x: Quat, y: Quat, r: Quat| call_ensures(lerp_quat, (x, y), r) ==> r == y)
            ==> forall|i: int|
            0 <= i < before.joints.len() && selected(before.parents, blend_root, i) ==> {
                &&& (#[trigger] after.joints[i]).translation == b.joints[i].translation
                &&& after.joints[i].scale == b.joints[i].scale
                &&& after.joints[i].rotation == b.joints[i].rotation || after.joints[i].rotation
                    == quat_negated(b.joints[i].rotation)
            },
        forall|i: int|
            0 <= i < before.joints.len() && !selected(before.parents, blend_root, i)
                ==> #[trigger] after.joints[i] == before.joints[i],
{
}

/// A walk that ends within `fuel` steps yields the same global transform
/// under any two allowances that cover it.
pub proof fn lemma_global_fuel(
    joints: Seq<Transform>,
    parents: Seq<Option<usize>>,
    joint: int,
    fuel: nat,
    more: nat,
)
    requires
        reaches_root(parents, joint, fuel),
        fuel <= more,
    ensures
        reaches_root(parents, joint, more),
        global_within(joints, parents, joint, fuel) == global_within(joints, parents, joint, more),
    decreases fuel,
{
    match parents[joint] {
        None => {},
        Some(p) => {
            lemma_global_fuel(joints, parents, p as int, (fuel - 1) as nat, (more - 1) as nat);
        },
    }
}

/// A walk that ends within `fuel` steps meets `root` under any two
/// allowances that cover it, or under neither.
pub proof fn lemma_in_hierarchy_fuel(
    parents: Seq<Option<usize>>,
    root: int,
    joint: int,
    fuel: nat,
    more: nat,
)
    requires
        reaches_root(parents, joint, fuel),
        fuel <= more,
    ensures
        in_hierarchy_within(parents, root, joint, fuel) == in_hierarchy_within(
            parents,
            root,
            joint,
            more,
        ),
    decreases fuel,
{
    match parents[joint] {
        None => {},
        Some(p) => {
            if joint != root {
                lemma_in_hierarchy_fuel(parents, root, p as int, (fuel - 1) as nat, (more - 1) as nat);
            }
        },
    }
}

/// A joint that is its own parent never reaches a root.
pub proof fn lemma_no_self_parent(parents: Seq<Option<usize>>, joint: int, fuel: nat)
    requires
        reaches_root(parents, joint, fuel),
    ensures
        parents[joint] matches Some(p) ==> p != joint,
    decreases fuel,
{
    match parents[joint] {
        None => {},
        Some(p) => {
            if p == joint {
                lemma_no_self_parent(parents, joint, (fuel - 1) as nat);
            }
        },
    }
}

/// The first joint out of order, looking from `from` on, is not before
/// `from` nor beyond the end.
pub proof fn lemma_first_unordered_bounds(parents: Seq<Option<usize>>, from: int)
    requires
        0 <= from <= parents.len(),
    ensures
        from <= first_unordered(parents, from) <= parents.len(),
    decreases parents.len() - from,
{
    if from < parents.len() {
        lemma_first_unordered_bounds(parents, from + 1);
    }
}

} // verus!
