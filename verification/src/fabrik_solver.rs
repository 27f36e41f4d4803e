//! Forward-and-backward-reaching inverse kinematics on a chain of links.
//!
//! The solver keeps the chain, walks it backward and forward, and turns the
//! solved positions back into rotations. Four kernels are the caller's part,
//! each arithmetic on lengths: the distance of two points, whether the
//! effector is within the threshold of the goal, the point at a given length
//! from an anchor towards another point, and the rotation that turns one
//! direction into another.

use crate::glam_ops::{
    quat_inverse, quat_inverted, quat_mul, quat_product, quat_rotate, quat_rotated, vec3_bits,
    vec3_difference, vec3_sub, vec3_zero,
};
use crate::glam_transform::Transform;
use glam::{Quat, Vec3};
use vstd::prelude::*;

verus! {

/// Link `index` of `chain` carried through the links from `j` up to it:
/// each link combined with what the links after it come to.
pub open spec fn chain_above(chain: Seq<Transform>, index: int, j: int) -> Transform
    decreases index - j,
{
    if j >= index {
        chain[index]
    } else {
        Transform::spec_combine(chain[j], chain_above(chain, index, j + 1))
    }
}

/// The transform of link `index` in the space the chain's first link lives
/// in.
pub open spec fn chain_global(chain: Seq<Transform>, index: int) -> Transform {
    chain_above(chain, index, 0)
}

/// What a solver holds: the chain of local transforms, the positions of the
/// links in space that a solve works on, the length of each link, which is
/// its distance from the link before it, and the length zero, which is the
/// first link's.
pub struct FabrikView<S> {
    pub chain: Seq<Transform>,
    pub world: Seq<Vec3>,
    pub lengths: Seq<S>,
    pub num_steps: u8,
    pub threshold: S,
    pub zero: S,
}

/// Whether `after` is `before` with the positions and lengths read off the
/// chain: each position is that of its link in space, the first length is
/// zero, and each other length is the distance of its link from the one
/// before.
pub open spec fn placed_in_world<S, D: Fn(Vec3, Vec3) -> S>(
    before: FabrikView<S>,
    distance: D,
    after: FabrikView<S>,
) -> bool {
    &&& after.chain == before.chain
    &&& after.num_steps == before.num_steps
    &&& after.threshold == before.threshold
    &&& after.zero == before.zero
    &&& after.world.len() == before.chain.len()
    &&& after.lengths.len() == before.chain.len()
    &&& forall|i: int|
        0 <= i < before.chain.len() ==> #[trigger] after.world[i] == chain_global(
            before.chain,
            i,
        ).translation
    &&& before.chain.len() > 0 ==> after.lengths[0] == before.zero
    &&& forall|i: int|
        1 <= i < before.chain.len() ==> call_ensures(
            distance,
            (after.world[i], after.world[i - 1]),
            #[trigger] after.lengths[i],
        )
}

/// Whether `after` is `before` with the chain pulled to the goal from its
/// end: the last position is the goal, and each other position lies at its
/// successor's length from its successor's new position, towards where it
/// was.
pub open spec fn pulled_back<S, P: Fn(Vec3, Vec3, S) -> Vec3>(
    before: FabrikView<S>,
    goal: Vec3,
    place: P,
    after: FabrikView<S>,
) -> bool {
    let n = before.world.len() as int;
    &&& after.chain == before.chain
    &&& after.lengths == before.lengths
    &&& after.num_steps == before.num_steps
    &&& after.threshold == before.threshold
    &&& after.zero == before.zero
    &&& after.world.len() == n
    &&& n > 0 ==> after.world[n - 1] == goal
    &&& forall|i: int|
        0 <= i < n - 1 ==> call_ensures(
            place,
            (after.world[i + 1], before.world[i], before.lengths[i + 1]),
            #[trigger] after.world[i],
        )
}

/// Whether `after` is `before` with the chain pushed out from its base: the
/// first position is the base, and each other position lies at its own
/// length from its predecessor's new position, towards where it was.
pub open spec fn pushed_forward<S, P: Fn(Vec3, Vec3, S) -> Vec3>(
    before: FabrikView<S>,
    base: Vec3,
    place: P,
    after: FabrikView<S>,
) -> bool {
    let n = before.world.len() as int;
    &&& after.chain == before.chain
    &&& after.lengths == before.lengths
    &&& after.num_steps == before.num_steps
    &&& after.threshold == before.threshold
    &&& after.zero == before.zero
    &&& after.world.len() == n
    &&& n > 0 ==> after.world[0] == base
    &&& forall|i: int|
        1 <= i < n ==> call_ensures(
            place,
            (after.world[i - 1], before.world[i], before.lengths[i]),
            #[trigger] after.world[i],
        )
}

/// Whether `after` is `before` after one round: pulled back to the goal,
/// then pushed forward from the base.
pub open spec fn iterated<S, P: Fn(Vec3, Vec3, S) -> Vec3>(
    before: FabrikView<S>,
    goal: Vec3,
    base: Vec3,
    place: P,
    after: FabrikView<S>,
) -> bool {
    exists|mid: FabrikView<S>| #[trigger]
        pulled_back(before, goal, place, mid) && pushed_forward(mid, base, place, after)
}

/// The chain while the links are being turned, just before link `i` is:
/// the links before `i` as they end up, the others as they were.
pub open spec fn chain_at_turn(before: Seq<Transform>, after: Seq<Transform>, i: int) -> Seq<
    Transform,
> {
    after.take(i) + before.skip(i)
}

/// Whether link `i` has been turned towards the solved position of link
/// `i + 1`: its rotation is multiplied, on the right, by the rotation that
/// leads from the direction of the next link to the direction of that
/// link's solved position, both seen from link `i`; nothing else of it
/// changes.
pub open spec fn link_turned<S, Q: Fn(Vec3, Vec3) -> Quat>(
    before: FabrikView<S>,
    from_to: Q,
    after: Seq<Transform>,
    i: int,
) -> bool {
    let chain = chain_at_turn(before.chain, after, i);
    let here = chain_global(chain, i);
    let next = chain_global(chain, i + 1);
    let inv_rot = quat_inverted(here.rotation);
    let to_next = quat_rotated(inv_rot, vec3_difference(next.translation, here.translation));
    let to_desired = quat_rotated(
        inv_rot,
        vec3_difference(before.world[i + 1], here.translation),
    );
    &&& after[i].translation == before.chain[i].translation
    &&& after[i].scale == before.chain[i].scale
    &&& exists|delta: Quat| #[trigger]
        call_ensures(from_to, (to_next, to_desired), delta) && after[i].rotation == quat_product(
            before.chain[i].rotation,
            delta,
        )
}

/// Whether `after` is `before` with the solved positions turned back into
/// rotations: every link but the last is turned towards the solved position
/// of the next, from the first link on; the last link stays.
pub open spec fn turned_to_world<S, Q: Fn(Vec3, Vec3) -> Quat>(
    before: FabrikView<S>,
    from_to: Q,
    after: FabrikView<S>,
) -> bool {
    let n = before.chain.len() as int;
    &&& after.world == before.world
    &&& after.lengths == before.lengths
    &&& after.num_steps == before.num_steps
    &&& after.threshold == before.threshold
    &&& after.zero == before.zero
    &&& after.chain.len() == n
    &&& n > 0 ==> after.chain[n - 1] == before.chain[n - 1]
    &&& forall|i: int| 0 <= i < n - 1 ==> #[trigger] link_turned(before, from_to, after.chain, i)
}

/// Whether round `j` of a solve leads from `trace[j]` to `trace[j + 1]`: the
/// effector was not yet within the threshold of the goal, and the chain was
/// pulled back and pushed forward once.
pub open spec fn round_done<S, R: Fn(Vec3, Vec3, S) -> bool, P: Fn(Vec3, Vec3, S) -> Vec3>(
    trace: Seq<FabrikView<S>>,
    j: int,
    goal: Vec3,
    reached: R,
    place: P,
) -> bool {
    let n = trace[0].world.len() as int;
    &&& trace[j].world.len() == n
    &&& call_ensures(reached, (goal, trace[j].world[n - 1], trace[j].threshold), false)
    &&& iterated(trace[j], goal, trace[0].world[0], place, trace[j + 1])
}

/// Whether `trace` is the run of a solve that starts from `before` and ends
/// in `after` with result `r`.
///
/// The run starts with the chain placed in space. Rounds follow while the
/// effector is not within the threshold of the goal, `num_steps` of them at
/// most. Then the positions are turned back into rotations. The result says
/// whether the effector was found within the threshold: before a round,
/// among the positions, or, when the rounds are used up, on the chain as it
/// ends.
pub open spec fn solve_run<
    S,
    D: Fn(Vec3, Vec3) -> S,
    R: Fn(Vec3, Vec3, S) -> bool,
    P: Fn(Vec3, Vec3, S) -> Vec3,
    Q: Fn(Vec3, Vec3) -> Quat,
>(
    before: FabrikView<S>,
    goal: Vec3,
    distance: D,
    reached: R,
    place: P,
    from_to: Q,
    trace: Seq<FabrikView<S>>,
    r: bool,
    after: FabrikView<S>,
) -> bool {
    let n = before.chain.len() as int;
    let rounds = trace.len() - 1;
    let last = trace[rounds];
    &&& 0 <= rounds <= before.num_steps
    &&& placed_in_world(before, distance, trace[0])
    &&& forall|j: int| 0 <= j < rounds ==> #[trigger] round_done(trace, j, goal, reached, place)
    &&& last.chain == before.chain
    &&& last.world.len() == n
    &&& turned_to_world(last, from_to, after)
    &&& if rounds < before.num_steps {
        r && call_ensures(reached, (goal, last.world[n - 1], last.threshold), true)
    } else {
        call_ensures(
            reached,
            (goal, chain_global(after.chain, n - 1).translation, after.threshold),
            r,
        )
    }
}

/// Whether a solve for `goal` leads from `before` to `after` with result
/// `r`. A solver without links fails and stays as it is.
pub open spec fn solved<
    S,
    D: Fn(Vec3, Vec3) -> S,
    R: Fn(Vec3, Vec3, S) -> bool,
    P: Fn(Vec3, Vec3, S) -> Vec3,
    Q: Fn(Vec3, Vec3) -> Quat,
>(
    before: FabrikView<S>,
    goal: Vec3,
    distance: D,
    reached: R,
    place: P,
    from_to: Q,
    r: bool,
    after: FabrikView<S>,
) -> bool {
    if before.chain.len() == 0 {
        !r && after == before
    } else {
        exists|trace: Seq<FabrikView<S>>| #[trigger]
            solve_run(before, goal, distance, reached, place, from_to, trace, r, after)
    }
}

/// An iterative solver for a chain of links, the first of them the root.
#[derive(Debug)]
pub struct FabrikSolver<S> {
    ik_chain: Vec<Transform>,
    num_steps: u8,
    threshold: S,
    zero: S,
    world_chain: Vec<Vec3>,
    lengths: Vec<S>,
}

impl<S> View for FabrikSolver<S> {
    type V = FabrikView<S>;

    closed spec fn view(&self) -> FabrikView<S> {
        FabrikView {
            chain: self.ik_chain@,
            world: self.world_chain@,
            lengths: self.lengths@,
            num_steps: self.num_steps,
            threshold: self.threshold,
            zero: self.zero,
        }
    }
}

impl<S> FabrikSolver<S> {
    #[verifier::type_invariant]
    spec fn same_lengths(&self) -> bool {
        self.ik_chain@.len() == self.world_chain@.len() && self.ik_chain@.len()
            == self.lengths@.len()
    }
}

impl<S: Copy> FabrikSolver<S> {
    /// A solver without links that gives up after 15 rounds and takes a
    /// goal for reached within `threshold` of it. `zero` is the length zero.
    pub fn new(threshold: S, zero: S) -> (r: Self)
        ensures
            r@.chain.len() == 0,
            r@.world.len() == 0,
            r@.lengths.len() == 0,
            r@.num_steps == 15,
            r@.threshold == threshold,
            r@.zero == zero,
    {
        Self::new_with_args(15, threshold, zero)
    }

    /// A solver without links that gives up after `num_steps` rounds and
    /// takes a goal for reached within `threshold` of it. `zero` is the
    /// length zero.
    pub fn new_with_args(num_steps: u8, threshold: S, zero: S) -> (r: Self)
        ensures
            r@.chain.len() == 0,
            r@.world.len() == 0,
            r@.lengths.len() == 0,
            r@.num_steps == num_steps,
            r@.threshold == threshold,
            r@.zero == zero,
    {
        Self {
            ik_chain: Vec::new(),
            num_steps,
            threshold,
            zero,
            world_chain: Vec::new(),
            lengths: Vec::new(),
        }
    }

    /// The number of rounds after which a solve gives up.
    pub fn num_steps(&self) -> (r: u8)
        ensures
            r == self@.num_steps,
    {
        self.num_steps
    }

    /// Sets the number of rounds after which a solve gives up.
    pub fn set_num_steps(&mut self, num_steps: u8)
        ensures
            final(self)@ == (FabrikView { num_steps, ..old(self)@ }),
    {
        proof {
            use_type_invariant(&*self);
        }
        self.num_steps = num_steps;
    }

    /// The distance from the goal within which the goal counts as reached.
    pub fn threshold(&self) -> (r: S)
        ensures
            r == self@.threshold,
    {
        self.threshold
    }

    /// Sets the distance within which the goal counts as reached.
    pub fn set_threshold(&mut self, threshold: S)
        ensures
            final(self)@ == (FabrikView { threshold, ..old(self)@ }),
    {
        proof {
            use_type_invariant(&*self);
        }
        self.threshold = threshold;
    }

    /// Makes the chain `len` links long. Links that are kept stay as they
    /// are; a new link has the neutral transform, the position zero and the
    /// length zero.
    pub fn resize(&mut self, len: usize)
        ensures
            final(self)@.num_steps == old(self)@.num_steps,
            final(self)@.threshold == old(self)@.threshold,
            final(self)@.zero == old(self)@.zero,
            final(self)@.chain.len() == len,
            final(self)@.world.len() == len,
            final(self)@.lengths.len() == len,
            forall|i: int|
                0 <= i < len && i < old(self)@.chain.len() ==> #[trigger] final(self)@.chain[i]
                    == old(self)@.chain[i],
            forall|i: int|
                0 <= i < len && i < old(self)@.chain.len() ==> #[trigger] final(self)@.world[i]
                    == old(self)@.world[i],
            forall|i: int|
                0 <= i < len && i < old(self)@.chain.len() ==> #[trigger] final(self)@.lengths[i]
                    == old(self)@.lengths[i],
            forall|i: int|
                old(self)@.chain.len() <= i < len ==> Transform::is_identity(
                    #[trigger] final(self)@.chain[i],
                ),
            forall|i: int|
                old(self)@.chain.len() <= i < len ==> vec3_bits(#[trigger] final(self)@.world[i])
                    == (0u32, 0u32, 0u32),
            forall|i: int|
                old(self)@.chain.len() <= i < len ==> #[trigger] final(self)@.lengths[i] == old(
                    self,
                )@.zero,
    {
        proof {
            use_type_invariant(&*self);
        }
        let mut chain: Vec<Transform> = Vec::new();
        let mut world: Vec<Vec3> = Vec::new();
        let mut lengths: Vec<S> = Vec::new();
        let kept = if self.ik_chain.len() < len {
            self.ik_chain.len()
        } else {
            len
        };
        let mut i: usize = 0;
        while i < len
            invariant
                i <= len,
                kept <= len,
                kept <= self.ik_chain@.len(),
                kept == len || kept == self.ik_chain@.len(),
                self.ik_chain@.len() == self.world_chain@.len(),
                self.ik_chain@.len() == self.lengths@.len(),
                chain@.len() == i,
                world@.len() == i,
                lengths@.len() == i,
                forall|k: int| 0 <= k < i && k < kept ==> #[trigger] chain@[k] == self.ik_chain@[k],
                forall|k: int|
                    0 <= k < i && k < kept ==> #[trigger] world@[k] == self.world_chain@[k],
                forall|k: int|
                    0 <= k < i && k < kept ==> #[trigger] lengths@[k] == self.lengths@[k],
                forall|k: int| kept <= k < i ==> Transform::is_identity(#[trigger] chain@[k]),
                forall|k: int|
                    kept <= k < i ==> vec3_bits(#[trigger] world@[k]) == (0u32, 0u32, 0u32),
                forall|k: int| kept <= k < i ==> #[trigger] lengths@[k] == self.zero,
            decreases len - i,
        {
            if i < kept {
                chain.push(self.ik_chain[i]);
                world.push(self.world_chain[i]);
                lengths.push(self.lengths[i]);
            } else {
                chain.push(Transform::default());
                world.push(vec3_zero());
                lengths.push(self.zero);
            }
            i += 1;
        }
        *self = Self {
            ik_chain: chain,
            num_steps: self.num_steps,
            threshold: self.threshold,
            zero: self.zero,
            world_chain: world,
            lengths,
        };
    }

    /// The number of links.
    pub fn len(&self) -> (r: usize)
        ensures
            r == self@.chain.len(),
            r == self@.world.len(),
            r == self@.lengths.len(),
    {
        proof {
            use_type_invariant(self);
        }
        self.ik_chain.len()
    }

    /// The transform of link `index` relative to the link before it.
    pub fn local_transform(&self, index: usize) -> (r: &Transform)
        requires
            index < self@.chain.len(),
        ensures
            *r == self@.chain[index as int],
    {
        &self.ik_chain[index]
    }

    /// Sets the transform of link `index` relative to the link before it.
    pub fn set_local_transform(&mut self, index: usize, t: Transform)
        requires
            index < old(self)@.chain.len(),
        ensures
            final(self)@ == (FabrikView {
                chain: old(self)@.chain.update(index as int, t),
                ..old(self)@
            }),
    {
        proof {
            use_type_invariant(&*self);
        }
        self.ik_chain[index] = t;
    }

    /// The length of link `index`, as the last solve found it: the distance
    /// from the link before it, and zero for the first link.
    pub fn length(&self, index: usize) -> (r: S)
        requires
            index < self@.lengths.len(),
        ensures
            r == self@.lengths[index as int],
    {
        self.lengths[index]
    }

    /// The length zero.
    pub fn zero(&self) -> (r: S)
        ensures
            r == self@.zero,
    {
        self.zero
    }

    /// The position in space that a solve has left for link `index`.
    pub fn world_position(&self, index: usize) -> (r: Vec3)
        requires
            index < self@.world.len(),
        ensures
            r == self@.world[index as int],
    {
        self.world_chain[index]
    }

    /// The transform of link `index` in the space the first link lives in:
    /// the link combined with each link before it, from the nearest to the
    /// first.
    pub fn global_transform(&self, index: usize) -> (r: Transform)
        requires
            index < self@.chain.len(),
        ensures
            r == chain_global(self@.chain, index as int),
    {
        let mut world = self.ik_chain[index];
        let mut j = index;
        while j > 0
            invariant
                j <= index,
                index < self.ik_chain@.len(),
                world == chain_above(self.ik_chain@, index as int, j as int),
            decreases j,
        {
            j -= 1;
            world = self.ik_chain[j].combine(&world);
        }
        world
    }

    /// Reads the positions of the links in space, and the lengths of the
    /// links, off the chain.
    pub fn ik_chain_to_world<D: Fn(Vec3, Vec3) -> S>(&mut self, distance: &D)
        requires
            forall|a: Vec3, b: Vec3| call_requires(*distance, (a, b)),
        ensures
            placed_in_world(old(self)@, *distance, final(self)@),
    {
        proof {
            use_type_invariant(&*self);
        }
        let n = self.ik_chain.len();
        let mut i: usize = 0;
        while i < n
            invariant
                forall|a: Vec3, b: Vec3| call_requires(*distance, (a, b)),
                n == self.ik_chain@.len(),
                n == self.world_chain@.len(),
                n == self.lengths@.len(),
                i <= n,
                self.ik_chain@ == old(self).ik_chain@,
                self.num_steps == old(self).num_steps,
                self.threshold == old(self).threshold,
                self.zero == old(self).zero,
                forall|k: int|
                    0 <= k < i ==> #[trigger] self.world_chain@[k] == chain_global(
                        self.ik_chain@,
                        k,
                    ).translation,
                forall|k: int|
                    1 <= k < i ==> call_ensures(
                        *distance,
                        (self.world_chain@[k], self.world_chain@[k - 1]),
                        #[trigger] self.lengths@[k],
                    ),
            decreases n - i,
        {
            let world = self.global_transform(i);
            self.world_chain[i] = world.translation;
            if i >= 1 {
                let prev = self.world_chain[i - 1];
                let length = distance(world.translation, prev);
                self.lengths[i] = length;
            }
            i += 1;
        }
        if n > 0 {
            self.lengths[0] = self.zero;
        }
    }

    /// Turns the solved positions back into rotations of the links.
    pub fn world_to_ik_chain<Q: Fn(Vec3, Vec3) -> Quat>(&mut self, from_to: &Q)
        requires
            forall|a: Vec3, b: Vec3| call_requires(*from_to, (a, b)),
        ensures
            turned_to_world(old(self)@, *from_to, final(self)@),
    {
        proof {
            use_type_invariant(&*self);
        }
        let n = self.ik_chain.len();
        if n == 0 {
            return ;
        }
        let mut i: usize = 0;
        while i < n - 1
            invariant
                forall|a: Vec3, b: Vec3| call_requires(*from_to, (a, b)),
                n > 0,
                n == self.ik_chain@.len(),
                n == old(self).ik_chain@.len(),
                n == self.world_chain@.len(),
                n == self.lengths@.len(),
                i <= n - 1,
                self.world_chain@ == old(self).world_chain@,
                self.lengths@ == old(self).lengths@,
                self.num_steps == old(self).num_steps,
                self.threshold == old(self).threshold,
                self.zero == old(self).zero,
                forall|k: int| i <= k < n ==> self.ik_chain@[k] == old(self).ik_chain@[k],
                forall|k: int|
                    0 <= k < i ==> #[trigger] link_turned(old(self)@, *from_to, self.ik_chain@, k),
            decreases n - 1 - i,
        {
            let ghost chain_now = self.ik_chain@;
            proof {
                assert(chain_at_turn(old(self)@.chain, chain_now, i as int) =~= chain_now);
            }
            let world = self.global_transform(i);
            let next = self.global_transform(i + 1);
            let position = world.translation;
            let inv_rot = quat_inverse(world.rotation);
            let to_next = quat_rotate(inv_rot, vec3_sub(next.translation, position));
            let to_desired = quat_rotate(inv_rot, vec3_sub(self.world_chain[i + 1], position));
            let delta = from_to(to_next, to_desired);
            let link = self.ik_chain[i];
            let turned = Transform {
                translation: link.translation,
                rotation: quat_mul(link.rotation, delta),
                scale: link.scale,
            };
            self.ik_chain[i] = turned;
            proof {
                let after = self.ik_chain@;
                assert forall|k: int| 0 <= k < i + 1 implies #[trigger] link_turned(
                    old(self)@,
                    *from_to,
                    after,
                    k,
                ) by {
                    assert(chain_at_turn(old(self)@.chain, after, k) =~= chain_at_turn(
                        old(self)@.chain,
                        chain_now,
                        k,
                    ));
                    if k < i {
                        assert(link_turned(old(self)@, *from_to, chain_now, k));
                        assert(after[k] == chain_now[k]);
                    } else {
                        assert(call_ensures(*from_to, (to_next, to_desired), delta));
                    }
                }
            }
            i += 1;
        }
    }

    /// Pulls the chain to `goal` from its end: the last link is put on the
    /// goal, and each link before it at its successor's length from its
    /// successor, towards where it was.
    pub fn iterate_backward<P: Fn(Vec3, Vec3, S) -> Vec3>(&mut self, goal: Vec3, place: &P)
        requires
            forall|a: Vec3, b: Vec3, l: S| call_requires(*place, (a, b, l)),
        ensures
            pulled_back(old(self)@, goal, *place, final(self)@),
    {
        proof {
            use_type_invariant(&*self);
        }
        let len = self.ik_chain.len();
        if len == 0 {
            return ;
        }
        self.world_chain[len - 1] = goal;
        let mut i: usize = len - 1;
        while i > 0
            invariant
                forall|a: Vec3, b: Vec3, l: S| call_requires(*place, (a, b, l)),
                len > 0,
                len == self.ik_chain@.len(),
                len == self.world_chain@.len(),
                len == self.lengths@.len(),
                len == old(self).world_chain@.len(),
                i <= len - 1,
                self.ik_chain@ == old(self).ik_chain@,
                self.lengths@ == old(self).lengths@,
                self.num_steps == old(self).num_steps,
                self.threshold == old(self).threshold,
                self.zero == old(self).zero,
                self.world_chain@[len - 1] == goal,
                forall|k: int| 0 <= k < i ==> self.world_chain@[k] == old(self).world_chain@[k],
                forall|k: int|
                    i <= k < len - 1 ==> call_ensures(
                        *place,
                        (
                            self.world_chain@[k + 1],
                            old(self).world_chain@[k],
                            old(self).lengths@[k + 1],
                        ),
                        #[trigger] self.world_chain@[k],
                    ),
            decreases i,
        {
            i -= 1;
            let placed = place(self.world_chain[i + 1], self.world_chain[i], self.lengths[i + 1]);
            self.world_chain[i] = placed;
        }
    }

    /// Pushes the chain out from `base`: the first link is put on the base,
    /// and each link after it at its own length from its predecessor,
    /// towards where it was.
    pub fn iterate_forward<P: Fn(Vec3, Vec3, S) -> Vec3>(&mut self, base: Vec3, place: &P)
        requires
            forall|a: Vec3, b: Vec3, l: S| call_requires(*place, (a, b, l)),
        ensures
            pushed_forward(old(self)@, base, *place, final(self)@),
    {
        proof {
            use_type_invariant(&*self);
        }
        let len = self.ik_chain.len();
        if len == 0 {
            return ;
        }
        self.world_chain[0] = base;
        let mut i: usize = 1;
        while i < len
            invariant
                forall|a: Vec3, b: Vec3, l: S| call_requires(*place, (a, b, l)),
                len > 0,
                len == self.ik_chain@.len(),
                len == self.world_chain@.len(),
                len == self.lengths@.len(),
                len == old(self).world_chain@.len(),
                1 <= i <= len,
                self.ik_chain@ == old(self).ik_chain@,
                self.lengths@ == old(self).lengths@,
                self.num_steps == old(self).num_steps,
                self.threshold == old(self).threshold,
                self.zero == old(self).zero,
                self.world_chain@[0] == base,
                forall|k: int| i <= k < len ==> self.world_chain@[k] == old(self).world_chain@[k],
                forall|k: int|
                    1 <= k < i ==> call_ensures(
                        *place,
                        (
                            self.world_chain@[k - 1],
                            old(self).world_chain@[k],
                            old(self).lengths@[k],
                        ),
                        #[trigger] self.world_chain@[k],
                    ),
            decreases len - i,
        {
            let placed = place(self.world_chain[i - 1], self.world_chain[i], self.lengths[i]);
            self.world_chain[i] = placed;
            i += 1;
        }
    }

    /// Bends the chain so that its last link comes to `goal`, as far as the
    /// chain reaches and the rounds allow, and says whether it came within
    /// the threshold. The first link's position stays.
    pub fn solve<D, R, P, Q>(
        &mut self,
        goal: Vec3,
        distance: &D,
        reached: &R,
        place: &P,
        from_to: &Q,
    ) -> (r: bool) where
        D: Fn(Vec3, Vec3) -> S,
        R: Fn(Vec3, Vec3, S) -> bool,
        P: Fn(Vec3, Vec3, S) -> Vec3,
        Q: Fn(Vec3, Vec3) -> Quat,

        requires
            forall|a: Vec3, b: Vec3| call_requires(*distance, (a, b)),
            forall|a: Vec3, b: Vec3, l: S| call_requires(*reached, (a, b, l)),
            forall|a: Vec3, b: Vec3, l: S| call_requires(*place, (a, b, l)),
            forall|a: Vec3, b: Vec3| call_requires(*from_to, (a, b)),
        ensures
            solved(old(self)@, goal, *distance, *reached, *place, *from_to, r, final(self)@),
    {
        if self.len() == 0 {
            return false;
        }
        let n = self.len();
        let ghost before = self@;
        self.ik_chain_to_world(distance);
        let base = self.world_chain[0];
        let ghost mut trace: Seq<FabrikView<S>> = seq![self@];
        let mut step: u8 = 0;
        while step < self.num_steps
            invariant
                forall|a: Vec3, b: Vec3| call_requires(*distance, (a, b)),
                forall|a: Vec3, b: Vec3, l: S| call_requires(*reached, (a, b, l)),
                forall|a: Vec3, b: Vec3, l: S| call_requires(*place, (a, b, l)),
                forall|a: Vec3, b: Vec3| call_requires(*from_to, (a, b)),
                n > 0,
                before == old(self)@,
                n == before.chain.len(),
                n == self@.world.len(),
                self@.chain == before.chain,
                self@.num_steps == before.num_steps,
                step <= before.num_steps,
                trace.len() == step + 1,
                trace[step as int] == self@,
                trace[0].world.len() == n,
                base == trace[0].world[0],
                placed_in_world(before, *distance, trace[0]),
                forall|j: int|
                    0 <= j < step ==> #[trigger] round_done(trace, j, goal, *reached, *place),
            decreases before.num_steps - step,
        {
            let effector = self.world_chain[n - 1];
            if reached(goal, effector, self.threshold) {
                let ghost last = self@;
                self.world_to_ik_chain(from_to);
                proof {
                    assert(solve_run(
                        before,
                        goal,
                        *distance,
                        *reached,
                        *place,
                        *from_to,
                        trace,
                        true,
                        self@,
                    ));
                }
                return true;
            }
            let ghost start = self@;
            self.iterate_backward(goal, place);
            let ghost mid = self@;
            self.iterate_forward(base, place);
            proof {
                assert(pulled_back(start, goal, *place, mid) && pushed_forward(
                    mid,
                    base,
                    *place,
                    self@,
                ));
                let earlier = trace;
                trace = trace.push(self@);
                assert forall|j: int| 0 <= j < step + 1 implies #[trigger] round_done(
                    trace,
                    j,
                    goal,
                    *reached,
                    *place,
                ) by {
                    if j < step {
                        assert(round_done(earlier, j, goal, *reached, *place));
                        assert(trace[j] == earlier[j]);
                        assert(trace[j + 1] == earlier[j + 1]);
                    } else {
                        assert(trace[j] == start);
                        assert(iterated(start, goal, base, *place, trace[j + 1]));
                    }
                }
            }
            step += 1;
        }
        let ghost last = self@;
        self.world_to_ik_chain(from_to);
        let effector = self.global_transform(n - 1).translation;
        let r = reached(goal, effector, self.threshold);
        proof {
            assert(solve_run(before, goal, *distance, *reached, *place, *from_to, trace, r, self@));
        }
        r
    }
}

/// With a test that never finds the effector within the threshold of the
/// goal, as it is for a goal out of the chain's reach, a solve of a chain
/// with links goes all its rounds and fails.
pub proof fn lemma_unreached_fails<
    S,
    D: Fn(Vec3, Vec3) -> S,
    R: Fn(Vec3, Vec3, S) -> bool,
    P: Fn(Vec3, Vec3, S) -> Vec3,
    Q: Fn(Vec3, Vec3) -> Quat,
>(
    before: FabrikView<S>,
    goal: Vec3,
    distance: D,
    reached: R,
    place: P,
    from_to: Q,
    r: bool,
    after: FabrikView<S>,
)
    requires
        solved(before, goal, distance, reached, place, from_to, r, after),
        forall|a: Vec3, b: Vec3, l: S, found: bool|
            call_ensures(reached, (a, b, l), found) ==> !found,
    ensures
        !r,
        before.chain.len() > 0 ==> exists|trace: Seq<FabrikView<S>>|
            trace.len() == before.num_steps + 1 && #[trigger] solve_run(
                before,
                goal,
                distance,
                reached,
                place,
                from_to,
                trace,
                r,
                after,
            ),
{
    if before.chain.len() > 0 {
        let trace = choose|trace: Seq<FabrikView<S>>| #[trigger]
            solve_run(before, goal, distance, reached, place, from_to, trace, r, after);
        assert(solve_run(before, goal, distance, reached, place, from_to, trace, r, after));
    }
}

/// A solve keeps the number of links, and of every link the translation
/// and the scale: it only turns links.
pub proof fn lemma_solved_turns_only<
    S,
    D: Fn(Vec3, Vec3) -> S,
    R: Fn(Vec3, Vec3, S) -> bool,
    P: Fn(Vec3, Vec3, S) -> Vec3,
    Q: Fn(Vec3, Vec3) -> Quat,
>(
    before: FabrikView<S>,
    goal: Vec3,
    distance: D,
    reached: R,
    place: P,
    from_to: Q,
    r: bool,
    after: FabrikView<S>,
)
    requires
        solved(before, goal, distance, reached, place, from_to, r, after),
    ensures
        after.chain.len() == before.chain.len(),
        after.num_steps == before.num_steps,
        after.threshold == before.threshold,
        after.zero == before.zero,
        forall|i: int|
            0 <= i < before.chain.len() ==> {
                &&& (#[trigger] after.chain[i]).translation == before.chain[i].translation
                &&& after.chain[i].scale == before.chain[i].scale
            },
{
    if before.chain.len() > 0 {
        let trace = choose|trace: Seq<FabrikView<S>>| #[trigger]
            solve_run(before, goal, distance, reached, place, from_to, trace, r, after);
        let last = trace[trace.len() - 1];
        let n = before.chain.len() as int;
        assert(turned_to_world(last, from_to, after));
        assert forall|i: int| 0 <= i < n implies {
            &&& (#[trigger] after.chain[i]).translation == before.chain[i].translation
            &&& after.chain[i].scale == before.chain[i].scale
        } by {
            if i < n - 1 {
                assert(link_turned(last, from_to, after.chain, i));
            }
        }
        assert(placed_in_world(before, distance, trace[0]));
        lemma_trace_keeps_settings(trace, goal, reached, place, trace.len() - 1);
    }
}

/// The rounds of a solve leave the number of rounds allowed and the
/// threshold as they are.
proof fn lemma_trace_keeps_settings<S, R: Fn(Vec3, Vec3, S) -> bool, P: Fn(Vec3, Vec3, S) -> Vec3>(
    trace: Seq<FabrikView<S>>,
    goal: Vec3,
    reached: R,
    place: P,
    upto: int,
)
    requires
        0 <= upto < trace.len(),
        forall|j: int| 0 <= j < upto ==> #[trigger] round_done(trace, j, goal, reached, place),
    ensures
        trace[upto].num_steps == trace[0].num_steps,
        trace[upto].threshold == trace[0].threshold,
        trace[upto].zero == trace[0].zero,
    decreases upto,
{
    if upto > 0 {
        lemma_trace_keeps_settings(trace, goal, reached, place, upto - 1);
        assert(round_done(trace, upto - 1, goal, reached, place));
        let mid = choose|mid: FabrikView<S>| #[trigger]
            pulled_back(trace[upto - 1], goal, place, mid) && pushed_forward(
                mid,
                trace[0].world[0],
                place,
                trace[upto],
            );
    }
}

} // verus!
