use animation::fabrik_solver::FabrikSolver;
use animation::glam_transform::Transform;
use glam::{Quat, Vec3};

fn span(a: Vec3, b: Vec3) -> f32 {
    (a - b).length()
}

fn within(goal: Vec3, effector: Vec3, threshold: f32) -> bool {
    goal.distance_squared(effector) < threshold * threshold
}

fn towards(anchor: Vec3, toward: Vec3, length: f32) -> Vec3 {
    let direction = (toward - anchor).try_normalize().unwrap_or(Vec3::Y);
    anchor + direction * length
}

fn arc(from: Vec3, to: Vec3) -> Quat {
    let from = from.try_normalize().unwrap_or(Vec3::Y);
    let to = to.try_normalize().unwrap_or(Vec3::Y);
    if from == to {
        return Quat::IDENTITY;
    }
    if from == -to {
        let ortho = if from.x.abs() < from.y.abs() && from.x.abs() < from.z.abs() {
            Vec3::X
        } else if from.y.abs() < from.z.abs() {
            Vec3::Y
        } else {
            Vec3::Z
        };
        let axis = from.cross(ortho).normalize();
        return Quat::from_axis_angle(axis, std::f32::consts::PI);
    }
    let half = (from + to).normalize();
    let axis = from.cross(half);
    Quat::from_xyzw(axis.x, axis.y, axis.z, from.dot(half))
}

fn chain(links: &[Transform], steps: u8, threshold: f32) -> FabrikSolver<f32> {
    let mut solver = FabrikSolver::new_with_args(steps, threshold, 0.0);
    solver.resize(links.len());
    for (i, link) in links.iter().enumerate() {
        solver.set_local_transform(i, *link);
    }
    solver
}

fn link(offset: Vec3, turn: f32) -> Transform {
    Transform::new(offset, Quat::from_rotation_z(turn), Vec3::ONE)
}

fn straight(n: usize) -> Vec<Transform> {
    let mut links = vec![link(Vec3::new(1.0, 2.0, 0.5), 0.0)];
    for _ in 1..n {
        links.push(link(Vec3::Y, 0.0));
    }
    links
}

fn bent(n: usize) -> Vec<Transform> {
    let mut links = vec![link(Vec3::new(-1.0, 0.0, 2.0), 0.4)];
    for i in 1..n {
        links.push(link(Vec3::Y, if i % 2 == 0 { 0.6 } else { -0.8 }));
    }
    links
}

fn run(solver: &mut FabrikSolver<f32>, goal: Vec3) -> bool {
    solver.solve(goal, &span, &within, &towards, &arc)
}

fn effector(solver: &FabrikSolver<f32>) -> Vec3 {
    solver.global_transform(solver.len() - 1).translation
}

fn reach(solver: &FabrikSolver<f32>) -> f32 {
    let mut total = 0.0;
    for i in 1..solver.len() {
        total += span(
            solver.global_transform(i).translation,
            solver.global_transform(i - 1).translation,
        );
    }
    total
}

fn assert_reaches(links: &[Transform], goal_from_base: Vec3) {
    let mut solver = chain(links, 30, 1.0e-3);
    let base = solver.global_transform(0).translation;
    let lengths: Vec<f32> = (1..links.len())
        .map(|i| span(solver.global_transform(i).translation, solver.global_transform(i - 1).translation))
        .collect();
    let goal = base + goal_from_base;
    assert!(goal_from_base.length() <= reach(&solver));
    assert!(run(&mut solver, goal));
    assert!(span(effector(&solver), goal) < 5.0e-3);
    // the root stays and the links keep their lengths
    assert!(span(solver.global_transform(0).translation, base) < 1.0e-5);
    for i in 1..links.len() {
        let now = span(solver.global_transform(i).translation, solver.global_transform(i - 1).translation);
        assert!((now - lengths[i - 1]).abs() < 1.0e-4);
    }
}

#[test]
fn a_new_solver_has_no_links() {
    let solver: FabrikSolver<f32> = FabrikSolver::new(0.00001, 0.0);
    assert_eq!(solver.len(), 0);
    assert_eq!(solver.num_steps(), 15);
    assert_eq!(solver.threshold(), 0.00001);
    assert_eq!(solver.zero(), 0.0);
    let solver: FabrikSolver<f32> = FabrikSolver::new_with_args(4, 0.5, 0.0);
    assert_eq!(solver.num_steps(), 4);
    assert_eq!(solver.threshold(), 0.5);
}

#[test]
fn settings_can_be_changed() {
    let mut solver = chain(&straight(3), 15, 0.1);
    solver.set_num_steps(2);
    solver.set_threshold(0.25);
    assert_eq!(solver.num_steps(), 2);
    assert_eq!(solver.threshold(), 0.25);
    assert_eq!(solver.len(), 3);
    assert_eq!(*solver.local_transform(1), straight(3)[1]);
}

#[test]
fn resize_keeps_links_and_adds_neutral_ones() {
    let mut solver = chain(&bent(3), 15, 0.1);
    solver.resize(5);
    assert_eq!(solver.len(), 5);
    assert_eq!(*solver.local_transform(2), bent(3)[2]);
    assert_eq!(*solver.local_transform(3), Transform::default());
    assert_eq!(*solver.local_transform(4), Transform::default());
    assert_eq!(solver.world_position(4), Vec3::ZERO);
    assert_eq!(solver.length(4), 0.0);
    solver.resize(2);
    assert_eq!(solver.len(), 2);
    assert_eq!(*solver.local_transform(1), bent(3)[1]);
    solver.resize(0);
    assert_eq!(solver.len(), 0);
}

#[test]
fn global_transforms_combine_towards_the_root() {
    let links = bent(4);
    let solver = chain(&links, 15, 0.1);
    assert_eq!(solver.global_transform(0), links[0]);
    assert_eq!(solver.global_transform(1), links[0].combine(&links[1]));
    assert_eq!(solver.global_transform(2), links[0].combine(&links[1].combine(&links[2])));
    assert_eq!(
        solver.global_transform(3),
        links[0].combine(&links[1].combine(&links[2].combine(&links[3])))
    );
}

#[test]
fn the_chain_is_placed_in_space() {
    let mut solver = chain(&straight(4), 15, 0.1);
    solver.ik_chain_to_world(&span);
    for i in 0..4 {
        assert_eq!(solver.world_position(i), Vec3::new(1.0, 2.0 + i as f32, 0.5));
    }
    assert_eq!(solver.length(0), 0.0);
    for i in 1..4 {
        assert_eq!(solver.length(i), 1.0);
    }
}

#[test]
fn the_first_length_is_set_to_zero_each_time() {
    let mut solver: FabrikSolver<f32> = FabrikSolver::new_with_args(15, 0.1, 7.0);
    solver.resize(2);
    solver.set_local_transform(1, link(Vec3::new(3.0, 4.0, 0.0), 0.0));
    assert_eq!(solver.length(0), 7.0);
    assert_eq!(solver.length(1), 7.0);
    solver.ik_chain_to_world(&span);
    // the solver's own zero is what the first link gets
    assert_eq!(solver.length(0), 7.0);
    assert_eq!(solver.length(1), 5.0);
}

#[test]
fn a_goal_that_is_never_reached_takes_all_rounds_and_fails() {
    let never = |_: Vec3, _: Vec3, _: f32| false;
    let rounds = std::cell::Cell::new(0u32);
    let counted = |anchor: Vec3, toward: Vec3, length: f32| {
        rounds.set(rounds.get() + 1);
        towards(anchor, toward, length)
    };
    let mut solver = chain(&bent(4), 9, 1.0e-3);
    let goal = effector(&solver);
    assert!(!solver.solve(goal, &span, &never, &counted, &arc));
    // nine rounds, each of three steps back and three steps forward
    assert_eq!(rounds.get(), 9 * 6);
}

#[test]
fn one_pass_backward_puts_the_end_on_the_goal() {
    let mut solver = chain(&straight(3), 15, 0.1);
    solver.ik_chain_to_world(&span);
    let goal = Vec3::new(3.0, 2.0, 0.5);
    solver.iterate_backward(goal, &towards);
    assert_eq!(solver.world_position(2), goal);
    assert!((span(solver.world_position(1), solver.world_position(2)) - 1.0).abs() < 1.0e-6);
    assert!((span(solver.world_position(0), solver.world_position(1)) - 1.0).abs() < 1.0e-6);
    // link 1 was pulled towards where it stood, at (1, 3, 0.5)
    let direction = (Vec3::new(1.0, 3.0, 0.5) - goal).normalize();
    assert!(span(solver.world_position(1), goal + direction) < 1.0e-6);
}

#[test]
fn one_pass_forward_puts_the_root_on_the_base() {
    let mut solver = chain(&straight(3), 15, 0.1);
    solver.ik_chain_to_world(&span);
    solver.iterate_backward(Vec3::new(3.0, 2.0, 0.5), &towards);
    let base = Vec3::new(1.0, 2.0, 0.5);
    solver.iterate_forward(base, &towards);
    assert_eq!(solver.world_position(0), base);
    assert!((span(solver.world_position(1), base) - 1.0).abs() < 1.0e-6);
    assert!((span(solver.world_position(2), solver.world_position(1)) - 1.0).abs() < 1.0e-6);
}

#[test]
fn positions_are_turned_back_into_rotations() {
    let mut solver = chain(&straight(3), 15, 0.1);
    solver.ik_chain_to_world(&span);
    solver.iterate_backward(Vec3::new(2.0, 3.0, 0.5), &towards);
    solver.iterate_forward(Vec3::new(1.0, 2.0, 0.5), &towards);
    let solved: Vec<Vec3> = (0..3).map(|i| solver.world_position(i)).collect();
    solver.world_to_ik_chain(&arc);
    for i in 0..3 {
        assert!(span(solver.global_transform(i).translation, solved[i]) < 1.0e-5);
        assert_eq!(solver.local_transform(i).translation, straight(3)[i].translation);
        assert_eq!(solver.local_transform(i).scale, straight(3)[i].scale);
    }
    assert_eq!(solver.local_transform(2).rotation, straight(3)[2].rotation);
}

#[test]
fn a_solver_without_links_fails() {
    let mut solver: FabrikSolver<f32> = FabrikSolver::new(0.1, 0.0);
    assert!(!run(&mut solver, Vec3::ONE));
    assert_eq!(solver.len(), 0);
}

#[test]
fn a_chain_already_on_the_goal_succeeds_without_moving() {
    let links = bent(4);
    let mut solver = chain(&links, 15, 1.0e-3);
    let goal = effector(&solver);
    assert!(run(&mut solver, goal));
    for i in 0..4 {
        assert!(solver.local_transform(i).rotation.dot(links[i].rotation).abs() > 0.99999);
    }
}

#[test]
fn no_rounds_means_only_the_check() {
    let links = straight(3);
    let mut solver = chain(&links, 0, 1.0e-3);
    assert!(!run(&mut solver, Vec3::new(2.0, 3.0, 0.5)));
    for i in 0..3 {
        assert!(solver.local_transform(i).rotation.dot(links[i].rotation).abs() > 0.99999);
    }
    let goal = effector(&solver);
    assert!(run(&mut solver, goal));
}

#[test]
fn a_straight_chain_reaches_a_goal_in_range() {
    assert_reaches(&straight(4), Vec3::new(1.5, 1.0, 0.5));
}

#[test]
fn a_bent_chain_reaches_a_goal_in_range() {
    assert_reaches(&bent(4), Vec3::new(-1.0, 1.5, 1.0));
}

#[test]
fn a_chain_of_two_links_reaches_a_goal_in_range() {
    assert_reaches(&bent(3), Vec3::new(0.5, -1.0, 0.75));
}

#[test]
fn a_chain_of_six_links_reaches_a_goal_in_range() {
    assert_reaches(&bent(7), Vec3::new(2.0, 2.0, -3.0));
}

#[test]
fn a_goal_at_full_reach_is_reached() {
    let mut solver = chain(&bent(3), 40, 1.0e-2);
    let base = solver.global_transform(0).translation;
    let goal = base + Vec3::new(0.0, 0.0, 2.0);
    assert!(run(&mut solver, goal));
    assert!(span(effector(&solver), goal) < 2.0e-2);
}

#[test]
fn a_goal_out_of_range_leaves_the_chain_stretched_towards_it() {
    let mut solver = chain(&bent(4), 15, 1.0e-3);
    let base = solver.global_transform(0).translation;
    let total = reach(&solver);
    let direction = Vec3::new(2.0, -1.0, 2.0).normalize();
    let goal = base + direction * (total + 5.0);
    assert!(!run(&mut solver, goal));
    assert!(span(solver.global_transform(0).translation, base) < 1.0e-5);
    for i in 1..4 {
        let expected = base + direction * i as f32;
        assert!(span(solver.global_transform(i).translation, expected) < 1.0e-3);
    }
}

#[test]
fn solving_leaves_translations_and_scales() {
    let links = bent(5);
    let mut solver = chain(&links, 15, 1.0e-3);
    let base = solver.global_transform(0).translation;
    run(&mut solver, base + Vec3::new(1.0, 1.0, 1.0));
    assert_eq!(solver.len(), 5);
    assert_eq!(solver.num_steps(), 15);
    for i in 0..5 {
        assert_eq!(solver.local_transform(i).translation, links[i].translation);
        assert_eq!(solver.local_transform(i).scale, links[i].scale);
    }
}
