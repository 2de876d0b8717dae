use pendulum::discretizer::Discretizer;
use pendulum::ekf::LinearModel;
use pendulum::matrix::Matrix;
use pendulum::policy::{build_transitions, derive_policy, policy_command, sweep, value_iteration, StateGrid};

fn mat(rows: Vec<Vec<i64>>) -> Matrix {
    Matrix::from_rows(rows).unwrap()
}

fn still_model() -> LinearModel {
    let z3 = || mat(vec![vec![0, 0, 0], vec![0, 0, 0], vec![0, 0, 0]]);
    LinearModel::new(
        z3(),
        mat(vec![vec![0], vec![0], vec![0]]),
        mat(vec![vec![0, 1_000_000, 0]]),
        mat(vec![vec![0]]),
        z3(),
        mat(vec![vec![1]]),
    )
    .unwrap()
}

fn grid() -> StateGrid {
    let d = Discretizer::new(-1_000_000, 1_000_000, 2).unwrap();
    let u = Discretizer::new(-1_000_000, 1_000_000, 3).unwrap();
    StateGrid::new(d, d, d, u).unwrap()
}

#[test]
fn cells_and_centres() {
    let g = grid();
    assert_eq!(g.cell_count(), 8);
    assert_eq!(g.action_count(), 3);
    assert_eq!(g.cell_index(1, 0, 1), 5);
    let x = g.cell_center(5);
    assert_eq!((x.get(0, 0), x.get(1, 0), x.get(2, 0)), (1_000_000, -1_000_000, 1_000_000));
    assert_eq!(g.cell_of(&x), 5);
    assert_eq!(g.action_value(1), 0);
}

#[test]
fn oversized_grid_is_refused() {
    let d = Discretizer::new(i64::MIN, i64::MAX, 1 << 40).unwrap();
    let u = Discretizer::new(-1_000_000, 1_000_000, 3).unwrap();
    assert!(StateGrid::new(d, d, d, u).is_none());
}

#[test]
fn single_reachable_cell_converges_to_its_reward() {
    let g = grid();
    let trans = build_transitions(&g, &still_model(), 4);
    assert_eq!(trans.len(), 24);
    let target = g.cell_index(1, 1, 1);
    assert!(trans.iter().all(|&t| t == target));
    let mut rewards = vec![0i64; 8];
    rewards[target] = 5_000_000;
    let values = value_iteration(&rewards, &trans, 3, 1_000_000, 1);
    assert!(values.iter().all(|&v| v == 5_000_000));
    let slow = value_iteration(&rewards, &trans, 3, 500_000, 40);
    assert_eq!(slow[target], 5_000_000);
    assert!(slow.iter().all(|&v| (5_000_000 - v).abs() <= 2));
    let policy = derive_policy(&values, &trans, 3);
    assert_eq!(policy, vec![0; 8]);
    let x = g.cell_center(0);
    assert_eq!(policy_command(&g, &policy, &x), -1_000_000);
}

#[test]
fn sweep_is_synchronous_and_blended() {
    let rewards = vec![0, 0, 10_000_000];
    let trans = vec![1, 2, 2, 0, 2, 2];
    let values = vec![0, 4_000_000, 10_000_000];
    let next = sweep(&rewards, &trans, 2, &values, 500_000);
    assert_eq!(next, vec![5_000_000, 7_000_000, 10_000_000]);
}

#[test]
fn policy_takes_first_best_action() {
    let values = vec![3, 7, 7, 1];
    let trans = vec![0, 1, 2, 3, 3, 2, 0, 0, 0, 3, 1, 2];
    let policy = derive_policy(&values, &trans, 3);
    assert_eq!(policy, vec![1, 2, 0, 1]);
}
