use pendulum::angle::{PI, TWO_PI};
use pendulum::ekf::{LinearModel, EKF, INITIAL_VARIANCE};
use pendulum::matrix::Matrix;

fn mat(rows: Vec<Vec<i64>>) -> Matrix {
    Matrix::from_rows(rows).unwrap()
}

fn identity_model(c: Vec<i64>, r: i64) -> LinearModel {
    LinearModel::new(
        mat(vec![vec![1_000_000, 0, 0], vec![0, 1_000_000, 0], vec![0, 0, 1_000_000]]),
        mat(vec![vec![0], vec![0], vec![0]]),
        mat(vec![c]),
        mat(vec![vec![0]]),
        mat(vec![vec![1_000, 0, 0], vec![0, 1_000, 0], vec![0, 0, 1_000]]),
        mat(vec![vec![r]]),
    )
    .unwrap()
}

fn column(m: &Matrix) -> Vec<i64> {
    (0..m.nrows()).map(|i| m.get(i, 0)).collect()
}

fn entries(m: &Matrix) -> Vec<i64> {
    let mut v = Vec::new();
    for i in 0..m.nrows() {
        for j in 0..m.ncols() {
            v.push(m.get(i, j));
        }
    }
    v
}

#[test]
fn starts_at_zero_with_large_covariance() {
    let ekf = EKF::from_model(identity_model(vec![0, 1_000_000, 0], 100));
    assert_eq!(column(&ekf.x), vec![0, 0, 0]);
    assert_eq!(ekf.P.get(0, 0), INITIAL_VARIANCE);
    assert_eq!(ekf.P.get(0, 1), 0);
    assert_eq!(ekf.P.trace(), 3 * INITIAL_VARIANCE as i128);
}

#[test]
fn prior_angle_is_wrapped() {
    let ekf = EKF::with_prior(identity_model(vec![0, 1_000_000, 0], 100), 5, PI + TWO_PI, 7);
    assert_eq!(column(&ekf.x), vec![5, PI, 7]);
}

#[test]
fn informative_measurement_shrinks_uncertainty() {
    let mut ekf = EKF::from_model(identity_model(vec![0, 1_000_000, 0], 10_000));
    ekf.time_update(0);
    assert_eq!(ekf.P.get(1, 1), INITIAL_VARIANCE + 1_000);
    let before = ekf.P.trace();
    let r = ekf.measurment_update(&mat(vec![vec![500_000]]));
    assert_eq!(r, Some(()));
    let after = ekf.P.trace();
    assert!(after < before);
    assert!(ekf.P.get(1, 1) < ekf.P.get(0, 0));
    let angle = ekf.x.get(1, 0);
    assert!(angle > 490_000 && angle <= 500_000);
    assert_eq!(ekf.x.get(0, 0), 0);
    assert_eq!(ekf.x.get(2, 0), 0);
}

#[test]
fn singular_innovation_leaves_estimate_unchanged() {
    let mut ekf = EKF::from_model(identity_model(vec![0, 0, 0], 0));
    ekf.time_update(0);
    let x = column(&ekf.x);
    let p = entries(&ekf.P);
    assert_eq!(ekf.measurment_update(&mat(vec![vec![123_456]])), None);
    assert_eq!(ekf.measurment_update_from_error(&mat(vec![vec![-5]])), None);
    assert_eq!(column(&ekf.x), x);
    assert_eq!(entries(&ekf.P), p);
}

#[test]
fn angle_stays_in_range_over_time_updates() {
    let model = LinearModel::new(
        mat(vec![vec![1_000_000, 0, 0], vec![0, 1_000_000, 1_000_000], vec![0, 0, 1_000_000]]),
        mat(vec![vec![0], vec![0], vec![0]]),
        mat(vec![vec![0, 1_000_000, 0]]),
        mat(vec![vec![0]]),
        mat(vec![vec![0, 0, 0], vec![0, 0, 0], vec![0, 0, 0]]),
        mat(vec![vec![100]]),
    )
    .unwrap();
    let mut ekf = EKF::with_prior(model, 0, 0, 1_000_000);
    ekf.time_update(0);
    ekf.time_update(0);
    ekf.time_update(0);
    assert_eq!(ekf.x.get(1, 0), 3_000_000);
    ekf.time_update(0);
    assert_eq!(ekf.x.get(1, 0), 4_000_000 - TWO_PI);
    for _ in 0..50 {
        ekf.time_update(0);
        let a = ekf.x.get(1, 0);
        assert!(-PI < a && a <= PI);
    }
}

#[test]
fn input_enters_through_b() {
    let model = LinearModel::new(
        mat(vec![vec![500_000, 0, 0], vec![0, 1_000_000, 0], vec![0, 0, 1_000_000]]),
        mat(vec![vec![2_000_000], vec![0], vec![-1_000_000]]),
        mat(vec![vec![0, 1_000_000, 0]]),
        mat(vec![vec![0]]),
        mat(vec![vec![0, 0, 0], vec![0, 0, 0], vec![0, 0, 0]]),
        mat(vec![vec![100]]),
    )
    .unwrap();
    let mut ekf = EKF::with_prior(model, 4_000_000, 0, 0);
    ekf.time_update(250_000);
    assert_eq!(column(&ekf.x), vec![2_500_000, 0, -250_000]);
    assert_eq!(ekf.P.get(0, 0), INITIAL_VARIANCE / 4);
}

#[test]
fn mismatched_model_shapes_are_refused() {
    let m = LinearModel::new(
        mat(vec![vec![1, 0], vec![0, 1]]),
        mat(vec![vec![0], vec![0], vec![0]]),
        mat(vec![vec![0, 1, 0]]),
        mat(vec![vec![0]]),
        mat(vec![vec![0, 0, 0], vec![0, 0, 0], vec![0, 0, 0]]),
        mat(vec![vec![1]]),
    );
    assert!(m.is_none());
}

#[test]
fn matrix_products_and_inverse() {
    let a = mat(vec![vec![1_000_000, 2_000_000], vec![3_000_000, 4_000_000]]);
    let b = mat(vec![vec![500_000], vec![-1_000_000]]);
    let c = a.mul(&b);
    assert_eq!(column(&c), vec![-1_500_000, -2_500_000]);
    assert_eq!(entries(&a.transpose()), vec![1_000_000, 3_000_000, 2_000_000, 4_000_000]);
    assert_eq!(a.det(), -2_000_000);
    let inv = a.try_inverse().unwrap();
    assert_eq!(entries(&inv), vec![-2_000_000, 1_000_000, 1_500_000, -500_000]);
    let d3 = mat(vec![vec![2_000_000, 0, 0], vec![0, 4_000_000, 0], vec![0, 0, 5_000_000]]);
    assert_eq!(d3.det(), 40_000_000);
    assert_eq!(entries(&d3.try_inverse().unwrap()), vec![500_000, 0, 0, 0, 250_000, 0, 0, 0, 200_000]);
    let singular = mat(vec![vec![1_000_000, 2_000_000], vec![2_000_000, 4_000_000]]);
    assert!(singular.try_inverse().is_none());
    assert!(Matrix::from_rows(vec![vec![1, 2], vec![3]]).is_none());
    assert!(Matrix::from_rows(vec![]).is_none());
    let z = Matrix::zeros(2, 3);
    assert_eq!(entries(&z), vec![0; 6]);
    assert_eq!(entries(&Matrix::diag(2, 7)), vec![7, 0, 0, 7]);
    assert_eq!(entries(&a.add(&a)), vec![2_000_000, 4_000_000, 6_000_000, 8_000_000]);
    assert_eq!(entries(&a.sub(&a)), vec![0, 0, 0, 0]);
    assert_eq!(entries(&a.scale(500_000)), vec![500_000, 1_000_000, 1_500_000, 2_000_000]);
}
