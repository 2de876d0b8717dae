use pendulum::angle::PI;
use pendulum::matrix::Matrix;
use pendulum::ekf::{Model, EKF};
use pendulum::model::{NLModel, NLPendulumModel, SineTable, WheelParams, MEASUREMENT_VARIANCE, RATE_PROCESS_VARIANCE};
use pendulum::policy::deployed_grid;

fn wheel() -> WheelParams {
    WheelParams { inertia_ratio: 100_000, static_gain: 330_000_000, time_constant: 560_000 }
}

fn col(v: [i64; 3]) -> Matrix {
    Matrix::from_rows(vec![vec![v[0]], vec![v[1]], vec![v[2]]]).unwrap()
}

#[test]
fn nonlinear_step_values() {
    let m = NLModel { dt: 10_000, wheel: wheel(), sines: SineTable { values: vec![0; 4] } };
    let x = m.step_given_sin(&col([10_000_000, 0, 1_000_000]), 500_000, 0);
    assert_eq!((x.get(0, 0), x.get(1, 0), x.get(2, 0)), (12_767_857, 10_000, 721_215));
}

#[test]
fn nonlinear_jacobian_values() {
    let m = NLModel { dt: 10_000, wheel: wheel(), sines: SineTable { values: vec![0; 4] } };
    let j = m.jacobian_given_cos(-1_000_000);
    assert_eq!(j.get(0, 0), 982_143);
    assert_eq!(j.get(1, 2), 10_000);
    assert_eq!(j.get(2, 0), 1_785);
    assert_eq!(j.get(2, 1), -676_551);
    assert_eq!(j.get(2, 2), 998_000);
    assert_eq!(j.get(0, 1), 0);
}

#[test]
fn nonlinear_noise_and_measurement() {
    let m = NLModel { dt: 10_000, wheel: wheel(), sines: SineTable { values: vec![0; 4] } };
    assert_eq!(m.Q().get(2, 2), RATE_PROCESS_VARIANCE);
    assert_eq!(m.R().get(0, 0), MEASUREMENT_VARIANCE);
    assert_eq!(m.h(&col([1, 2, 3])).get(0, 0), 2);
    assert_eq!(m.hprim(&col([1, 2, 3])).get(0, 1), 1_000_000);
    assert_eq!(m.noise().get(0, 0), 10);
    assert_eq!(m.angle_row().get(0, 2), 0);
}

#[test]
fn simulated_pendulum_step() {
    let mut p = NLPendulumModel::bottom();
    assert_eq!((p.omegaf, p.theta, p.thetadot), (0, PI, 0));
    p.step(&wheel(), 1_000_000, 1_000, 0);
    assert_eq!((p.omegaf, p.theta, p.thetadot), (589_285, PI, -117_857));
    let v = p.as_vec();
    let back = NLPendulumModel::from_vec(&v);
    assert_eq!((back.omegaf, back.theta, back.thetadot), (589_285, PI, -117_857));
    let mut q = NLPendulumModel { omegaf: 0, theta: PI, thetadot: 10_000_000 };
    q.step(&wheel(), 0, 1_000, 0);
    assert_eq!(q.theta, PI + 10_000 - 6_283_186);
}

#[test]
fn deployed_grid_dimensions() {
    let g = deployed_grid();
    assert_eq!(g.cell_count(), 21 * 41 * 41);
    assert_eq!(g.action_count(), 11);
    let up = col([0, 0, 0]);
    assert_eq!(g.cell_of(&up), g.cell_index(10, 20, 20));
}

#[test]
fn sine_table_lookup() {
    let t = SineTable { values: vec![10, 20, 30, 40] };
    assert_eq!(t.sin(0), 20);
    assert_eq!(t.sin(PI), 40);
    assert_eq!(t.sin(-PI + 1), 10);
    assert_eq!(t.sin(6_283_186), 20);
    assert_eq!(t.cos(0), 30);
    assert_eq!(t.cos(PI), 10);
    assert_eq!(SineTable::sample_angle(1, 4), -1_570_796);
    assert_eq!(SineTable::sample_angle(0, 4), -PI + 1);
}

#[test]
fn model_step_uses_table_sine() {
    let m = NLModel { dt: 10_000, wheel: wheel(), sines: SineTable { values: vec![0, 1_000_000] } };
    let x = m.f(&col([0, 1, 0]), 0);
    assert_eq!(x.get(2, 0), 676_551);
    let still = m.f(&col([0, 0, 0]), 0);
    assert_eq!(still.get(2, 0), 0);
    let j = m.fprim(&col([0, 1, 0]));
    assert_eq!(j.get(2, 1), 676_551);
}

#[test]
fn nonlinear_filter_keeps_angle_in_range() {
    let m = NLModel { dt: 10_000, wheel: wheel(), sines: SineTable { values: vec![0, 1_000_000] } };
    let mut ekf = EKF::with_prior(m, 0, 3_000_000, 20_000_000);
    for _ in 0..30 {
        ekf.time_update(0);
        let a = ekf.x.get(1, 0);
        assert!(-PI < a && a <= PI);
    }
    assert_eq!(ekf.measurment_update(&Matrix::from_rows(vec![vec![0]]).unwrap()), Some(()));
    let a = ekf.x.get(1, 0);
    assert!(-PI < a && a <= PI);
}
