use pendulum::angle::PI;
use pendulum::control::{control_tick, correct_with_angle, finish_tick};
use pendulum::model::{NLModel, SineTable, WheelParams};
use pendulum::controller::{energy, feedback_command, BalancingState, Controller};
use pendulum::ekf::{LinearModel, EKF};
use pendulum::matrix::Matrix;

fn cos_fx(angle: i64) -> i64 {
    ((angle as f64 / 1e6).cos() * 1e6).round() as i64
}

fn mat(rows: Vec<Vec<i64>>) -> Matrix {
    Matrix::from_rows(rows).unwrap()
}

#[test]
fn energy_and_feedback_values() {
    assert_eq!(energy(1_000_000, 0), 1_422_450);
    assert_eq!(energy(-1_000_000, 0), -1_422_450);
    assert_eq!(energy(0, 10_000_000), 1_051_250);
    assert_eq!(feedback_command(0, 100_000, 0), 800_347);
    assert_eq!(feedback_command(1_000_000, 0, 1_000_000), 5_826 + 967_164);
}

#[test]
fn swinging_enters_balancing_near_upright() {
    let mut c = Controller::new();
    let u = c.step(0, 100_000, 0, cos_fx(100_000));
    assert_eq!(c.mode, BalancingState::Balancing);
    assert_eq!(u, -200_000);
    let u = c.step(0, 100_000, 0, cos_fx(100_000));
    assert_eq!(u, 800_347);
    assert_eq!(c.mode, BalancingState::Balancing);
}

#[test]
fn balancing_leaves_when_knocked_over() {
    let mut c = Controller { mode: BalancingState::Balancing, output: 0 };
    let u = c.step(0, 300_000, 0, cos_fx(300_000));
    assert_eq!(c.mode, BalancingState::Chilling);
    assert_eq!(u, 1_000_000);
}

#[test]
fn thresholds_differ_for_entering_and_leaving() {
    let mut c = Controller { mode: BalancingState::Balancing, output: 0 };
    c.step(0, -220_000, 0, cos_fx(-220_000));
    assert_eq!(c.mode, BalancingState::Balancing);
    let mut s = Controller::new();
    s.step(0, -220_000, 0, cos_fx(-220_000));
    assert_eq!(s.mode, BalancingState::Swinging);
}

#[test]
fn large_feedback_keeps_swinging() {
    let mut c = Controller::new();
    c.step(0, 100_000, 3_000_000, cos_fx(100_000));
    assert_eq!(c.mode, BalancingState::Swinging);
}

#[test]
fn swinging_laws() {
    let mut c = Controller::new();
    assert_eq!(c.step(70_000_000, PI, 0, -1_000_000), -150_000);
    assert_eq!(c.step(-70_000_000, PI, 0, -1_000_000), 150_000);
    assert_eq!(c.step(0, PI, -1_000_000, -1_000_000), 200_000);
    assert_eq!(c.step(0, 0, 4_000_000, 1_000_000), 200_000);
    assert_eq!(c.mode, BalancingState::Swinging);
    let mut e = Controller::new();
    assert_eq!(e.step(33_000_000, 1_000_000, 0, 1_000_000), 100_000);
}

#[test]
fn chilling_bleeds_then_swings() {
    let mut c = Controller { mode: BalancingState::Chilling, output: 42 };
    assert_eq!(c.step(5_000_000, 300_000, 0, cos_fx(300_000)), -300_000);
    assert_eq!(c.mode, BalancingState::Chilling);
    assert_eq!(c.step(5_000_000, PI, 0, -1_000_000), -300_000);
    assert_eq!(c.mode, BalancingState::Swinging);
}

#[test]
fn hanging_at_rest_keeps_swinging_with_torque() {
    let model = LinearModel::new(
        mat(vec![vec![1_000_000, 0, 0], vec![0, 1_000_000, 10_000], vec![0, 0, 1_000_000]]),
        mat(vec![vec![0], vec![0], vec![0]]),
        mat(vec![vec![0, 1_000_000, 0]]),
        mat(vec![vec![0]]),
        mat(vec![vec![10, 0, 0], vec![0, 10, 0], vec![0, 0, 10]]),
        mat(vec![vec![10_000]]),
    )
    .unwrap();
    let reference = 1_234_567;
    let mut ekf = EKF::with_prior(model, 0, PI, 0);
    let mut ctrl = Controller::new();
    for _ in 0..20 {
        let raw = pendulum::angle::wrap_angle(reference + PI);
        assert_eq!(correct_with_angle(&mut ekf, raw, reference), Some(()));
        let angle = ekf.x.get(1, 0);
        let u = finish_tick(&mut ekf, &mut ctrl, cos_fx(angle));
        assert_ne!(u, 0);
        assert_eq!(ctrl.mode, BalancingState::Swinging);
    }
}

fn sine_table(n: usize) -> SineTable {
    SineTable { values: (0..n).map(|k| ((SineTable::sample_angle(k, n) as f64 / 1e6).sin() * 1e6).round() as i64).collect() }
}

#[test]
fn control_loop_at_rest_at_the_bottom() {
    let model = NLModel {
        dt: 10_000,
        wheel: WheelParams { inertia_ratio: 100_000, static_gain: 330_000_000, time_constant: 560_000 },
        sines: sine_table(4096),
    };
    let reference = -1_814_995;
    let mut ekf = EKF::with_prior(model, 0, PI, 0);
    let mut ctrl = Controller::new();
    for tick in 0..50 {
        let reading = if tick % 10 == 3 { None } else { Some(pendulum::angle::wrap_angle(reference + PI)) };
        let u = control_tick(&mut ekf, &mut ctrl, reading, reference);
        assert_ne!(u, 0);
        assert_eq!(ctrl.mode, BalancingState::Swinging);
        let a = ekf.x.get(1, 0);
        assert!(-PI < a && a <= PI);
    }
}

#[test]
fn first_tick_at_the_bottom_pumps_energy() {
    let model = NLModel {
        dt: 10_000,
        wheel: WheelParams { inertia_ratio: 100_000, static_gain: 330_000_000, time_constant: 560_000 },
        sines: sine_table(4096),
    };
    let mut ekf = EKF::with_prior(model, 0, PI, 0);
    let mut ctrl = Controller::new();
    let u = control_tick(&mut ekf, &mut ctrl, Some(PI), 0);
    assert_eq!(u, -200_000);
    assert_eq!(ctrl.output, -200_000);
    assert_eq!(ctrl.mode, BalancingState::Swinging);
}
