//! The nonlinear pendulum and reaction-wheel physics.
//!
//! The sine of the pendulum angle comes from a table of samples that the
//! caller computes once; the cosine is read from it a quarter turn on.
use vstd::prelude::*;
use crate::angle::{PI, TWO_PI, wrap_spec, wrap_angle, lemma_wrap};
use crate::ekf::{Model, NX, shaped};
use crate::fixed::{SCALE, add_spec, sub_spec, mul_spec, div_spec, fx_add, fx_sub, fx_mul, fx_div};
use crate::matrix::Matrix;

verus! {

/// Gravity: 9.81 m/s^2.
pub const GRAVITY: i64 = 9_810_000;

/// Pendulum length: 0.145 m.
pub const RADIUS: i64 = 145_000;

/// Viscous damping of the pendulum: 0.2 per second.
pub const DAMPING: i64 = 200_000;

/// Process variance of the wheel speed in the filter's nonlinear model.
pub const WHEEL_PROCESS_VARIANCE: i64 = 10;

/// Process variance of the rate in the filter's nonlinear model: large
/// enough that the rate follows the measurements rather than the model.
pub const RATE_PROCESS_VARIANCE: i64 = 10_000_000_000_000_000;

/// Variance of an angle measurement: the smallest positive value.
pub const MEASUREMENT_VARIANCE: i64 = 1;

/// Physical parameters of the wheel.
#[derive(Clone, Copy, Debug)]
pub struct WheelParams {
    /// Ratio of wheel to pendulum inertia.
    pub inertia_ratio: i64,
    /// Steady wheel speed per unit of command.
    pub static_gain: i64,
    /// Time constant of the wheel's speed response.
    pub time_constant: i64,
}

/// A quarter turn in micro-radians.
pub const HALF_PI: i64 = 1_570_796;

/// Samples of the sine over one turn: sample `k` of `n` stands for the
/// angles from `-PI + 1 + k * TWO_PI / n` up to the next sample.
#[derive(Clone, Debug)]
pub struct SineTable {
    pub values: Vec<i64>,
}

/// The sample that angle `a` falls in, in a table of `n` samples.
pub open spec fn sample_index(a: int, n: int) -> int {
    (wrap_spec(a) + PI - 1) * n / (TWO_PI as int)
}

impl SineTable {
    /// The table has samples, not too many to index.
    pub open spec fn wf(&self) -> bool {
        1 <= self.values@.len() <= 0x1_0000_0000
    }

    /// The sine of `a` as the table gives it.
    pub open spec fn sin_spec(&self, a: int) -> i64 {
        self.values@[sample_index(a, self.values@.len() as int)]
    }

    /// The cosine of `a` as the table gives it: the sine a quarter turn on.
    pub open spec fn cos_spec(&self, a: int) -> i64 {
        self.sin_spec(a + HALF_PI)
    }

    /// The first angle of sample `k` of `n`.
    pub open spec fn sample_start(k: int, n: int) -> int {
        -PI + 1 + k * TWO_PI / n
    }

    /// The first angle of sample `k` in a table of `n` samples: where a
    /// caller evaluates the sine to fill the table.
    pub fn sample_angle(k: usize, n: usize) -> (a: i64)
        requires
            k < n,
            n <= 0x1_0000_0000,
        ensures
            a == Self::sample_start(k as int, n as int),
    {
        proof {
            assert(k * TWO_PI <= n * TWO_PI) by (nonlinear_arith)
                requires k < n;
            assert(0 <= k * TWO_PI) by (nonlinear_arith)
                requires k >= 0;
            vstd::arithmetic::div_mod::lemma_div_is_ordered((k * TWO_PI) as int, (n * TWO_PI) as int, n as int);
            vstd::arithmetic::div_mod::lemma_div_by_multiple(TWO_PI as int, n as int);
            assert(n * TWO_PI == TWO_PI * n) by (nonlinear_arith);
            vstd::arithmetic::div_mod::lemma_div_pos_is_pos((k * TWO_PI) as int, n as int);
        }
        let off: i128 = (k as i128 * TWO_PI as i128) / n as i128;
        (-PI as i128 + 1 + off) as i64
    }

    fn index(&self, a: i64) -> (k: usize)
        requires
            self.wf(),
        ensures
            k == sample_index(a as int, self.values@.len() as int),
            k < self.values@.len(),
    {
        let n = self.values.len();
        let w = wrap_angle(a);
        let off: i128 = w as i128 + PI as i128 - 1;
        proof {
            let (o, nn) = (off as int, n as int);
            assert(0 <= o < TWO_PI);
            assert(o * nn < TWO_PI * nn) by (nonlinear_arith)
                requires 0 <= o < TWO_PI, nn >= 1;
            assert(0 <= o * nn) by (nonlinear_arith)
                requires 0 <= o, nn >= 1;
            vstd::arithmetic::div_mod::lemma_div_is_ordered(o * nn, TWO_PI * nn - 1, TWO_PI as int);
            vstd::arithmetic::div_mod::lemma_fundamental_div_mod(TWO_PI * nn - 1, TWO_PI as int);
            let qq = (TWO_PI * nn - 1) / (TWO_PI as int);
            let rr = (TWO_PI * nn - 1) % (TWO_PI as int);
            assert(qq < nn) by (nonlinear_arith)
                requires qq * TWO_PI + rr == TWO_PI * nn - 1, rr >= 0;
            vstd::arithmetic::div_mod::lemma_div_pos_is_pos(o * nn, TWO_PI as int);
        }
        ((off * n as i128) / TWO_PI as i128) as usize
    }

    /// The sine of `a`: the sample that `a` falls in.
    pub fn sin(&self, a: i64) -> (r: i64)
        requires
            self.wf(),
        ensures
            r == self.sin_spec(a as int),
    {
        self.values[self.index(a)]
    }

    /// The cosine of `a`: the sample a quarter turn on.
    pub fn cos(&self, a: i64) -> (r: i64)
        requires
            self.wf(),
        ensures
            r == self.cos_spec(a as int),
    {
        let w = wrap_angle(a);
        proof {
            lemma_wrap(a as int);
            lemma_wrap_shift(a as int, w as int, HALF_PI as int);
        }
        self.values[self.index(w + HALF_PI)]
    }
}

/// Angles that differ by whole turns wrap alike, also after the same shift.
proof fn lemma_wrap_shift(a: int, w: int, d: int)
    requires
        w == wrap_spec(a),
    ensures
        wrap_spec(w + d) == wrap_spec(a + d),
{
    lemma_wrap(a);
    let t = TWO_PI as int;
    let k = (w - a) / t;
    vstd::arithmetic::div_mod::lemma_fundamental_div_mod(w - a, t);
    assert(w + d + PI - 1 == (a + d + PI - 1) + k * t);
    vstd::arithmetic::div_mod::lemma_mod_multiples_vanish(k, a + d + PI - 1, t);
    assert(k * t + (a + d + PI - 1) == (a + d + PI - 1) + k * t);
}

/// The filter's nonlinear model, one step of `dt` seconds long.
#[derive(Clone, Debug)]
pub struct NLModel {
    pub dt: i64,
    pub wheel: WheelParams,
    pub sines: SineTable,
}

/// `a / b` in fixed point, `b` nonzero.
pub open spec fn q(a: int, b: int) -> int {
    div_spec(a, b)
}

impl NLModel {
    /// The wheel's time constant can divide and the sine table has samples.
    pub open spec fn wf(&self) -> bool {
        self.wheel.time_constant != 0 && self.sines.wf()
    }

    /// The next wheel speed.
    pub open spec fn next_wheel(&self, w: int, u: int) -> int {
        let (dt, tc) = (self.dt as int, self.wheel.time_constant as int);
        add_spec(sub_spec(w, q(mul_spec(dt, w), tc)), mul_spec(q(mul_spec(dt, self.wheel.static_gain as int), tc), u))
    }

    /// The next pendulum angle, before wrapping.
    pub open spec fn next_angle(&self, a: int, r: int) -> int {
        add_spec(a, mul_spec(self.dt as int, r))
    }

    /// The next pendulum rate, given the sine of the angle.
    pub open spec fn next_rate(&self, w: int, r: int, u: int, sin_angle: int) -> int {
        let (dt, tc, ir) = (self.dt as int, self.wheel.time_constant as int, self.wheel.inertia_ratio as int);
        let accel = sub_spec(
            add_spec(q(mul_spec(ir, w), tc), q(mul_spec(GRAVITY as int, sin_angle), RADIUS as int)),
            mul_spec(DAMPING as int, r),
        );
        let gain = sub_spec(0, q(mul_spec(mul_spec(dt, ir), self.wheel.static_gain as int), tc));
        add_spec(add_spec(r, mul_spec(dt, accel)), mul_spec(gain, u))
    }

    /// The state after one step from `x` under `u`.
    pub open spec fn step_spec(&self, x: Seq<Seq<i64>>, u: int, sin_angle: int) -> Seq<Seq<i64>> {
        seq![
            seq![self.next_wheel(x[0][0] as int, u) as i64],
            seq![self.next_angle(x[1][0] as int, x[2][0] as int) as i64],
            seq![self.next_rate(x[0][0] as int, x[2][0] as int, u, sin_angle) as i64],
        ]
    }

    /// The Jacobian of the step, given the cosine of the angle.
    pub open spec fn jacobian_spec(&self, cos_angle: int) -> Seq<Seq<i64>> {
        let (dt, tc, ir) = (self.dt as int, self.wheel.time_constant as int, self.wheel.inertia_ratio as int);
        seq![
            seq![sub_spec(SCALE as int, q(dt, tc)) as i64, 0i64, 0i64],
            seq![0i64, SCALE, self.dt],
            seq![
                q(mul_spec(dt, ir), tc) as i64,
                mul_spec(dt, q(mul_spec(GRAVITY as int, cos_angle), RADIUS as int)) as i64,
                sub_spec(SCALE as int, mul_spec(dt, DAMPING as int)) as i64,
            ],
        ]
    }

    /// One step of the dynamics from `x` under the command `u`; `sin_angle`
    /// is the sine of the angle in `x`.
    pub fn step_given_sin(&self, x: &Matrix, u: i64, sin_angle: i64) -> (r: Matrix)
        requires
            self.wf(),
            shaped(*x, NX as int, 1),
        ensures
            shaped(r, NX as int, 1),
            r@ == self.step_spec(x@, u as int, sin_angle as int),
    {
        let (dt, tc, ir, gain) = (self.dt, self.wheel.time_constant, self.wheel.inertia_ratio, self.wheel.static_gain);
        let w = x.get(0, 0);
        let a = x.get(1, 0);
        let r = x.get(2, 0);
        let w1 = fx_add(fx_sub(w, fx_div(fx_mul(dt, w), tc)), fx_mul(fx_div(fx_mul(dt, gain), tc), u));
        let a1 = fx_add(a, fx_mul(dt, r));
        let accel = fx_sub(
            fx_add(fx_div(fx_mul(ir, w), tc), fx_div(fx_mul(GRAVITY, sin_angle), RADIUS)),
            fx_mul(DAMPING, r),
        );
        let ugain = fx_sub(0, fx_div(fx_mul(fx_mul(dt, ir), gain), tc));
        let r1 = fx_add(fx_add(r, fx_mul(dt, accel)), fx_mul(ugain, u));
        let mut out = Matrix::zeros(NX, 1);
        out.set(0, 0, w1);
        out.set(1, 0, a1);
        out.set(2, 0, r1);
        assert(out@ =~~= self.step_spec(x@, u as int, sin_angle as int));
        out
    }

    /// The Jacobian of the step; `cos_angle` is the cosine of the angle at
    /// which it is taken.
    pub fn jacobian_given_cos(&self, cos_angle: i64) -> (r: Matrix)
        requires
            self.wf(),
        ensures
            shaped(r, NX as int, NX as int),
            r@ == self.jacobian_spec(cos_angle as int),
    {
        let (dt, tc, ir) = (self.dt, self.wheel.time_constant, self.wheel.inertia_ratio);
        let mut m = Matrix::zeros(NX, NX);
        m.set(0, 0, fx_sub(SCALE, fx_div(dt, tc)));
        m.set(1, 1, SCALE);
        m.set(1, 2, dt);
        m.set(2, 0, fx_div(fx_mul(dt, ir), tc));
        m.set(2, 1, fx_mul(dt, fx_div(fx_mul(GRAVITY, cos_angle), RADIUS)));
        m.set(2, 2, fx_sub(SCALE, fx_mul(dt, DAMPING)));
        assert(m@ =~~= self.jacobian_spec(cos_angle as int));
        m
    }

    /// The process noise covariance.
    pub fn noise(&self) -> (r: Matrix)
        ensures
            shaped(r, NX as int, NX as int),
            r@ == seq![seq![WHEEL_PROCESS_VARIANCE, 0i64, 0i64], seq![0i64, 0i64, 0i64], seq![0i64, 0i64, RATE_PROCESS_VARIANCE]],
    {
        let mut m = Matrix::zeros(NX, NX);
        m.set(0, 0, WHEEL_PROCESS_VARIANCE);
        m.set(2, 2, RATE_PROCESS_VARIANCE);
        assert(m@ =~~= seq![seq![WHEEL_PROCESS_VARIANCE, 0i64, 0i64], seq![0i64, 0i64, 0i64], seq![0i64, 0i64, RATE_PROCESS_VARIANCE]]);
        m
    }

    /// The measurement: the angle alone.
    pub fn angle_of(&self, x: &Matrix) -> (r: Matrix)
        requires
            shaped(*x, NX as int, 1),
        ensures
            shaped(r, 1, 1),
            r@ == seq![seq![x@[1][0]]],
    {
        let mut m = Matrix::zeros(1, 1);
        m.set(0, 0, x.get(1, 0));
        assert(m@ =~~= seq![seq![x@[1][0]]]);
        m
    }

    /// The Jacobian of the measurement.
    pub fn angle_row(&self) -> (r: Matrix)
        ensures
            shaped(r, 1, NX as int),
            r@ == seq![seq![0i64, SCALE, 0i64]],
    {
        let mut m = Matrix::zeros(1, NX);
        m.set(0, 1, SCALE);
        assert(m@ =~~= seq![seq![0i64, SCALE, 0i64]]);
        m
    }

    /// The measurement noise covariance.
    pub fn measurement_noise(&self) -> (r: Matrix)
        ensures
            shaped(r, 1, 1),
            r@ == seq![seq![MEASUREMENT_VARIANCE]],
    {
        let mut m = Matrix::zeros(1, 1);
        m.set(0, 0, MEASUREMENT_VARIANCE);
        assert(m@ =~~= seq![seq![MEASUREMENT_VARIANCE]]);
        m
    }
}

impl Model for NLModel {
    open spec fn ny(&self) -> int {
        1
    }

    open spec fn model_wf(&self) -> bool {
        self.wf()
    }

    open spec fn f_spec(&self, x: Seq<Seq<i64>>, u: i64) -> Seq<Seq<i64>> {
        self.step_spec(x, u as int, self.sines.sin_spec(x[1][0] as int) as int)
    }

    open spec fn fprim_spec(&self, x: Seq<Seq<i64>>) -> Seq<Seq<i64>> {
        self.jacobian_spec(self.sines.cos_spec(x[1][0] as int) as int)
    }

    open spec fn q_spec(&self) -> Seq<Seq<i64>> {
        seq![seq![WHEEL_PROCESS_VARIANCE, 0i64, 0i64], seq![0i64, 0i64, 0i64], seq![0i64, 0i64, RATE_PROCESS_VARIANCE]]
    }

    open spec fn h_spec(&self, x: Seq<Seq<i64>>) -> Seq<Seq<i64>> {
        seq![seq![x[1][0]]]
    }

    open spec fn hprim_spec(&self, x: Seq<Seq<i64>>) -> Seq<Seq<i64>> {
        seq![seq![0i64, SCALE, 0i64]]
    }

    open spec fn r_spec(&self) -> Seq<Seq<i64>> {
        seq![seq![MEASUREMENT_VARIANCE]]
    }

    proof fn lemma_ny(&self) {
    }

    fn f(&self, x: &Matrix, u: i64) -> (r: Matrix) {
        let s = self.sines.sin(x.get(1, 0));
        self.step_given_sin(x, u, s)
    }

    fn fprim(&self, x: &Matrix) -> (r: Matrix) {
        let c = self.sines.cos(x.get(1, 0));
        self.jacobian_given_cos(c)
    }

    fn Q(&self) -> (r: Matrix) {
        self.noise()
    }

    fn h(&self, x: &Matrix) -> (r: Matrix) {
        self.angle_of(x)
    }

    fn hprim(&self, x: &Matrix) -> (r: Matrix) {
        self.angle_row()
    }

    fn R(&self) -> (r: Matrix) {
        self.measurement_noise()
    }
}

/// The simulated pendulum of the offline solver.
#[derive(Clone, Copy, Debug)]
pub struct NLPendulumModel {
    pub omegaf: i64,
    pub theta: i64,
    pub thetadot: i64,
}

impl NLPendulumModel {
    /// The pendulum hanging at rest with the wheel still.
    pub fn bottom() -> (r: NLPendulumModel)
        ensures
            r.omegaf == 0 && r.theta == PI && r.thetadot == 0,
    {
        NLPendulumModel { omegaf: 0, theta: PI, thetadot: 0 }
    }

    /// The state after one step of `dt` seconds under the command `u`;
    /// `sin_theta` is the sine of the current angle.
    pub open spec fn step_spec(s: NLPendulumModel, w: WheelParams, u: int, dt: int, sin_theta: int) -> NLPendulumModel {
        let domegaf = q(sub_spec(mul_spec(w.static_gain as int, u), s.omegaf as int), w.time_constant as int);
        let dthetadot = add_spec(
            sub_spec(mul_spec(-(2 * w.inertia_ratio), domegaf), mul_spec(DAMPING as int, s.thetadot as int)),
            mul_spec(q(GRAVITY as int, RADIUS as int), sin_theta),
        );
        NLPendulumModel {
            omegaf: add_spec(s.omegaf as int, mul_spec(dt, domegaf)) as i64,
            theta: wrap_spec(add_spec(s.theta as int, mul_spec(dt, s.thetadot as int))) as i64,
            thetadot: add_spec(s.thetadot as int, mul_spec(dt, dthetadot)) as i64,
        }
    }

    /// Advances the state by `dt` seconds under the command `u`; the angle
    /// is kept in `(-PI, PI]`.
    pub fn step(&mut self, w: &WheelParams, u: i64, dt: i64, sin_theta: i64)
        requires
            w.time_constant != 0,
            -(i64::MAX / 2) <= w.inertia_ratio <= i64::MAX / 2,
        ensures
            *final(self) == Self::step_spec(*old(self), *w, u as int, dt as int, sin_theta as int),
    {
        let domegaf = fx_div(fx_sub(fx_mul(w.static_gain, u), self.omegaf), w.time_constant);
        let dthetadot = fx_add(
            fx_sub(fx_mul(-(2 * w.inertia_ratio), domegaf), fx_mul(DAMPING, self.thetadot)),
            fx_mul(fx_div(GRAVITY, RADIUS), sin_theta),
        );
        let omegaf = fx_add(self.omegaf, fx_mul(dt, domegaf));
        let theta = wrap_angle(fx_add(self.theta, fx_mul(dt, self.thetadot)));
        let thetadot = fx_add(self.thetadot, fx_mul(dt, dthetadot));
        self.omegaf = omegaf;
        self.theta = theta;
        self.thetadot = thetadot;
    }

    /// The state from a column of three.
    pub fn from_vec(v: &Matrix) -> (r: NLPendulumModel)
        requires
            shaped(*v, NX as int, 1),
        ensures
            r.omegaf == v@[0][0] && r.theta == v@[1][0] && r.thetadot == v@[2][0],
    {
        NLPendulumModel { omegaf: v.get(0, 0), theta: v.get(1, 0), thetadot: v.get(2, 0) }
    }

    /// The state as a column of three.
    pub fn as_vec(&self) -> (r: Matrix)
        ensures
            shaped(r, NX as int, 1),
            r@ == seq![seq![self.omegaf], seq![self.theta], seq![self.thetadot]],
    {
        let mut m = Matrix::zeros(NX, 1);
        m.set(0, 0, self.omegaf);
        m.set(1, 0, self.theta);
        m.set(2, 0, self.thetadot);
        assert(m@ =~~= seq![seq![self.omegaf], seq![self.theta], seq![self.thetadot]]);
        m
    }
}

} // verus!
