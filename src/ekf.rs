//! The extended Kalman filter over a pendulum model.
use vstd::prelude::*;
use crate::angle::{in_range, wrap_spec, wrap_angle};
use crate::matrix::{
    Matrix, add_mat, sub_mat, mul_mat, scale_mat, transpose_mat, diag_mat, det_mat, inverse_mat,
};

verus! {

/// Dimension of the state: wheel speed, pendulum angle, pendulum rate.
pub const NX: usize = 3;

/// Position of the pendulum angle in the state.
pub const ANGLE: usize = 1;

/// The initial variance of each state component: ten thousand.
pub const INITIAL_VARIANCE: i64 = 10_000_000_000;

/// `m` is a well-formed `r x c` matrix view.
pub open spec fn shaped(m: Matrix, r: int, c: int) -> bool {
    m.wf() && m.rows() == r && m.cols() == c
}

/// The dynamics and measurement model that the filter runs on.
///
/// The state has [`NX`] components; a measurement has `ny()` components,
/// from one to three.
#[allow(non_snake_case)]
pub trait Model {
    spec fn ny(&self) -> int;

    spec fn model_wf(&self) -> bool;

    /// The state after one step from `x` under the command `u`.
    spec fn f_spec(&self, x: Seq<Seq<i64>>, u: i64) -> Seq<Seq<i64>>;

    /// The Jacobian of the step function at `x`.
    spec fn fprim_spec(&self, x: Seq<Seq<i64>>) -> Seq<Seq<i64>>;

    /// The process noise covariance.
    spec fn q_spec(&self) -> Seq<Seq<i64>>;

    /// The measurement expected in state `x`.
    spec fn h_spec(&self, x: Seq<Seq<i64>>) -> Seq<Seq<i64>>;

    /// The Jacobian of the measurement function at `x`.
    spec fn hprim_spec(&self, x: Seq<Seq<i64>>) -> Seq<Seq<i64>>;

    /// The measurement noise covariance.
    spec fn r_spec(&self) -> Seq<Seq<i64>>;

    proof fn lemma_ny(&self)
        requires
            self.model_wf(),
        ensures
            1 <= self.ny() <= 3,
    ;

    fn f(&self, x: &Matrix, u: i64) -> (r: Matrix)
        requires
            self.model_wf(),
            shaped(*x, NX as int, 1),
        ensures
            shaped(r, NX as int, 1),
            r@ == self.f_spec(x@, u),
    ;

    fn fprim(&self, x: &Matrix) -> (r: Matrix)
        requires
            self.model_wf(),
            shaped(*x, NX as int, 1),
        ensures
            shaped(r, NX as int, NX as int),
            r@ == self.fprim_spec(x@),
    ;

    fn Q(&self) -> (r: Matrix)
        requires
            self.model_wf(),
        ensures
            shaped(r, NX as int, NX as int),
            r@ == self.q_spec(),
    ;

    fn h(&self, x: &Matrix) -> (r: Matrix)
        requires
            self.model_wf(),
            shaped(*x, NX as int, 1),
        ensures
            shaped(r, self.ny(), 1),
            r@ == self.h_spec(x@),
    ;

    fn hprim(&self, x: &Matrix) -> (r: Matrix)
        requires
            self.model_wf(),
            shaped(*x, NX as int, 1),
        ensures
            shaped(r, self.ny(), NX as int),
            r@ == self.hprim_spec(x@),
    ;

    fn R(&self) -> (r: Matrix)
        requires
            self.model_wf(),
        ensures
            shaped(r, self.ny(), self.ny()),
            r@ == self.r_spec(),
    ;
}

/// A model with constant matrices: `x' = A x + B u`, `y = C x`.
#[allow(non_snake_case)]
pub struct LinearModel {
    pub A: Matrix,
    pub B: Matrix,
    pub C: Matrix,
    pub D: Matrix,
    pub Q: Matrix,
    pub R: Matrix,
}

impl LinearModel {
    /// The matrices have the shapes that a model with measurements of
    /// `ny` components needs.
    pub open spec fn shapes_ok(a: Matrix, b: Matrix, c: Matrix, d: Matrix, q: Matrix, r: Matrix) -> bool {
        let ny = c.rows();
        &&& 1 <= ny <= 3
        &&& shaped(a, NX as int, NX as int)
        &&& shaped(b, NX as int, 1)
        &&& shaped(c, ny, NX as int)
        &&& shaped(d, ny, 1)
        &&& shaped(q, NX as int, NX as int)
        &&& shaped(r, ny, ny)
    }

    /// The model with the given matrices, or `None` where their shapes do
    /// not fit together.
    #[allow(non_snake_case)]
    pub fn new(A: Matrix, B: Matrix, C: Matrix, D: Matrix, Q: Matrix, R: Matrix) -> (m: Option<LinearModel>)
        requires
            A.wf(),
            B.wf(),
            C.wf(),
            D.wf(),
            Q.wf(),
            R.wf(),
        ensures
            m is Some <==> Self::shapes_ok(A, B, C, D, Q, R),
            m matches Some(m) ==> m.model_wf() && m.A == A && m.B == B && m.C == C && m.D == D
                && m.Q == Q && m.R == R,
    {
        let ny = C.nrows();
        if 1 <= ny && ny <= 3 && A.nrows() == NX && A.ncols() == NX && B.nrows() == NX && B.ncols() == 1
            && C.ncols() == NX && D.nrows() == ny && D.ncols() == 1 && Q.nrows() == NX && Q.ncols() == NX
            && R.nrows() == ny && R.ncols() == ny {
            Some(LinearModel { A, B, C, D, Q, R })
        } else {
            None
        }
    }
}

impl Model for LinearModel {
    open spec fn ny(&self) -> int {
        self.C.rows()
    }

    open spec fn model_wf(&self) -> bool {
        Self::shapes_ok(self.A, self.B, self.C, self.D, self.Q, self.R)
    }

    open spec fn f_spec(&self, x: Seq<Seq<i64>>, u: i64) -> Seq<Seq<i64>> {
        add_mat(mul_mat(self.A@, x, NX as int, 1), scale_mat(self.B@, u as int))
    }

    open spec fn fprim_spec(&self, x: Seq<Seq<i64>>) -> Seq<Seq<i64>> {
        self.A@
    }

    open spec fn q_spec(&self) -> Seq<Seq<i64>> {
        self.Q@
    }

    open spec fn h_spec(&self, x: Seq<Seq<i64>>) -> Seq<Seq<i64>> {
        mul_mat(self.C@, x, NX as int, 1)
    }

    open spec fn hprim_spec(&self, x: Seq<Seq<i64>>) -> Seq<Seq<i64>> {
        self.C@
    }

    open spec fn r_spec(&self) -> Seq<Seq<i64>> {
        self.R@
    }

    proof fn lemma_ny(&self) {
    }

    fn f(&self, x: &Matrix, u: i64) -> (r: Matrix) {
        self.A.mul(x).add(&self.B.scale(u))
    }

    fn fprim(&self, x: &Matrix) -> (r: Matrix) {
        self.A.copy()
    }

    fn Q(&self) -> (r: Matrix) {
        self.Q.copy()
    }

    fn h(&self, x: &Matrix) -> (r: Matrix) {
        self.C.mul(x)
    }

    fn hprim(&self, x: &Matrix) -> (r: Matrix) {
        self.C.copy()
    }

    fn R(&self) -> (r: Matrix) {
        self.R.copy()
    }
}

/// The state `x` with its angle brought into `(-PI, PI]`.
pub open spec fn normalize(x: Seq<Seq<i64>>) -> Seq<Seq<i64>> {
    x.update(ANGLE as int, x[ANGLE as int].update(0, wrap_spec(x[ANGLE as int][0] as int) as i64))
}

/// The covariance after a time step: `Q + F P F^T`.
pub open spec fn propagate_cov(q: Seq<Seq<i64>>, fx: Seq<Seq<i64>>, p: Seq<Seq<i64>>) -> Seq<Seq<i64>> {
    add_mat(q, mul_mat(mul_mat(fx, p, NX as int, NX as int), transpose_mat(fx, NX as int, NX as int), NX as int, NX as int))
}

/// The innovation covariance `S = R + H P H^T`.
pub open spec fn innovation_cov<M: Model>(m: M, x: Seq<Seq<i64>>, p: Seq<Seq<i64>>) -> Seq<Seq<i64>> {
    let hx = m.hprim_spec(x);
    add_mat(m.r_spec(), mul_mat(mul_mat(hx, p, NX as int, NX as int), transpose_mat(hx, m.ny(), NX as int), NX as int, m.ny()))
}

/// The Kalman gain `K = P H^T S^-1`.
pub open spec fn gain<M: Model>(m: M, x: Seq<Seq<i64>>, p: Seq<Seq<i64>>) -> Seq<Seq<i64>> {
    let hx = m.hprim_spec(x);
    let inv_s = inverse_mat(innovation_cov(m, x, p), m.ny());
    mul_mat(mul_mat(p, transpose_mat(hx, m.ny(), NX as int), NX as int, m.ny()), inv_s, m.ny(), m.ny())
}

/// The extended Kalman filter: a state estimate, its covariance, and the
/// model that advances and observes them.
#[allow(non_snake_case)]
pub struct EKF<M> {
    pub x: Matrix,
    pub P: Matrix,
    pub model: M,
}

impl<M: Model> EKF<M> {
    /// The shapes fit the model and the angle lies in `(-PI, PI]`.
    pub open spec fn wf(&self) -> bool {
        &&& self.model.model_wf()
        &&& shaped(self.x, NX as int, 1)
        &&& shaped(self.P, NX as int, NX as int)
        &&& in_range(self.x@[ANGLE as int][0] as int)
    }

    /// A filter at the zero state with a large diagonal covariance.
    pub fn from_model(model: M) -> (r: Self)
        requires
            model.model_wf(),
        ensures
            r.wf(),
            r.model == model,
            r.x@ == Seq::new(NX as nat, |i: int| Seq::new(1, |j: int| 0i64)),
            r.P@ == diag_mat(NX as int, INITIAL_VARIANCE),
    {
        EKF { x: Matrix::zeros(NX, 1), P: Matrix::diag(NX, INITIAL_VARIANCE), model }
    }

    /// A filter at the given prior state with a large diagonal covariance;
    /// the angle is brought into `(-PI, PI]`.
    pub fn with_prior(model: M, wheel_speed: i64, angle: i64, rate: i64) -> (r: Self)
        requires
            model.model_wf(),
        ensures
            r.wf(),
            r.model == model,
            r.x@ == seq![seq![wheel_speed], seq![wrap_spec(angle as int) as i64], seq![rate]],
            r.P@ == diag_mat(NX as int, INITIAL_VARIANCE),
    {
        let mut x = Matrix::zeros(NX, 1);
        x.set(0, 0, wheel_speed);
        x.set(1, 0, wrap_angle(angle));
        x.set(2, 0, rate);
        assert(x@ =~~= seq![seq![wheel_speed], seq![wrap_spec(angle as int) as i64], seq![rate]]);
        EKF { x, P: Matrix::diag(NX, INITIAL_VARIANCE), model }
    }

    fn normalize_angle(x: &mut Matrix)
        requires
            shaped(*old(x), NX as int, 1),
        ensures
            shaped(*final(x), NX as int, 1),
            final(x)@ == normalize(old(x)@),
            in_range(final(x)@[ANGLE as int][0] as int),
    {
        let a = x.get(ANGLE, 0);
        x.set(ANGLE, 0, wrap_angle(a));
    }

    /// Advances the estimate by one step under the command `u`:
    /// `x <- f(x, u)`, then `P <- Q + F P F^T` with `F` taken at the new
    /// state.
    pub fn time_update(&mut self, u: i64)
        requires
            old(self).wf(),
        ensures
            final(self).wf(),
            final(self).model == old(self).model,
            final(self).x@ == normalize(old(self).model.f_spec(old(self).x@, u)),
            final(self).P@ == propagate_cov(
                old(self).model.q_spec(),
                old(self).model.fprim_spec(final(self).x@),
                old(self).P@,
            ),
    {
        let mut x = self.model.f(&self.x, u);
        Self::normalize_angle(&mut x);
        let fx = self.model.fprim(&x);
        let p = self.model.Q().add(&fx.mul(&self.P).mul(&fx.transpose()));
        self.x = x;
        self.P = p;
    }

    /// Corrects the estimate against a measurement: the innovation is
    /// `meas - h(x)`. See [`EKF::measurment_update_from_error`].
    pub fn measurment_update(&mut self, meas: &Matrix) -> (r: Option<()>)
        requires
            old(self).wf(),
            shaped(*meas, old(self).model.ny(), 1),
        ensures
            final(self).wf(),
            final(self).model == old(self).model,
            r is None <==> det_mat(innovation_cov(old(self).model, old(self).x@, old(self).P@), old(self).model.ny()) == 0,
            r is None ==> *final(self) == *old(self),
            r is Some ==> final(self).x@ == Self::corrected_state(*old(self), sub_mat(meas@, old(self).model.h_spec(old(self).x@)))
                && final(self).P@ == Self::corrected_cov(*old(self)),
    {
        let e = meas.sub(&self.model.h(&self.x));
        self.measurment_update_from_error(&e)
    }

    /// The state after a successful correction with innovation `e`:
    /// `x + K e`, with the angle brought into `(-PI, PI]`.
    pub open spec fn corrected_state(ekf: Self, e: Seq<Seq<i64>>) -> Seq<Seq<i64>> {
        let k = gain(ekf.model, ekf.x@, ekf.P@);
        normalize(add_mat(ekf.x@, mul_mat(k, e, ekf.model.ny(), 1)))
    }

    /// The covariance after a successful correction: `P - K H P`.
    pub open spec fn corrected_cov(ekf: Self) -> Seq<Seq<i64>> {
        let k = gain(ekf.model, ekf.x@, ekf.P@);
        let hx = ekf.model.hprim_spec(ekf.x@);
        sub_mat(ekf.P@, mul_mat(mul_mat(k, hx, ekf.model.ny(), NX as int), ekf.P@, NX as int, NX as int))
    }

    /// Corrects the estimate against an innovation `error = y - h(x)` that
    /// the caller has already formed.
    ///
    /// Fails, leaving the filter as it was, where the innovation covariance
    /// `S = R + H P H^T` is singular. Otherwise `K = P H^T S^-1`,
    /// `P <- P - K H P` and `x <- x + K error`.
    pub fn measurment_update_from_error(&mut self, error: &Matrix) -> (r: Option<()>)
        requires
            old(self).wf(),
            shaped(*error, old(self).model.ny(), 1),
        ensures
            final(self).wf(),
            final(self).model == old(self).model,
            r is None <==> det_mat(innovation_cov(old(self).model, old(self).x@, old(self).P@), old(self).model.ny()) == 0,
            r is None ==> *final(self) == *old(self),
            r is Some ==> final(self).x@ == Self::corrected_state(*old(self), error@)
                && final(self).P@ == Self::corrected_cov(*old(self)),
    {
        proof {
            self.model.lemma_ny();
        }
        let hx = self.model.hprim(&self.x);
        let hxt = hx.transpose();
        let s = self.model.R().add(&hx.mul(&self.P).mul(&hxt));
        let inv_s = match s.try_inverse() {
            Some(inv) => inv,
            None => return None,
        };
        let k = self.P.mul(&hxt).mul(&inv_s);
        let p = self.P.sub(&k.mul(&hx).mul(&self.P));
        let mut x = self.x.add(&k.mul(error));
        Self::normalize_angle(&mut x);
        self.P = p;
        self.x = x;
        Some(())
    }
}

} // verus!
