//! One tick of the control loop, and the settling of the reference angle.
use vstd::prelude::*;
use crate::angle::{wrap_spec, sub_angles};
use crate::ekf::{EKF, Model, ANGLE, innovation_cov, propagate_cov, normalize};
use crate::matrix::det_mat;
use crate::model::NLModel;
use crate::fixed::{abs_spec, fx_abs};
use crate::matrix::Matrix;
use crate::controller::Controller;

verus! {

/// Readings that move less than this (0.01 rad) count as settled.
pub const SETTLE_TOLERANCE: i64 = 10_000;

/// Number of consecutive settled readings that fix the reference.
pub const SETTLE_READINGS: u32 = 8;

/// The innovation of an angle reading: the reading against the reference,
/// then against the filter's own angle, each difference brought into
/// `(-PI, PI]`.
pub open spec fn angle_innovation(raw: int, reference: int, predicted: int) -> int {
    wrap_spec(wrap_spec(raw - reference) - predicted)
}

/// Corrects the filter with an angle reading `raw` taken against
/// `reference`, for a model that measures the angle alone.
pub fn correct_with_angle<M: Model>(ekf: &mut EKF<M>, raw: i64, reference: i64) -> (r: Option<()>)
    requires
        old(ekf).wf(),
        old(ekf).model.ny() == 1,
    ensures
        final(ekf).wf(),
        final(ekf).model == old(ekf).model,
        r is None <==> det_mat(innovation_cov(old(ekf).model, old(ekf).x@, old(ekf).P@), 1) == 0,
        r is None ==> *final(ekf) == *old(ekf),
        r is Some ==> final(ekf).x@ == EKF::<M>::corrected_state(*old(ekf), seq![seq![
            angle_innovation(raw as int, reference as int, old(ekf).x@[ANGLE as int][0] as int) as i64]])
            && final(ekf).P@ == EKF::<M>::corrected_cov(*old(ekf)),
{
    let angle = sub_angles(raw, reference);
    let e = sub_angles(angle, ekf.x.get(ANGLE, 0));
    let mut err = Matrix::zeros(1, 1);
    err.set(0, 0, e);
    assert(err@ =~~= seq![seq![angle_innovation(raw as int, reference as int, ekf.x@[ANGLE as int][0] as int) as i64]]);
    ekf.measurment_update_from_error(&err)
}

/// The rest of a tick once the estimate is corrected: the controller acts
/// on the estimate (with `cos_angle` the cosine of its angle), and the
/// filter advances under the command issued. Returns the command.
pub fn finish_tick<M: Model>(ekf: &mut EKF<M>, ctrl: &mut Controller, cos_angle: i64) -> (u: i64)
    requires
        old(ekf).wf(),
    ensures
        final(ekf).wf(),
        final(ekf).model == old(ekf).model,
        *final(ctrl) == (Controller {
            mode: Controller::next_mode(*old(ctrl), old(ekf).x@[0][0] as int, old(ekf).x@[1][0] as int,
                old(ekf).x@[2][0] as int, cos_angle as int),
            output: Controller::next_output(*old(ctrl), old(ekf).x@[0][0] as int, old(ekf).x@[1][0] as int,
                old(ekf).x@[2][0] as int, cos_angle as int) as i64,
        }),
        u == final(ctrl).output,
        final(ekf).x@ == normalize(old(ekf).model.f_spec(old(ekf).x@, u)),
        final(ekf).P@ == propagate_cov(old(ekf).model.q_spec(), old(ekf).model.fprim_spec(final(ekf).x@), old(ekf).P@),
{
    let u = ctrl.step(ekf.x.get(0, 0), ekf.x.get(1, 0), ekf.x.get(2, 0), cos_angle);
    ekf.time_update(u);
    u
}

/// The state estimate once a tick's reading, if any, is taken in: the
/// corrected estimate, or the old one where there was no reading or the
/// correction failed.
pub open spec fn state_after_reading(ekf: EKF<NLModel>, reading: Option<i64>, reference: i64) -> Seq<Seq<i64>> {
    match reading {
        Some(raw) => if det_mat(innovation_cov(ekf.model, ekf.x@, ekf.P@), 1) != 0 {
            EKF::<NLModel>::corrected_state(ekf, seq![seq![
                angle_innovation(raw as int, reference as int, ekf.x@[ANGLE as int][0] as int) as i64]])
        } else {
            ekf.x@
        },
        None => ekf.x@,
    }
}

/// The covariance once a tick's reading, if any, is taken in.
pub open spec fn cov_after_reading(ekf: EKF<NLModel>, reading: Option<i64>) -> Seq<Seq<i64>> {
    match reading {
        Some(raw) => if det_mat(innovation_cov(ekf.model, ekf.x@, ekf.P@), 1) != 0 {
            EKF::<NLModel>::corrected_cov(ekf)
        } else {
            ekf.P@
        },
        None => ekf.P@,
    }
}

/// One tick of the control loop. The angle `reading` (none where the sensor
/// failed) corrects the estimate against `reference`; the controller acts
/// on the corrected estimate, with the cosine of its angle from the model's
/// table; the filter then advances under the command, which is returned
/// for the actuator.
pub fn control_tick(ekf: &mut EKF<NLModel>, ctrl: &mut Controller, reading: Option<i64>, reference: i64) -> (u: i64)
    requires
        old(ekf).wf(),
    ensures
        final(ekf).wf(),
        final(ekf).model == old(ekf).model,
        ({
            let x = state_after_reading(*old(ekf), reading, reference);
            let c = old(ekf).model.sines.cos_spec(x[1][0] as int) as int;
            &&& final(ctrl).mode == Controller::next_mode(*old(ctrl), x[0][0] as int, x[1][0] as int, x[2][0] as int, c)
            &&& final(ctrl).output == Controller::next_output(*old(ctrl), x[0][0] as int, x[1][0] as int, x[2][0] as int, c)
            &&& final(ekf).x@ == normalize(old(ekf).model.f_spec(x, u))
            &&& final(ekf).P@ == propagate_cov(old(ekf).model.q_spec(), old(ekf).model.fprim_spec(final(ekf).x@),
                cov_after_reading(*old(ekf), reading))
        }),
        u == final(ctrl).output,
{
    match reading {
        Some(raw) => {
            let _ = correct_with_angle(ekf, raw, reference);
        },
        None => {},
    }
    let cos_angle = ekf.model.sines.cos(ekf.x.get(ANGLE, 0));
    finish_tick(ekf, ctrl, cos_angle)
}

/// Waits, reading by reading, for the wheel to come to rest, and then
/// takes its angle as the reference.
#[derive(Clone, Copy, Debug)]
pub struct Settler {
    pub last: i64,
    pub stable: u32,
}

impl Settler {
    /// A settler that has kept its first reading.
    pub open spec fn new_spec(first: i64) -> Settler {
        Settler { last: first, stable: 0 }
    }

    /// Starts from a first reading.
    pub fn new(first: i64) -> (r: Settler)
        ensures
            r == Self::new_spec(first),
    {
        Settler { last: first, stable: 0 }
    }

    /// The settler and its answer after the next reading.
    pub open spec fn observe_spec(s: Settler, reading: i64) -> (Settler, Option<i64>) {
        if abs_spec(wrap_spec(reading - s.last)) > SETTLE_TOLERANCE {
            (Settler { last: reading, stable: 0 }, None)
        } else {
            let next = Settler { last: s.last, stable: (s.stable + 1) as u32 };
            (next, if next.stable == SETTLE_READINGS { Some(s.last) } else { None })
        }
    }

    /// Takes the next reading. A reading that moved more than
    /// [`SETTLE_TOLERANCE`] from the last kept one restarts the count from
    /// it; otherwise the count grows, and once it reaches
    /// [`SETTLE_READINGS`] the kept reading is returned as the reference.
    pub fn observe(&mut self, reading: i64) -> (r: Option<i64>)
        requires
            old(self).stable < SETTLE_READINGS,
        ensures
            (*final(self), r) == Self::observe_spec(*old(self), reading),
            final(self).stable <= SETTLE_READINGS,
            r is None ==> final(self).stable < SETTLE_READINGS,
    {
        if fx_abs(sub_angles(reading, self.last)) > SETTLE_TOLERANCE {
            self.last = reading;
            self.stable = 0;
            None
        } else {
            self.stable = self.stable + 1;
            if self.stable == SETTLE_READINGS {
                Some(self.last)
            } else {
                None
            }
        }
    }
}


/// The reference that the readings `rs` settle on, fed one by one to `s`:
/// the answer of the first reading that completes the count, if any.
pub open spec fn settle_run(s: Settler, rs: Seq<i64>) -> Option<i64>
    decreases rs.len(),
{
    if rs.len() == 0 {
        None
    } else {
        let (next, r) = Settler::observe_spec(s, rs[0]);
        if r is Some {
            r
        } else {
            settle_run(next, rs.drop_first())
        }
    }
}

/// The reference angle from readings taken while the wheel comes to rest:
/// the first reading starts the settler, and the rest are fed to it in turn
/// until it settles. `None` where the readings end first.
pub fn get_reference(readings: &Vec<i64>) -> (r: Option<i64>)
    ensures
        readings@.len() == 0 ==> r is None,
        readings@.len() > 0 ==> r == settle_run(Settler::new_spec(readings@[0]), readings@.drop_first()),
{
    if readings.len() == 0 {
        return None;
    }
    let mut s = Settler::new(readings[0]);
    let mut i: usize = 1;
    while i < readings.len()
        invariant
            1 <= i <= readings@.len(),
            s.stable < SETTLE_READINGS,
            settle_run(Settler::new_spec(readings@[0]), readings@.drop_first())
                == settle_run(s, readings@.subrange(i as int, readings@.len() as int)),
        decreases readings@.len() - i,
    {
        proof {
            let rest = readings@.subrange(i as int, readings@.len() as int);
            assert(rest[0] == readings@[i as int]);
            assert(rest.drop_first() =~= readings@.subrange(i + 1, readings@.len() as int));
        }
        let r = s.observe(readings[i]);
        if r.is_some() {
            return r;
        }
        i += 1;
    }
    proof {
        assert(readings@.subrange(i as int, readings@.len() as int).len() == 0);
    }
    None
}

} // verus!
