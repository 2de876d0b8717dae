//! The hybrid swing-up / balance controller.
use vstd::prelude::*;
use crate::angle::{wrap_spec, sub_angles};
use crate::model::{RADIUS, GRAVITY};
use crate::fixed::{
    SCALE, add_spec, sub_spec, mul_spec, div_spec, sign_spec, clamp_spec, abs_spec, fx_add, fx_sub,
    fx_mul, fx_div, fx_sign, fx_clamp, fx_abs,
};

verus! {

/// The largest wheel speed: 330 rad/s.
pub const MAX_WHEEL_SPEED: i64 = 330_000_000;

/// Above this wheel speed (a fifth of the largest) swinging protects the
/// actuator first.
pub const WHEEL_SPEED_LIMIT: i64 = 66_000_000;

/// Command used to slow the wheel down while swinging.
pub const PROTECT_COMMAND: i64 = 150_000;

/// Command used to pump energy in or out while swinging.
pub const PUMP_COMMAND: i64 = 200_000;

/// Command used to bleed energy off.
pub const BLEED_COMMAND: i64 = 300_000;

/// Angle error under which balancing may start.
pub const ENTER_TOLERANCE: i64 = 200_000;

/// Angle error over which balancing stops.
pub const EXIT_TOLERANCE: i64 = 250_000;

/// Largest feedback command with which balancing may start.
pub const BALANCE_COMMAND_LIMIT: i64 = 3_000_000;

/// Share of the top energy in the energy that bleeding aims for.
pub const BLEND: i64 = 700_000;

/// Feedback gain on the wheel speed.
pub const GAIN_WHEEL: i64 = -5_826;

/// Feedback gain on the angle.
pub const GAIN_ANGLE: i64 = -8_003_470;

/// Feedback gain on the angular rate.
pub const GAIN_RATE: i64 = -967_164;

/// The mode of the hybrid controller.
#[derive(PartialEq, Eq, Structural, Clone, Copy, Debug)]
pub enum BalancingState {
    Swinging,
    Chilling,
    Balancing,
}

/// The energy of the pendulum at rest upright.
pub open spec fn top_energy() -> int {
    mul_spec(RADIUS as int, GRAVITY as int)
}

/// Potential plus kinetic energy, from the cosine of the angle and the rate.
pub open spec fn energy_spec(cos_angle: int, rate: int) -> int {
    let v = mul_spec(RADIUS as int, rate);
    add_spec(mul_spec(top_energy(), cos_angle), mul_spec(v, v) / 2)
}

/// The energy that bleeding aims for, between the bottom and top energies.
pub open spec fn bleed_target() -> int {
    add_spec(mul_spec(BLEND as int, top_energy()), mul_spec((SCALE - BLEND) as int, -top_energy()))
}

/// The linear feedback command `-F x`, before clamping.
pub open spec fn feedback_spec(wheel_speed: int, angle: int, rate: int) -> int {
    sub_spec(
        0,
        add_spec(
            add_spec(mul_spec(GAIN_WHEEL as int, wheel_speed), mul_spec(GAIN_ANGLE as int, angle)),
            mul_spec(GAIN_RATE as int, rate),
        ),
    )
}

/// The command of the swinging law.
pub open spec fn swing_command(wheel_speed: int, rate: int, energy: int) -> int {
    if abs_spec(wheel_speed) > WHEEL_SPEED_LIMIT {
        mul_spec(-sign_spec(wheel_speed), PROTECT_COMMAND as int)
    } else if energy < top_energy() {
        mul_spec(-sign_spec(rate), PUMP_COMMAND as int)
    } else if energy > top_energy() {
        mul_spec(sign_spec(rate), PUMP_COMMAND as int)
    } else {
        div_spec(wheel_speed, MAX_WHEEL_SPEED as int)
    }
}

/// The distance of the angle from upright.
pub open spec fn angle_error(angle: int) -> int {
    abs_spec(wrap_spec(angle))
}

/// The controller: its mode and the command it last issued.
#[derive(Clone, Copy, Debug)]
pub struct Controller {
    pub mode: BalancingState,
    pub output: i64,
}

impl Controller {
    /// A controller in the swinging mode with a zero command.
    pub fn new() -> (r: Controller)
        ensures
            r.mode == BalancingState::Swinging,
            r.output == 0,
    {
        Controller { mode: BalancingState::Swinging, output: 0 }
    }

    /// The mode after one tick from `c` in the estimated state.
    pub open spec fn next_mode(c: Controller, wheel_speed: int, angle: int, rate: int, cos_angle: int) -> BalancingState {
        match c.mode {
            BalancingState::Swinging => if angle_error(angle) < ENTER_TOLERANCE
                && abs_spec(feedback_spec(wheel_speed, angle, rate)) < BALANCE_COMMAND_LIMIT {
                BalancingState::Balancing
            } else {
                BalancingState::Swinging
            },
            BalancingState::Chilling => if energy_spec(cos_angle, rate) > bleed_target() {
                BalancingState::Chilling
            } else {
                BalancingState::Swinging
            },
            BalancingState::Balancing => if angle_error(angle) > EXIT_TOLERANCE {
                BalancingState::Chilling
            } else {
                BalancingState::Balancing
            },
        }
    }

    /// The command after one tick from `c` in the estimated state.
    pub open spec fn next_output(c: Controller, wheel_speed: int, angle: int, rate: int, cos_angle: int) -> int {
        match c.mode {
            BalancingState::Swinging => swing_command(wheel_speed, rate, energy_spec(cos_angle, rate)),
            BalancingState::Chilling => if energy_spec(cos_angle, rate) > bleed_target() {
                mul_spec(-sign_spec(wheel_speed), BLEED_COMMAND as int)
            } else {
                c.output as int
            },
            BalancingState::Balancing => clamp_spec(feedback_spec(wheel_speed, angle, rate), -SCALE, SCALE as int),
        }
    }

    /// One control tick on the estimate (`wheel_speed`, `angle`, `rate`);
    /// `cos_angle` is the cosine of `angle`. Issues a command, kept in
    /// `output`, and moves to the next mode; returns the command.
    ///
    /// Balancing starts only when the angle is within [`ENTER_TOLERANCE`] of
    /// upright and the feedback command is under [`BALANCE_COMMAND_LIMIT`];
    /// it stops only when the angle is more than [`EXIT_TOLERANCE`] away.
    pub fn step(&mut self, wheel_speed: i64, angle: i64, rate: i64, cos_angle: i64) -> (u: i64)
        ensures
            final(self).mode == Self::next_mode(*old(self), wheel_speed as int, angle as int, rate as int, cos_angle as int),
            final(self).output == Self::next_output(*old(self), wheel_speed as int, angle as int, rate as int, cos_angle as int),
            u == final(self).output,
            old(self).mode == BalancingState::Swinging && angle_error(angle as int) < ENTER_TOLERANCE
                && abs_spec(feedback_spec(wheel_speed as int, angle as int, rate as int)) < BALANCE_COMMAND_LIMIT
                ==> final(self).mode == BalancingState::Balancing,
            old(self).mode == BalancingState::Balancing && angle_error(angle as int) > EXIT_TOLERANCE
                ==> final(self).mode == BalancingState::Chilling,
            final(self).mode == BalancingState::Balancing ==> -SCALE <= u <= SCALE,
    {
        let energy = energy(cos_angle, rate);
        let err = fx_abs(sub_angles(angle, 0));
        proof {
            assert(wrap_spec(angle - 0) == wrap_spec(angle as int));
        }
        match self.mode {
            BalancingState::Swinging => {
                let feedback = feedback_command(wheel_speed, angle, rate);
                self.output = if fx_abs(wheel_speed) > WHEEL_SPEED_LIMIT {
                    fx_mul(-fx_sign(wheel_speed), PROTECT_COMMAND)
                } else if energy < top() {
                    fx_mul(-fx_sign(rate), PUMP_COMMAND)
                } else if energy > top() {
                    fx_mul(fx_sign(rate), PUMP_COMMAND)
                } else {
                    fx_div(wheel_speed, MAX_WHEEL_SPEED)
                };
                if err < ENTER_TOLERANCE && fx_abs(feedback) < BALANCE_COMMAND_LIMIT {
                    self.mode = BalancingState::Balancing;
                }
            },
            BalancingState::Chilling => {
                if energy > target() {
                    self.output = fx_mul(-fx_sign(wheel_speed), BLEED_COMMAND);
                } else {
                    self.mode = BalancingState::Swinging;
                }
            },
            BalancingState::Balancing => {
                let feedback = feedback_command(wheel_speed, angle, rate);
                self.output = fx_clamp(feedback, -SCALE, SCALE);
                if err > EXIT_TOLERANCE {
                    self.mode = BalancingState::Chilling;
                }
            },
        }
        self.output
    }
}

fn top() -> (r: i64)
    ensures
        r == top_energy(),
{
    fx_mul(RADIUS, GRAVITY)
}

fn target() -> (r: i64)
    ensures
        r == bleed_target(),
{
    let top = top();
    fx_add(fx_mul(BLEND, top), fx_mul(SCALE - BLEND, -top))
}

/// Potential plus kinetic energy of the pendulum, from the cosine of its
/// angle and its rate.
pub fn energy(cos_angle: i64, rate: i64) -> (r: i64)
    ensures
        r == energy_spec(cos_angle as int, rate as int),
{
    let v = fx_mul(RADIUS, rate);
    let kinetic = fx_mul(v, v);
    proof {
        assert(kinetic >= 0) by (nonlinear_arith)
            requires kinetic == mul_spec(v as int, v as int);
    }
    fx_add(fx_mul(top(), cos_angle), kinetic / 2)
}

/// The linear feedback command `-F x` on the estimate, before clamping.
pub fn feedback_command(wheel_speed: i64, angle: i64, rate: i64) -> (r: i64)
    ensures
        r == feedback_spec(wheel_speed as int, angle as int, rate as int),
{
    fx_sub(
        0,
        fx_add(
            fx_add(fx_mul(GAIN_WHEEL, wheel_speed), fx_mul(GAIN_ANGLE, angle)),
            fx_mul(GAIN_RATE, rate),
        ),
    )
}

} // verus!
