//! Conversions at the sensor and actuator: raw encoder bytes to an angle,
//! and a command to a motor duty cycle.
use vstd::prelude::*;
use crate::angle::{PI, TWO_PI};
use crate::fixed::{SCALE, clamp_i64, trunc_div};

verus! {

/// Counts of the magnetic encoder in one turn.
pub const ENCODER_COUNTS: i64 = 4096;

/// The top of the motor's PWM counter.
pub const PWM_TOP: u16 = 200;

/// The encoder's angle for the big-endian register pair `(hi, lo)`: the
/// counts as a share of a turn, moved down by a turn from `PI` on.
pub open spec fn rotation_spec(hi: u8, lo: u8) -> int {
    let counts = hi as int * 256 + lo as int;
    let angle = counts * TWO_PI / ENCODER_COUNTS as int;
    if angle >= PI {
        angle - TWO_PI
    } else {
        angle
    }
}

/// Bus address of the magnetic encoder.
pub const ENCODER_ADDRESS: u8 = 0x36;

/// The register at which the encoder's angle starts.
pub const ENCODER_ANGLE_REGISTER: u8 = 0x0C;

/// The magnetic angle encoder on the bus `channel`. Reading the bus is the
/// caller's part: it writes [`ENCODER_ANGLE_REGISTER`] to
/// [`ENCODER_ADDRESS`] and reads back two bytes, which
/// [`MagneticEncoder::rotation_from_response`] turns into an angle.
pub struct MagneticEncoder<I> {
    pub channel: I,
}

impl<I> MagneticEncoder<I> {
    /// The angle in the encoder's big-endian register pair `response`.
    pub fn rotation_from_response(&self, response: [u8; 2]) -> (r: i64)
        ensures
            r == rotation_spec(response@[0], response@[1]),
    {
        let hi = response[0];
        let lo = response[1];
        let counts: i64 = hi as i64 * 256 + lo as i64;
        proof {
            assert(0 <= counts * TWO_PI <= 65535 * TWO_PI) by (nonlinear_arith)
                requires 0 <= counts <= 65535;
        }
        let angle = counts * TWO_PI / ENCODER_COUNTS;
        if angle >= PI {
            angle - TWO_PI
        } else {
            angle
        }
    }
}

/// The PWM compare value for a command in `[-1, 1]`: the counter top scaled
/// by one minus the command's magnitude, the magnitude limited to one.
pub open spec fn duty_spec(output: int) -> int {
    let mag = if output < 0 { -output } else { output };
    let mag = if mag > SCALE { SCALE as int } else { mag };
    (SCALE - mag) * PWM_TOP / SCALE as int
}

/// The motor's PWM compare value and direction for a command: the
/// direction pin is raised for a negative command.
pub fn motor_duty(output: i64) -> (r: (u16, bool))
    ensures
        r.0 == duty_spec(output as int),
        r.0 <= PWM_TOP,
        r.1 == (output < 0),
{
    let mag: i64 = if output < 0 {
        if output < -SCALE { SCALE } else { -output }
    } else {
        if output > SCALE { SCALE } else { output }
    };
    proof {
        assert(0 <= (SCALE - mag) * 200 <= SCALE * 200) by (nonlinear_arith)
            requires 0 <= mag <= SCALE;
        vstd::arithmetic::div_mod::lemma_div_is_ordered((SCALE - mag) * 200, SCALE * 200, SCALE as int);
        vstd::arithmetic::div_mod::lemma_div_by_multiple(200, SCALE as int);
    }
    let duty = (SCALE - mag) * (PWM_TOP as i64) / SCALE;
    (duty as u16, output < 0)
}


/// Follows a quadrature encoder edge by edge: a signed count of its
/// position, and a count of the edges of its first channel.
#[derive(Clone, Copy, Debug)]
pub struct QuadratureTracker {
    pub prev_a: bool,
    pub prev_b: bool,
    pub count: i32,
    pub abs_ticks: i32,
}

/// The change of the signed count between two channel states: down one
/// from (high, high) to (high, low), up one from (high, low) to
/// (high, high), none otherwise.
pub open spec fn count_step(pa: bool, pb: bool, a: bool, b: bool) -> i32 {
    if pa && pb && a && !b {
        -1i32
    } else if pa && !pb && a && b {
        1i32
    } else {
        0i32
    }
}

impl QuadratureTracker {
    /// A tracker at zero, with the channels in the given state.
    pub fn new(a: bool, b: bool) -> (r: QuadratureTracker)
        ensures
            r.prev_a == a && r.prev_b == b && r.count == 0 && r.abs_ticks == 0,
    {
        QuadratureTracker { prev_a: a, prev_b: b, count: 0, abs_ticks: 0 }
    }

    /// Takes the channel state after an edge. The counts wrap around, as
    /// shared atomic counters do.
    pub fn on_edge(&mut self, a: bool, b: bool)
        ensures
            final(self).count == old(self).count.wrapping_add(
                count_step(old(self).prev_a, old(self).prev_b, a, b)),
            final(self).abs_ticks == (if a != old(self).prev_a {
                old(self).abs_ticks.wrapping_add(1)
            } else {
                old(self).abs_ticks
            }),
            final(self).prev_a == a && final(self).prev_b == b,
    {
        let step: i32 = if self.prev_a && self.prev_b && a && !b {
            -1
        } else if self.prev_a && !self.prev_b && a && b {
            1
        } else {
            0
        };
        self.count = self.count.wrapping_add(step);
        if a != self.prev_a {
            self.abs_ticks = self.abs_ticks.wrapping_add(1);
        }
        self.prev_a = a;
        self.prev_b = b;
    }
}


/// Encoder ticks in one turn of the wheel.
pub const TICKS_PER_REV: i64 = 100;

/// The wheel speed for `delta` ticks in `dt_us` microseconds, saturating.
pub open spec fn tick_speed_spec(delta: int, dt_us: int) -> int {
    clamp_i64(trunc_div(TWO_PI * delta * 1_000_000, TICKS_PER_REV * dt_us))
}

/// The wheel speed for `delta` ticks counted over `dt_us` microseconds.
pub fn tick_speed(delta: i64, dt_us: u64) -> (r: i64)
    requires
        dt_us > 0,
    ensures
        r == tick_speed_spec(delta as int, dt_us as int),
{
    proof {
        assert(-0x4000_0000_0000_0000_0000_0000_0000 <= TWO_PI * delta * 1_000_000
            <= 0x4000_0000_0000_0000_0000_0000_0000) by (nonlinear_arith)
            requires i64::MIN <= delta <= i64::MAX;
        assert(TICKS_PER_REV * dt_us <= 100 * u64::MAX) by (nonlinear_arith)
            requires 0 < dt_us <= u64::MAX;
    }
    let p: i128 = TWO_PI as i128 * delta as i128 * 1_000_000;
    let d: i128 = TICKS_PER_REV as i128 * dt_us as i128;
    let q: i128 = if p >= 0 {
        p / d
    } else {
        -((-p) / d)
    };
    if q < i64::MIN as i128 {
        i64::MIN
    } else if q > i64::MAX as i128 {
        i64::MAX
    } else {
        q as i64
    }
}

/// Turns the encoder's tick counts into wheel speeds between two log
/// points.
#[derive(Clone, Copy, Debug)]
pub struct StateLogger {
    pub last_ticks: i32,
    pub last_abs_ticks: i32,
    pub last_time_us: u64,
}

impl StateLogger {
    /// A logger whose last point is the given counts at the given time.
    pub fn new(ticks: i32, abs_ticks: i32, time_us: u64) -> (r: StateLogger)
        ensures
            r.last_ticks == ticks && r.last_abs_ticks == abs_ticks && r.last_time_us == time_us,
    {
        StateLogger { last_ticks: ticks, last_abs_ticks: abs_ticks, last_time_us: time_us }
    }

    /// The signed and absolute wheel speeds since the last point, which the
    /// new counts and time then replace. The counts wrap around, so their
    /// differences are taken the same way.
    pub fn log(&mut self, ticks: i32, abs_ticks: i32, time_us: u64) -> (r: (i64, i64))
        requires
            time_us > old(self).last_time_us,
        ensures
            r.0 == tick_speed_spec(ticks.wrapping_sub(old(self).last_ticks) as int, time_us - old(self).last_time_us),
            r.1 == tick_speed_spec(abs_ticks.wrapping_sub(old(self).last_abs_ticks) as int, time_us - old(self).last_time_us),
            final(self).last_ticks == ticks && final(self).last_abs_ticks == abs_ticks
                && final(self).last_time_us == time_us,
    {
        let dt: u64 = time_us - self.last_time_us;
        let signed = tick_speed(ticks.wrapping_sub(self.last_ticks) as i64, dt);
        let absolute = tick_speed(abs_ticks.wrapping_sub(self.last_abs_ticks) as i64, dt);
        self.last_ticks = ticks;
        self.last_abs_ticks = abs_ticks;
        self.last_time_us = time_us;
        (signed, absolute)
    }
}

} // verus!
