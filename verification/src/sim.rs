//! Simulation backend: a first-order lag plant per motor, optionally closed
//! by an internal velocity PID structurally identical to the firmware's,
//! with virtual encoder accumulation.
//!
//! All quantities are integers so the dynamics are exactly specified:
//! velocities and gains in milli-pulses per second, time constants and step
//! lengths in microseconds, PID gains in the wire's 16.16 fixed point.

use vstd::prelude::*;
use crate::num::{clamp_i64, clip, lemma_mul_bound, lemma_tdiv_bound, lemma_tdiv_quotient_bound, tdiv};
use crate::protocol::{PositionPidParams, VelocityPidParams};

verus! {

/// Elapsed wall time beyond this is clamped away before integration: 200 ms.
pub const MAX_STEP_US: u64 = 200_000;

/// Largest accepted motor time constant: one hour.
pub const TAU_MAX_US: u64 = 3_600_000_000;

/// Largest accepted plant gain magnitude: 10^9 pulses per second.
pub const GAIN_LIMIT_MPPS: i64 = 1_000_000_000_000;

/// Saturation bound for the simulated velocity.
pub const VEL_LIMIT_MPPS: i64 = 2_000_000_000_000;

/// Anti-windup clamp for the velocity PID integrator (milli-pulses).
pub const INTEGRATOR_LIMIT: i64 = 1_000_000_000_000_000;

/// Bound on the velocity error magnitude (milli-pulses per second).
pub const ERR_LIMIT_MPPS: i64 = 10_000_000_000_000;

/// Declares std::time::Instant as an opaque outside type so the lazy
/// update can remember when it last ran.
#[verifier::external_type_specification]
#[verifier::external_body]
pub struct ExInstant(std::time::Instant);

/// Relies on std::time::Instant::now for a monotonic wall-clock reading.
#[verifier::external_body]
fn instant_now() -> (r: std::time::Instant) {
    std::time::Instant::now()
}

/// Relies on Instant::saturating_duration_since and Duration::as_micros:
/// the whole microseconds from `earlier` to `now`, zero when `now` is not
/// later. The value depends on the wall clock, so nothing is promised of it.
#[verifier::external_body]
fn micros_between(earlier: &std::time::Instant, now: &std::time::Instant) -> (r: u128) {
    now.saturating_duration_since(*earlier).as_micros()
}

/// Complete state of the simulated controller: per motor the open-loop
/// speed byte, signed PWM duty, mode flag, velocity, encoder count, stored
/// PID parameter sets, PID integrator and last error, time constant and
/// gain; plus the last wall-clock update.
#[derive(Clone)]
pub struct SimState {
    pub m1_speed: u8,
    pub m2_speed: u8,
    pub m1_pwm: i16,
    pub m2_pwm: i16,
    pub m1_mode_pwm: bool,
    pub m2_mode_pwm: bool,
    /// Velocity in milli-pulses per second.
    pub m1_vel: i64,
    pub m2_vel: i64,
    /// Cumulative encoder pulses (wrapping).
    pub m1_encoder: i64,
    pub m2_encoder: i64,
    pub m1_velocity_pid: VelocityPidParams,
    pub m2_velocity_pid: VelocityPidParams,
    pub m1_position_pid: PositionPidParams,
    pub m2_position_pid: PositionPidParams,
    /// Velocity PID integrator, milli-pulses.
    pub m1_vi: i64,
    pub m2_vi: i64,
    /// Previous velocity error, milli-pulses per second.
    pub m1_v_last_err: i64,
    pub m2_v_last_err: i64,
    pub last_update: Option<std::time::Instant>,
    /// Time constants in microseconds.
    pub tau_m1: u64,
    pub tau_m2: u64,
    /// Plant gains in milli-pulses per second at full actuation.
    pub gain_m1: i64,
    pub gain_m2: i64,
}

impl SimState {
    /// Well-formedness: time constants positive and bounded, gains and
    /// dynamic state within their saturation limits.
    pub open spec fn wf(self) -> bool {
        &&& 1 <= self.tau_m1 <= TAU_MAX_US
        &&& 1 <= self.tau_m2 <= TAU_MAX_US
        &&& -GAIN_LIMIT_MPPS <= self.gain_m1 <= GAIN_LIMIT_MPPS
        &&& -GAIN_LIMIT_MPPS <= self.gain_m2 <= GAIN_LIMIT_MPPS
        &&& -VEL_LIMIT_MPPS <= self.m1_vel <= VEL_LIMIT_MPPS
        &&& -VEL_LIMIT_MPPS <= self.m2_vel <= VEL_LIMIT_MPPS
        &&& -INTEGRATOR_LIMIT <= self.m1_vi <= INTEGRATOR_LIMIT
        &&& -INTEGRATOR_LIMIT <= self.m2_vi <= INTEGRATOR_LIMIT
        &&& -ERR_LIMIT_MPPS <= self.m1_v_last_err <= ERR_LIMIT_MPPS
        &&& -ERR_LIMIT_MPPS <= self.m2_v_last_err <= ERR_LIMIT_MPPS
    }

    /// A fresh simulation at rest: centered speed bytes, stock PID
    /// parameters, tau 100 ms and gain 100 pulses per second on both motors.
    pub fn new() -> (r: SimState)
        ensures
            r.wf(),
            r.m1_speed == 64 && r.m2_speed == 64,
            r.m1_pwm == 0 && r.m2_pwm == 0,
            !r.m1_mode_pwm && !r.m2_mode_pwm,
            r.m1_vel == 0 && r.m2_vel == 0,
            r.m1_encoder == 0 && r.m2_encoder == 0,
            r.m1_velocity_pid == velocity_pid_default(),
            r.m2_velocity_pid == velocity_pid_default(),
            r.m1_position_pid == position_pid_default(),
            r.m2_position_pid == position_pid_default(),
            r.m1_vi == 0 && r.m2_vi == 0,
            r.m1_v_last_err == 0 && r.m2_v_last_err == 0,
            r.last_update is None,
            r.tau_m1 == 100_000 && r.tau_m2 == 100_000,
            r.gain_m1 == 100_000 && r.gain_m2 == 100_000,
    {
        SimState {
            m1_speed: 64,
            m2_speed: 64,
            m1_pwm: 0,
            m2_pwm: 0,
            m1_mode_pwm: false,
            m2_mode_pwm: false,
            m1_vel: 0,
            m2_vel: 0,
            m1_encoder: 0,
            m2_encoder: 0,
            m1_velocity_pid: VelocityPidParams::default(),
            m2_velocity_pid: VelocityPidParams::default(),
            m1_position_pid: PositionPidParams::default(),
            m2_position_pid: PositionPidParams::default(),
            m1_vi: 0,
            m2_vi: 0,
            m1_v_last_err: 0,
            m2_v_last_err: 0,
            last_update: None,
            tau_m1: 100_000,
            tau_m2: 100_000,
            gain_m1: 100_000,
            gain_m2: 100_000,
        }
    }
}

/// The stock velocity PID constants, as a spec value.
pub open spec fn velocity_pid_default() -> VelocityPidParams {
    VelocityPidParams { p: 0x00010000, i: 0x00008000, d: 0x00004000, qpps: 44000 }
}

/// The stock position PID constants, as a spec value.
pub open spec fn position_pid_default() -> PositionPidParams {
    PositionPidParams {
        p: 0x00010000,
        i: 0x00008000,
        d: 0x00004000,
        max_i: 0x00002000,
        deadzone: 0,
        min: -32767i32,
        max: 32767,
    }
}

/// One actuator-command computation: the normalized command scaled to
/// [-32767, 32767], plus the updated integrator and last error. In PWM mode
/// the duty itself; in speed mode one velocity-PID evaluation against the
/// setpoint `(speed - 64) / 63 * qpps`.
pub open spec fn spec_axis_control(
    mode_pwm: bool,
    pwm: i16,
    speed: u8,
    pid: VelocityPidParams,
    vel: int,
    vi: int,
    last_err: int,
    dt_us: u64,
) -> (int, int, int) {
    if mode_pwm {
        (clip(pwm as int, -32767, 32767), vi, last_err)
    } else {
        let set_v = tdiv(((speed - 64) * pid.qpps) * 1000, 63);
        let err = set_v - vel;
        let vi2 = clip(
            vi + tdiv(err * dt_us, 1_000_000),
            -(INTEGRATOR_LIMIT as int),
            INTEGRATOR_LIMIT as int,
        );
        let deriv = tdiv((err - last_err) * 1_000_000, dt_us as int);
        let control = tdiv(pid.p * err + pid.i * vi2 + pid.d * deriv, 65536);
        let u = if pid.qpps <= 0 {
            0
        } else {
            clip(tdiv(control * 32767, pid.qpps * 1000), -32767, 32767)
        };
        (u, vi2, err)
    }
}

/// One 10 ms-class integration sub-step of the first-order lag, saturated.
pub open spec fn spec_lag_step(vel: int, target: int, sub_us: int, tau_us: int) -> int {
    clip(
        vel + tdiv((target - vel) * sub_us, tau_us),
        -(VEL_LIMIT_MPPS as int),
        VEL_LIMIT_MPPS as int,
    )
}

/// Whole pulses advanced in one sub-step (fractional pulses truncate).
pub open spec fn spec_encoder_pulses(vel: int, sub_us: int) -> int {
    tdiv(vel * sub_us, 1_000_000_000)
}

/// `n` lag sub-steps with encoder accumulation (wrapping).
pub open spec fn spec_axis_substeps(
    vel: int,
    encoder: i64,
    target: int,
    sub_us: int,
    tau_us: int,
    n: nat,
) -> (int, i64)
    decreases n,
{
    if n == 0 {
        (vel, encoder)
    } else {
        let v1 = spec_lag_step(vel, target, sub_us, tau_us);
        let e1 = encoder.wrapping_add(spec_encoder_pulses(v1, sub_us) as i64);
        spec_axis_substeps(v1, e1, target, sub_us, tau_us, (n - 1) as nat)
    }
}

/// One motor axis advanced by `dt_us`: actuator command, target velocity
/// `gain * u`, then `ceil(dt / 10ms)` equal sub-steps of lag integration.
/// Returns (velocity, integrator, last error, encoder).
pub open spec fn spec_axis_step(
    mode_pwm: bool,
    pwm: i16,
    speed: u8,
    pid: VelocityPidParams,
    tau_us: u64,
    gain: i64,
    dt_us: u64,
    vel: i64,
    vi: i64,
    last_err: i64,
    encoder: i64,
) -> (i64, i64, i64, i64) {
    let c = spec_axis_control(mode_pwm, pwm, speed, pid, vel as int, vi as int, last_err as int, dt_us);
    let target = tdiv(gain * c.0, 32767);
    let steps = (dt_us + 9_999) / 10_000;
    let sub_us = dt_us as int / steps;
    let ve = spec_axis_substeps(vel as int, encoder, target, sub_us, tau_us as int, steps as nat);
    (ve.0 as i64, c.1 as i64, c.2 as i64, ve.1)
}

/// The whole simulation advanced by `dt_us`: both axes stepped, everything
/// else unchanged.
pub open spec fn spec_sim_step(s: SimState, dt_us: u64) -> SimState {
    let a1 = spec_axis_step(
        s.m1_mode_pwm,
        s.m1_pwm,
        s.m1_speed,
        s.m1_velocity_pid,
        s.tau_m1,
        s.gain_m1,
        dt_us,
        s.m1_vel,
        s.m1_vi,
        s.m1_v_last_err,
        s.m1_encoder,
    );
    let a2 = spec_axis_step(
        s.m2_mode_pwm,
        s.m2_pwm,
        s.m2_speed,
        s.m2_velocity_pid,
        s.tau_m2,
        s.gain_m2,
        dt_us,
        s.m2_vel,
        s.m2_vi,
        s.m2_v_last_err,
        s.m2_encoder,
    );
    SimState {
        m1_vel: a1.0,
        m1_vi: a1.1,
        m1_v_last_err: a1.2,
        m1_encoder: a1.3,
        m2_vel: a2.0,
        m2_vi: a2.1,
        m2_v_last_err: a2.2,
        m2_encoder: a2.3,
        ..s
    }
}

fn axis_control(
    mode_pwm: bool,
    pwm: i16,
    speed: u8,
    pid: &VelocityPidParams,
    vel: i64,
    vi: i64,
    last_err: i64,
    dt_us: u64,
) -> (r: (i64, i64, i64))
    requires
        2 <= dt_us <= MAX_STEP_US,
        -VEL_LIMIT_MPPS <= vel <= VEL_LIMIT_MPPS,
        -INTEGRATOR_LIMIT <= vi <= INTEGRATOR_LIMIT,
        -ERR_LIMIT_MPPS <= last_err <= ERR_LIMIT_MPPS,
    ensures
        (r.0 as int, r.1 as int, r.2 as int) == spec_axis_control(
            mode_pwm,
            pwm,
            speed,
            *pid,
            vel as int,
            vi as int,
            last_err as int,
            dt_us,
        ),
        -32767 <= r.0 <= 32767,
        -INTEGRATOR_LIMIT <= r.1 <= INTEGRATOR_LIMIT,
        -ERR_LIMIT_MPPS <= r.2 <= ERR_LIMIT_MPPS,
{
    if mode_pwm {
        let u: i64 = clamp_i64(pwm as i64, -32767, 32767);
        (u, vi, last_err)
    } else {
        let qpps: i64 = pid.qpps as i64;
        proof {
            lemma_mul_bound((speed as int) - 64, qpps as int, 191, 0x8000_0000);
            lemma_mul_bound(((speed as int) - 64) * (qpps as int), 1000, (0x8000_0000 * 191) as int, 1000);
            lemma_tdiv_quotient_bound(
                (((speed as int) - 64) * (qpps as int)) * 1000,
                63,
                6_600_000_000_000,
            );
        }
        let set_v: i64 = ((speed as i64 - 64) * qpps) * 1000 / 63;
        let err: i64 = set_v - vel;
        proof {
            lemma_mul_bound(err as int, dt_us as int, 8_600_000_000_000, 200_000);
            lemma_tdiv_bound(err as int * dt_us as int, 1_000_000, 1_720_000_000_000_000_000);
        }
        let vi_inc: i64 = err * (dt_us as i64) / 1_000_000;
        let vi2: i64 = clamp_i64(vi + vi_inc, -INTEGRATOR_LIMIT, INTEGRATOR_LIMIT);
        proof {
            lemma_mul_bound(err as int - last_err as int, 1_000_000, 18_600_000_000_000, 1_000_000);
            lemma_tdiv_bound(
                (err as int - last_err as int) * 1_000_000,
                dt_us as int,
                18_600_000_000_000_000_000,
            );
        }
        let deriv: i128 = (err as i128 - last_err as i128) * 1_000_000 / (dt_us as i128);
        proof {
            lemma_mul_bound(pid.p as int, err as int, 0x8000_0000, 8_600_000_000_000);
            lemma_mul_bound(pid.i as int, vi2 as int, 0x8000_0000, INTEGRATOR_LIMIT as int);
            lemma_mul_bound(pid.d as int, deriv as int, 0x8000_0000, 18_600_000_000_000_000_000);
            lemma_tdiv_bound(
                pid.p as int * err as int + pid.i as int * vi2 as int + pid.d as int * deriv as int,
                65536,
                50_000_000_000_000_000_000_000_000_000,
            );
        }
        let control: i128 = ((pid.p as i128) * (err as i128) + (pid.i as i128) * (vi2 as i128)
            + (pid.d as i128) * deriv) / 65536;
        let u: i64 = if qpps <= 0 {
            0
        } else {
            proof {
                lemma_mul_bound(control as int, 32767, 50_000_000_000_000_000_000_000_000_000, 32767);
                lemma_mul_bound(qpps as int, 1000, 0x8000_0000, 1000);
                lemma_tdiv_bound(
                    control as int * 32767,
                    qpps as int * 1000,
                    (50_000_000_000_000_000_000_000_000_000 * 32767) as int,
                );
            }
            let uq: i128 = control * 32767 / ((qpps as i128) * 1000);
            if uq < -32767 {
                -32767
            } else if uq > 32767 {
                32767
            } else {
                uq as i64
            }
        };
        (u, vi2, err)
    }
}

fn axis_substeps(vel: i64, encoder: i64, target: i64, sub_us: u64, tau_us: u64, steps: u64) -> (r: (
    i64,
    i64,
))
    requires
        1 <= sub_us <= MAX_STEP_US,
        1 <= tau_us <= TAU_MAX_US,
        -GAIN_LIMIT_MPPS <= target <= GAIN_LIMIT_MPPS,
        -VEL_LIMIT_MPPS <= vel <= VEL_LIMIT_MPPS,
    ensures
        (r.0 as int, r.1) == spec_axis_substeps(
            vel as int,
            encoder,
            target as int,
            sub_us as int,
            tau_us as int,
            steps as nat,
        ),
        -VEL_LIMIT_MPPS <= r.0 <= VEL_LIMIT_MPPS,
{
    let mut v: i64 = vel;
    let mut e: i64 = encoder;
    let mut k: u64 = 0;
    while k < steps
        invariant
            k <= steps,
            1 <= sub_us <= MAX_STEP_US,
            1 <= tau_us <= TAU_MAX_US,
            -GAIN_LIMIT_MPPS <= target <= GAIN_LIMIT_MPPS,
            -VEL_LIMIT_MPPS <= v <= VEL_LIMIT_MPPS,
            spec_axis_substeps(
                v as int,
                e,
                target as int,
                sub_us as int,
                tau_us as int,
                (steps - k) as nat,
            ) == spec_axis_substeps(
                vel as int,
                encoder,
                target as int,
                sub_us as int,
                tau_us as int,
                steps as nat,
            ),
        decreases steps - k,
    {
        proof {
            lemma_mul_bound(
                target as int - v as int,
                sub_us as int,
                3_000_000_000_000,
                200_000,
            );
            lemma_tdiv_bound(
                (target as int - v as int) * sub_us as int,
                tau_us as int,
                600_000_000_000_000_000,
            );
        }
        let diff: i64 = target - v;
        let delta: i64 = diff * (sub_us as i64) / (tau_us as i64);
        let vnew: i64 = clamp_i64(v + delta, -VEL_LIMIT_MPPS, VEL_LIMIT_MPPS);
        proof {
            lemma_mul_bound(vnew as int, sub_us as int, VEL_LIMIT_MPPS as int, 200_000);
            lemma_tdiv_bound(
                vnew as int * sub_us as int,
                1_000_000_000,
                400_000_000_000_000_000,
            );
        }
        let pulses: i64 = vnew * (sub_us as i64) / 1_000_000_000;
        let enew: i64 = e.wrapping_add(pulses);
        proof {
            assert(vnew as int == spec_lag_step(v as int, target as int, sub_us as int, tau_us as int));
            assert(enew == e.wrapping_add(
                spec_encoder_pulses(vnew as int, sub_us as int) as i64,
            ));
        }
        v = vnew;
        e = enew;
        k = k + 1;
    }
    (v, e)
}

/// Bounds for the sub-step split `steps = ceil(dt/10ms)`, `sub = dt/steps`.
proof fn lemma_substep_bounds(dt: int)
    by (nonlinear_arith)
    requires
        2 <= dt <= 200_000,
    ensures
        1 <= (dt + 9_999) / 10_000 <= 20,
        1 <= dt / ((dt + 9_999) / 10_000),
        dt / ((dt + 9_999) / 10_000) <= 10_000,
{
}

fn axis_step(
    mode_pwm: bool,
    pwm: i16,
    speed: u8,
    pid: &VelocityPidParams,
    tau_us: u64,
    gain: i64,
    dt_us: u64,
    vel: i64,
    vi: i64,
    last_err: i64,
    encoder: i64,
) -> (r: (i64, i64, i64, i64))
    requires
        2 <= dt_us <= MAX_STEP_US,
        1 <= tau_us <= TAU_MAX_US,
        -GAIN_LIMIT_MPPS <= gain <= GAIN_LIMIT_MPPS,
        -VEL_LIMIT_MPPS <= vel <= VEL_LIMIT_MPPS,
        -INTEGRATOR_LIMIT <= vi <= INTEGRATOR_LIMIT,
        -ERR_LIMIT_MPPS <= last_err <= ERR_LIMIT_MPPS,
    ensures
        r == spec_axis_step(
            mode_pwm,
            pwm,
            speed,
            *pid,
            tau_us,
            gain,
            dt_us,
            vel,
            vi,
            last_err,
            encoder,
        ),
        -VEL_LIMIT_MPPS <= r.0 <= VEL_LIMIT_MPPS,
        -INTEGRATOR_LIMIT <= r.1 <= INTEGRATOR_LIMIT,
        -ERR_LIMIT_MPPS <= r.2 <= ERR_LIMIT_MPPS,
{
    let c: (i64, i64, i64) = axis_control(mode_pwm, pwm, speed, pid, vel, vi, last_err, dt_us);
    proof {
        lemma_mul_bound(gain as int, c.0 as int, GAIN_LIMIT_MPPS as int, 32767);
        lemma_tdiv_quotient_bound(gain as int * c.0 as int, 32767, GAIN_LIMIT_MPPS as int);
    }
    let target: i64 = gain * c.0 / 32767;
    let steps: u64 = (dt_us + 9_999) / 10_000;
    let sub_us: u64 = dt_us / steps;
    proof {
        lemma_substep_bounds(dt_us as int);
    }
    let ve: (i64, i64) = axis_substeps(vel, encoder, target, sub_us, tau_us, steps);
    (ve.0, c.1, c.2, ve.1)
}

/// Advance the simulation by exactly `dt_us` of plant time; the wall-clock
/// stamp is untouched. This is the deterministic core that `sim_update`
/// drives from real elapsed time.
pub fn sim_step(sim: &mut SimState, dt_us: u64)
    requires
        old(sim).wf(),
        2 <= dt_us <= MAX_STEP_US,
    ensures
        final(sim).wf(),
        *final(sim) == spec_sim_step(*old(sim), dt_us),
{
    let a1: (i64, i64, i64, i64) = axis_step(
        sim.m1_mode_pwm,
        sim.m1_pwm,
        sim.m1_speed,
        &sim.m1_velocity_pid,
        sim.tau_m1,
        sim.gain_m1,
        dt_us,
        sim.m1_vel,
        sim.m1_vi,
        sim.m1_v_last_err,
        sim.m1_encoder,
    );
    let a2: (i64, i64, i64, i64) = axis_step(
        sim.m2_mode_pwm,
        sim.m2_pwm,
        sim.m2_speed,
        &sim.m2_velocity_pid,
        sim.tau_m2,
        sim.gain_m2,
        dt_us,
        sim.m2_vel,
        sim.m2_vi,
        sim.m2_v_last_err,
        sim.m2_encoder,
    );
    sim.m1_vel = a1.0;
    sim.m1_vi = a1.1;
    sim.m1_v_last_err = a1.2;
    sim.m1_encoder = a1.3;
    sim.m2_vel = a2.0;
    sim.m2_vi = a2.1;
    sim.m2_v_last_err = a2.2;
    sim.m2_encoder = a2.3;
}

/// `post` is `pre` with only the wall-clock stamp replaced by `ts`.
pub open spec fn stamped(post: SimState, pre: SimState, ts: Option<std::time::Instant>) -> bool {
    post == SimState { last_update: ts, ..pre }
}

/// How one lazy update may change the simulation: either only the stamp
/// moves (first call, or under 1 us elapsed), or the plant advances by one
/// bounded step of some elapsed time and the stamp moves.
pub open spec fn sim_evolves(pre: SimState, post: SimState) -> bool {
    ||| exists|ts: Option<std::time::Instant>| #[trigger] stamped(post, pre, ts)
    ||| exists|dt_us: u64, ts: Option<std::time::Instant>|
        2 <= dt_us <= MAX_STEP_US && #[trigger] stamped(post, spec_sim_step(pre, dt_us), ts)
}

/// Lazy simulation update: clamp the real elapsed time since the previous
/// update to [0, 200 ms]; under 1 us (or on the first call) only the stamp
/// is taken; otherwise the plant advances by the elapsed time.
pub fn sim_update(sim: &mut SimState)
    requires
        old(sim).wf(),
    ensures
        final(sim).wf(),
        sim_evolves(*old(sim), *final(sim)),
        old(sim).last_update is None ==> (exists|ts: Option<std::time::Instant>|
            stamped(*final(sim), *old(sim), ts)),
{
    let now: std::time::Instant = instant_now();
    let mut dt_opt: Option<u64> = None;
    match &sim.last_update {
        None => {},
        Some(last) => {
            let us: u128 = micros_between(last, &now);
            let capped: u64 = if us > MAX_STEP_US as u128 {
                MAX_STEP_US
            } else {
                us as u64
            };
            dt_opt = Some(capped);
        },
    }
    match dt_opt {
        None => {
            sim.last_update = Some(now);
            proof {
                assert(stamped(*sim, *old(sim), Some(now)));
            }
        },
        Some(dt_us) => {
            if dt_us <= 1 {
                sim.last_update = Some(now);
                proof {
                    assert(stamped(*sim, *old(sim), Some(now)));
                }
            } else {
                sim_step(sim, dt_us);
                sim.last_update = Some(now);
                proof {
                    assert(stamped(*sim, spec_sim_step(*old(sim), dt_us), Some(now)));
                }
            }
        },
    }
}

/// One saturated lag sub-step no longer than the time constant, started at
/// or below a nonnegative target, moves the velocity toward the target and
/// never past it.
pub proof fn lemma_lag_step_monotone(v: int, t: int, sub_us: int, tau_us: int)
    requires
        0 <= v <= t <= GAIN_LIMIT_MPPS,
        1 <= sub_us <= tau_us,
    ensures
        v <= spec_lag_step(v, t, sub_us, tau_us) <= t,
{
    let g: int = t - v;
    crate::num::lemma_mul_nonneg(g, sub_us);
    crate::num::lemma_mul_mono(g, tau_us, sub_us);
    crate::num::lemma_tdiv_nonneg(g * sub_us, tau_us);
    lemma_tdiv_quotient_bound(g * sub_us, tau_us, g);
}

/// Quantified progress of one lag sub-step: the remaining gap to the
/// target, scaled by the time constant, shrinks at least in proportion to
/// the sub-step length (up to one quantum of integer truncation).
pub proof fn lemma_lag_gap_decay(v: int, t: int, sub_us: int, tau_us: int)
    requires
        0 <= v <= t <= GAIN_LIMIT_MPPS,
        1 <= sub_us <= tau_us,
    ensures
        (t - spec_lag_step(v, t, sub_us, tau_us)) * tau_us <= (t - v) * (tau_us - sub_us)
            + tau_us,
{
    lemma_lag_step_monotone(v, t, sub_us, tau_us);
    let g: int = t - v;
    crate::num::lemma_mul_nonneg(g, sub_us);
    let d: int = tdiv(g * sub_us, tau_us);
    assert(d == (g * sub_us) / tau_us);
    assert(g * sub_us - tau_us < d * tau_us) by (nonlinear_arith)
        requires
            g * sub_us >= 0,
            tau_us >= 1,
            d == (g * sub_us) / tau_us,
    ;
    assert(spec_lag_step(v, t, sub_us, tau_us) == v + d);
    assert((g - d) * tau_us <= g * (tau_us - sub_us) + tau_us) by (nonlinear_arith)
        requires
            g * sub_us - tau_us < d * tau_us,
    ;
}

/// Pointwise monotonicity of one lag sub-step: a run that is at least as
/// fast and chases at least as high a target stays at least as fast.
pub proof fn lemma_lag_step_pair(v1: int, t1: int, v2: int, t2: int, sub_us: int, tau_us: int)
    requires
        0 <= v1 <= t1 <= GAIN_LIMIT_MPPS,
        0 <= v2 <= t2 <= GAIN_LIMIT_MPPS,
        v1 <= v2,
        t1 <= t2,
        1 <= sub_us <= tau_us,
    ensures
        spec_lag_step(v1, t1, sub_us, tau_us) <= spec_lag_step(v2, t2, sub_us, tau_us),
{
    lemma_lag_step_monotone(v1, t1, sub_us, tau_us);
    lemma_lag_step_monotone(v2, t2, sub_us, tau_us);
    let g1: int = t1 - v1;
    let g2: int = t2 - v2;
    crate::num::lemma_mul_nonneg(g1, sub_us);
    crate::num::lemma_mul_nonneg(g2, sub_us);
    if g1 <= g2 {
        assert(g1 * sub_us <= g2 * sub_us) by (nonlinear_arith)
            requires
                0 <= g1 <= g2,
                sub_us >= 1,
        ;
        crate::num::lemma_tdiv_mono_num(g1 * sub_us, g2 * sub_us, tau_us);
    } else {
        let c: int = g1 - g2;
        assert(g1 * sub_us <= g2 * sub_us + c * tau_us) by (nonlinear_arith)
            requires
                g2 >= 0,
                c >= 1,
                1 <= sub_us <= tau_us,
                g1 == g2 + c,
        ;
        crate::num::lemma_tdiv_mono_num(g1 * sub_us, g2 * sub_us + c * tau_us, tau_us);
        crate::num::lemma_tdiv_shift(g2 * sub_us, tau_us, c);
    }
}

/// Monotonicity and range across `n` equal sub-steps: from ordered starts
/// below ordered targets, the faster run stays at least as fast, and every
/// run stays between its start and its target.
pub proof fn lemma_substeps_pair(
    v1: int,
    t1: int,
    v2: int,
    t2: int,
    e1: i64,
    e2: i64,
    sub_us: int,
    tau_us: int,
    n: nat,
)
    requires
        0 <= v1 <= t1 <= GAIN_LIMIT_MPPS,
        0 <= v2 <= t2 <= GAIN_LIMIT_MPPS,
        v1 <= v2,
        t1 <= t2,
        1 <= sub_us <= tau_us,
    ensures
        spec_axis_substeps(v1, e1, t1, sub_us, tau_us, n).0 <= spec_axis_substeps(
            v2,
            e2,
            t2,
            sub_us,
            tau_us,
            n,
        ).0,
        v1 <= spec_axis_substeps(v1, e1, t1, sub_us, tau_us, n).0 <= t1,
        v2 <= spec_axis_substeps(v2, e2, t2, sub_us, tau_us, n).0 <= t2,
    decreases n,
{
    if n > 0 {
        lemma_lag_step_monotone(v1, t1, sub_us, tau_us);
        lemma_lag_step_monotone(v2, t2, sub_us, tau_us);
        lemma_lag_step_pair(v1, t1, v2, t2, sub_us, tau_us);
        let w1 = spec_lag_step(v1, t1, sub_us, tau_us);
        let w2 = spec_lag_step(v2, t2, sub_us, tau_us);
        let f1 = spec_encoder_pulses(w1, sub_us);
        let f2 = spec_encoder_pulses(w2, sub_us);
        lemma_substeps_pair(
            w1,
            t1,
            w2,
            t2,
            e1.wrapping_add(f1 as i64),
            e2.wrapping_add(f2 as i64),
            sub_us,
            tau_us,
            (n - 1) as nat,
        );
    }
}

/// One-step contraction of the above-floor part of the gap: writing
/// B = floor(tau/s) + 1 for the truncation floor, whatever part of the gap
/// exceeds B shrinks by the factor (tau - s)/tau in one sub-step.
proof fn lemma_lag_floor_contraction(v: int, t: int, sub_us: int, tau_us: int)
    requires
        0 <= v <= t <= GAIN_LIMIT_MPPS,
        1 <= sub_us <= tau_us,
    ensures
        ((t - spec_lag_step(v, t, sub_us, tau_us)) - (tdiv(tau_us, sub_us) + 1)) * tau_us <= ((t
            - v) - (tdiv(tau_us, sub_us) + 1)) * (tau_us - sub_us),
{
    lemma_lag_step_monotone(v, t, sub_us, tau_us);
    let g: int = t - v;
    let b: int = tdiv(tau_us, sub_us) + 1;
    crate::num::lemma_tdiv_nonneg(tau_us, sub_us);
    crate::num::lemma_mul_nonneg(g, sub_us);
    let d: int = tdiv(g * sub_us, tau_us);
    assert(spec_lag_step(v, t, sub_us, tau_us) == v + d);
    assert(b * sub_us >= tau_us) by (nonlinear_arith)
        requires
            b == tau_us / sub_us + 1,
            1 <= sub_us <= tau_us,
    ;
    if g >= b {
        assert(d * tau_us > g * sub_us - tau_us) by (nonlinear_arith)
            requires
                g * sub_us >= 0,
                tau_us >= 1,
                d == (g * sub_us) / tau_us,
        ;
        assert(((g - d) - b) * tau_us <= (g - b) * (tau_us - sub_us)) by (nonlinear_arith)
            requires
                d * tau_us > g * sub_us - tau_us,
                b * sub_us >= tau_us,
                g >= b,
                1 <= sub_us <= tau_us,
        ;
    } else {
        assert(((g - d) - b) * tau_us <= (g - b) * (tau_us - sub_us)) by (nonlinear_arith)
            requires
                0 <= d,
                g < b,
                1 <= sub_us <= tau_us,
        ;
    }
}

/// Quantitative convergence under a constant target: over `n` sub-steps of
/// length `s`, the part of the velocity gap exceeding the truncation floor
/// B = floor(tau/s) + 1 shrinks at least inversely with the elapsed time:
/// (gap_n - B) * (tau + n*s) <= (gap_0 - B) * tau. In particular that
/// excess falls below any fraction 1/m of the starting gap once
/// n*s >= (m - 1)*tau.
pub proof fn lemma_substeps_inverse_linear_convergence(
    v: int,
    e: i64,
    t: int,
    sub_us: int,
    tau_us: int,
    n: nat,
)
    requires
        0 <= v <= t <= GAIN_LIMIT_MPPS,
        1 <= sub_us <= tau_us,
    ensures
        ((t - spec_axis_substeps(v, e, t, sub_us, tau_us, n).0) - (tdiv(tau_us, sub_us) + 1)) * (
        tau_us + n * sub_us) <= ((t - v) - (tdiv(tau_us, sub_us) + 1)) * tau_us,
    decreases n,
{
    let b: int = tdiv(tau_us, sub_us) + 1;
    crate::num::lemma_tdiv_nonneg(tau_us, sub_us);
    lemma_substeps_pair(v, t, v, t, e, e, sub_us, tau_us, n);
    if n == 0 {
        assert(((t - v) - b) * (tau_us + 0 * sub_us) == ((t - v) - b) * tau_us)
            by (nonlinear_arith);
    } else {
        let v1: int = spec_lag_step(v, t, sub_us, tau_us);
        let e1: i64 = e.wrapping_add(spec_encoder_pulses(v1, sub_us) as i64);
        lemma_lag_step_monotone(v, t, sub_us, tau_us);
        lemma_lag_floor_contraction(v, t, sub_us, tau_us);
        lemma_substeps_inverse_linear_convergence(v1, e1, t, sub_us, tau_us, (n - 1) as nat);
        lemma_substeps_pair(v1, t, v1, t, e1, e1, sub_us, tau_us, (n - 1) as nat);
        let vn: int = spec_axis_substeps(v1, e1, t, sub_us, tau_us, (n - 1) as nat).0;
        assert(spec_axis_substeps(v, e, t, sub_us, tau_us, n).0 == vn);
        let h0: int = (t - v) - b;
        let h1: int = (t - v1) - b;
        let a: int = (t - vn) - b;
        assert(a * (tau_us + (n - 1) * sub_us) <= h1 * tau_us);
        assert(h1 * tau_us <= h0 * (tau_us - sub_us));
        assert(a <= h1 && h1 <= h0) by {
            assert(v <= v1 && v1 <= vn);
        }
        assert(a * (tau_us + n * sub_us) <= h0 * tau_us) by (nonlinear_arith)
            requires
                a * (tau_us + (n - 1) * sub_us) <= h1 * tau_us,
                h1 * tau_us <= h0 * (tau_us - sub_us),
                a <= h1 <= h0,
                1 <= sub_us <= tau_us,
                n >= 1,
        ;
    }
}

/// Sub-step runs compose: stepping `n1 + n2` times is stepping `n1` times
/// and then `n2` times from where that left off.
pub proof fn lemma_substeps_compose(
    v: int,
    e: i64,
    t: int,
    sub_us: int,
    tau_us: int,
    n1: nat,
    n2: nat,
)
    ensures
        spec_axis_substeps(v, e, t, sub_us, tau_us, (n1 + n2) as nat) == spec_axis_substeps(
            spec_axis_substeps(v, e, t, sub_us, tau_us, n1).0,
            spec_axis_substeps(v, e, t, sub_us, tau_us, n1).1,
            t,
            sub_us,
            tau_us,
            n2,
        ),
    decreases n1,
{
    if n1 > 0 {
        let v1 = spec_lag_step(v, t, sub_us, tau_us);
        let e1 = e.wrapping_add(spec_encoder_pulses(v1, sub_us) as i64);
        lemma_substeps_compose(v1, e1, t, sub_us, tau_us, (n1 - 1) as nat, n2);
        assert(((n1 + n2) as nat - 1) as nat == ((n1 - 1) as nat + n2) as nat);
    }
}

/// Integer powers of a base.
pub open spec fn pwb(b: int, j: nat) -> int
    decreases j,
{
    if j == 0 {
        1
    } else {
        b * pwb(b, (j - 1) as nat)
    }
}

pub proof fn lemma_pwb_pos(b: int, j: nat)
    requires
        b >= 1,
    ensures
        pwb(b, j) >= 1,
    decreases j,
{
    if j > 0 {
        lemma_pwb_pos(b, (j - 1) as nat);
        assert(b * pwb(b, (j - 1) as nat) >= 1) by (nonlinear_arith)
            requires
                b >= 1,
                pwb(b, (j - 1) as nat) >= 1,
        ;
    }
}

/// A run of sub-steps spanning at least a sixth of the time constant
/// shrinks the above-floor part of the gap by a factor of at least 6/7.
proof fn lemma_substeps_sixth_shrink(v: int, e: i64, t: int, sub_us: int, tau_us: int, n: nat)
    requires
        0 <= v <= t <= GAIN_LIMIT_MPPS,
        1 <= sub_us <= tau_us,
        6 * (n * sub_us) >= tau_us,
    ensures
        7 * ((t - spec_axis_substeps(v, e, t, sub_us, tau_us, n).0) - (tdiv(tau_us, sub_us)
            + 1)) <= 6 * ((t - v) - (tdiv(tau_us, sub_us) + 1)),
{
    let b: int = tdiv(tau_us, sub_us) + 1;
    lemma_substeps_inverse_linear_convergence(v, e, t, sub_us, tau_us, n);
    lemma_substeps_pair(v, t, v, t, e, e, sub_us, tau_us, n);
    let vn: int = spec_axis_substeps(v, e, t, sub_us, tau_us, n).0;
    let h0: int = (t - v) - b;
    let hn: int = (t - vn) - b;
    if hn >= 0 {
        assert(7 * hn <= 6 * h0) by (nonlinear_arith)
            requires
                hn * (tau_us + n * sub_us) <= h0 * tau_us,
                6 * (n * sub_us) >= tau_us,
                tau_us >= 1,
                hn >= 0,
        ;
    }
}

/// After `j` chunks of ceil(tau/(6*s)) sub-steps each, the above-floor
/// part of the gap has shrunk by a factor of at least (6/7)^j.
proof fn lemma_substeps_sixth_chunks(v: int, e: i64, t: int, sub_us: int, tau_us: int, j: nat)
    requires
        0 <= v <= t <= GAIN_LIMIT_MPPS,
        1 <= sub_us <= tau_us,
    ensures
        pwb(7, j) * ((t - spec_axis_substeps(
            v,
            e,
            t,
            sub_us,
            tau_us,
            (j * (((tau_us + 6 * sub_us - 1) / (6 * sub_us)) as nat)) as nat,
        ).0) - (tdiv(tau_us, sub_us) + 1)) <= pwb(6, j) * ((t - v) - (tdiv(tau_us, sub_us) + 1)),
    decreases j,
{
    let bfl: int = tdiv(tau_us, sub_us) + 1;
    let nc: nat = ((tau_us + 6 * sub_us - 1) / (6 * sub_us)) as nat;
    assert(6 * (nc * sub_us) >= tau_us && nc >= 1) by (nonlinear_arith)
        requires
            1 <= sub_us <= tau_us,
            nc == (tau_us + 6 * sub_us - 1) / (6 * sub_us),
    ;
    if j == 0 {
        assert(j * nc == 0) by (nonlinear_arith)
            requires
                j == 0,
        ;
        assert(spec_axis_substeps(v, e, t, sub_us, tau_us, 0).0 == v);
    } else {
        let n_prev: nat = ((j - 1) as nat * nc) as nat;
        lemma_substeps_sixth_chunks(v, e, t, sub_us, tau_us, (j - 1) as nat);
        lemma_substeps_compose(v, e, t, sub_us, tau_us, n_prev, nc);
        assert((j * nc) as nat == (n_prev + nc) as nat) by (nonlinear_arith)
            requires
                j >= 1,
                n_prev == (j - 1) * nc,
        ;
        let mid = spec_axis_substeps(v, e, t, sub_us, tau_us, n_prev);
        lemma_substeps_pair(v, t, v, t, e, e, sub_us, tau_us, n_prev);
        lemma_substeps_sixth_shrink(mid.0, mid.1, t, sub_us, tau_us, nc);
        lemma_pwb_pos(7, (j - 1) as nat);
        lemma_pwb_pos(6, (j - 1) as nat);
        let h0: int = (t - v) - bfl;
        let hmid: int = (t - mid.0) - bfl;
        let hn: int = (t - spec_axis_substeps(v, e, t, sub_us, tau_us, (j * nc) as nat).0) - bfl;
        assert(pwb(7, j) * hn <= pwb(6, j) * h0) by (nonlinear_arith)
            requires
                pwb(7, (j - 1) as nat) * hmid <= pwb(6, (j - 1) as nat) * h0,
                7 * hn <= 6 * hmid,
                pwb(7, j as nat) == 7 * pwb(7, (j - 1) as nat),
                pwb(6, j as nat) == 6 * pwb(6, (j - 1) as nat),
                pwb(7, (j - 1) as nat) >= 1,
                pwb(6, (j - 1) as nat) >= 1,
        ;
        assert(pwb(7, j) * ((t - spec_axis_substeps(v, e, t, sub_us, tau_us, (j * nc) as nat).0)
            - bfl) <= pwb(6, j) * h0);
    }
}

/// Thirty sixth-of-tau chunks beat a factor of one hundred:
/// 7^30 exceeds 100 * 6^30.
proof fn lemma_seven_sixths_thirty()
    ensures
        pwb(7, 30) >= 100 * pwb(6, 30),
{
    reveal_with_fuel(pwb, 32);
    assert(pwb(7, 30) == 22539340290692258087863249int);
    assert(pwb(6, 30) == 221073919720733357899776int);
}

/// One-percent convergence in five time constants: under a constant
/// nonnegative target, after 30 chunks of ceil(tau/(6*s)) sub-steps —
/// at most 5*tau plus 30 sub-steps of simulated time — the part of the
/// velocity gap above the truncation floor B = floor(tau/s) + 1 is at
/// most 1% of its starting value.
pub proof fn lemma_substeps_one_percent_convergence(
    v: int,
    e: i64,
    t: int,
    sub_us: int,
    tau_us: int,
)
    requires
        0 <= v <= t <= GAIN_LIMIT_MPPS,
        1 <= sub_us <= tau_us,
    ensures
        100 * ((t - spec_axis_substeps(
            v,
            e,
            t,
            sub_us,
            tau_us,
            (30 * (((tau_us + 6 * sub_us - 1) / (6 * sub_us)) as nat)) as nat,
        ).0) - (tdiv(tau_us, sub_us) + 1)) <= (t - v) - (tdiv(tau_us, sub_us) + 1),
{
    let bfl: int = tdiv(tau_us, sub_us) + 1;
    let nc: nat = ((tau_us + 6 * sub_us - 1) / (6 * sub_us)) as nat;
    let n: nat = (30 * nc) as nat;
    lemma_substeps_sixth_chunks(v, e, t, sub_us, tau_us, 30);
    lemma_seven_sixths_thirty();
    lemma_pwb_pos(6, 30);
    lemma_pwb_pos(7, 30);
    lemma_substeps_pair(v, t, v, t, e, e, sub_us, tau_us, n);
    let h0: int = (t - v) - bfl;
    let hn: int = (t - spec_axis_substeps(v, e, t, sub_us, tau_us, n).0) - bfl;
    if hn >= 0 {
        assert(100 * hn <= h0) by (nonlinear_arith)
            requires
                pwb(7, 30) * hn <= pwb(6, 30) * h0,
                pwb(7, 30) >= 100 * pwb(6, 30),
                pwb(6, 30) >= 1,
                hn >= 0,
        ;
    } else {
        assert(hn <= h0);
    }
}

/// Driving a motor at full forward PWM from at most its configured gain
/// leaves the velocity between its old value and the gain after any plant
/// step: convergence toward the gain is monotone and never overshoots.
/// The target chased inside the step is the gain itself, so
/// `lemma_substeps_inverse_linear_convergence` and
/// `lemma_substeps_one_percent_convergence` give the rate at which the
/// remaining gap closes.
pub proof fn lemma_full_pwm_monotone_convergence(
    speed: u8,
    pid: VelocityPidParams,
    tau_us: u64,
    gain: i64,
    dt_us: u64,
    vel: i64,
    vi: i64,
    last_err: i64,
    encoder: i64,
)
    requires
        0 <= vel <= gain <= GAIN_LIMIT_MPPS,
        10_000 <= tau_us <= TAU_MAX_US,
        2 <= dt_us <= MAX_STEP_US,
    ensures
        vel <= spec_axis_step(
            true,
            32767,
            speed,
            pid,
            tau_us,
            gain,
            dt_us,
            vel,
            vi,
            last_err,
            encoder,
        ).0 <= gain,
{
    let c = spec_axis_control(true, 32767i16, speed, pid, vel as int, vi as int, last_err as int, dt_us);
    assert(c.0 == 32767);
    crate::num::lemma_mul_nonneg(gain as int, 32767);
    crate::num::lemma_tdiv_shift(0, 32767, gain as int);
    assert(gain as int * 32767 == 0 + gain as int * 32767);
    let target = tdiv(gain as int * 32767, 32767);
    assert(target == gain as int);
    let steps: int = (dt_us + 9_999) / 10_000;
    let sub_us: int = dt_us as int / steps;
    lemma_substep_bounds(dt_us as int);
    lemma_substeps_pair(
        vel as int,
        target,
        vel as int,
        target,
        encoder,
        encoder,
        sub_us,
        tau_us as int,
        steps as nat,
    );
}

/// The simulation advanced by `n` equal plant steps.
pub open spec fn spec_sim_steps(s: SimState, dt_us: u64, n: nat) -> SimState
    decreases n,
{
    if n == 0 {
        s
    } else {
        spec_sim_steps(spec_sim_step(s, dt_us), dt_us, (n - 1) as nat)
    }
}

/// Under full forward PWM, motor 1's velocity and encoder across `n`
/// 10 ms plant steps are exactly the `n`-fold lag sub-step chain chasing
/// the configured gain.
pub proof fn lemma_sim_steps_full_pwm_trace(s: SimState, n: nat)
    requires
        s.m1_mode_pwm,
        s.m1_pwm == 32767,
        0 <= s.m1_vel <= s.gain_m1 <= GAIN_LIMIT_MPPS,
        10_000 <= s.tau_m1 <= TAU_MAX_US,
    ensures
        spec_sim_steps(s, 10_000, n).m1_vel as int == spec_axis_substeps(
            s.m1_vel as int,
            s.m1_encoder,
            s.gain_m1 as int,
            10_000,
            s.tau_m1 as int,
            n,
        ).0,
    decreases n,
{
    crate::num::lemma_mul_nonneg(s.gain_m1 as int, 32767);
    crate::num::lemma_tdiv_shift(0, 32767, s.gain_m1 as int);
    assert(s.gain_m1 as int * 32767 == 0 + s.gain_m1 as int * 32767);
    if n > 0 {
        let s1 = spec_sim_step(s, 10_000);
        lemma_substeps_pair(
            s.m1_vel as int,
            s.gain_m1 as int,
            s.m1_vel as int,
            s.gain_m1 as int,
            s.m1_encoder,
            s.m1_encoder,
            10_000,
            s.tau_m1 as int,
            1,
        );
        assert(s1.m1_vel as int == spec_axis_substeps(
            s.m1_vel as int,
            s.m1_encoder,
            s.gain_m1 as int,
            10_000,
            s.tau_m1 as int,
            1,
        ).0 && s1.m1_encoder == spec_axis_substeps(
            s.m1_vel as int,
            s.m1_encoder,
            s.gain_m1 as int,
            10_000,
            s.tau_m1 as int,
            1,
        ).1);
        lemma_sim_steps_full_pwm_trace(s1, (n - 1) as nat);
        lemma_substeps_compose(
            s.m1_vel as int,
            s.m1_encoder,
            s.gain_m1 as int,
            10_000,
            s.tau_m1 as int,
            1,
            (n - 1) as nat,
        );
    }
}

/// Convergence to within one percent under full forward PWM: from rest,
/// after 30 chunks of ceil(tau/60000) plant steps of 10 ms each — about
/// five time constants of simulated time — motor 1's velocity is within
/// one percent of the configured gain, plus the truncation floor of
/// floor(tau/10ms) + 1 milli-pulses per second.
pub proof fn lemma_sim_full_pwm_one_percent(s: SimState, n: nat)
    requires
        s.m1_mode_pwm,
        s.m1_pwm == 32767,
        s.m1_vel == 0,
        0 <= s.gain_m1 <= GAIN_LIMIT_MPPS,
        10_000 <= s.tau_m1 <= TAU_MAX_US,
        n == 30 * ((s.tau_m1 + 59_999) / 60_000),
    ensures
        100 * ((s.gain_m1 - spec_sim_steps(s, 10_000, n).m1_vel) - (s.tau_m1 as int / 10_000
            + 1)) <= s.gain_m1,
{
    lemma_sim_steps_full_pwm_trace(s, n);
    lemma_substeps_one_percent_convergence(
        0,
        s.m1_encoder,
        s.gain_m1 as int,
        10_000,
        s.tau_m1 as int,
    );
    assert(((s.tau_m1 + 6 * 10_000 - 1) as int / (6 * 10_000) as int) == (s.tau_m1 + 59_999)
        as int / 60_000);
    assert(tdiv(s.tau_m1 as int, 10_000) == s.tau_m1 as int / 10_000);
}

/// Raising a pure proportional velocity gain never slows the simulated
/// response: from rest in speed mode with a positive setpoint, integral
/// and derivative gains zero, one plant step under the larger P reaches at
/// least the velocity the smaller P does.
pub proof fn lemma_proportional_gain_monotone(
    p1: i32,
    p2: i32,
    qpps: i32,
    speed: u8,
    tau_us: u64,
    gain: i64,
    dt_us: u64,
    e1: i64,
    e2: i64,
)
    requires
        0 < p1 <= p2,
        qpps >= 1,
        speed > 64,
        0 <= gain <= GAIN_LIMIT_MPPS,
        10_000 <= tau_us <= TAU_MAX_US,
        2 <= dt_us <= MAX_STEP_US,
    ensures
        spec_axis_step(
            false,
            0,
            speed,
            VelocityPidParams { p: p1, i: 0, d: 0, qpps },
            tau_us,
            gain,
            dt_us,
            0,
            0,
            0,
            e1,
        ).0 <= spec_axis_step(
            false,
            0,
            speed,
            VelocityPidParams { p: p2, i: 0, d: 0, qpps },
            tau_us,
            gain,
            dt_us,
            0,
            0,
            0,
            e2,
        ).0,
{
    let pid1 = VelocityPidParams { p: p1, i: 0, d: 0, qpps };
    let pid2 = VelocityPidParams { p: p2, i: 0, d: 0, qpps };
    let c1 = spec_axis_control(false, 0i16, speed, pid1, 0, 0, 0, dt_us);
    let c2 = spec_axis_control(false, 0i16, speed, pid2, 0, 0, 0, dt_us);
    let set_v: int = tdiv(((speed - 64) * pid1.qpps) * 1000, 63);
    assert(((speed - 64) * pid1.qpps) * 1000 >= 0) by (nonlinear_arith)
        requires
            speed > 64,
            pid1.qpps >= 1,
    ;
    crate::num::lemma_tdiv_nonneg(((speed - 64) * pid1.qpps) * 1000, 63);
    let err: int = set_v - 0;
    assert(err >= 0);
    let vi2: int = clip(
        0 + tdiv(err * dt_us, 1_000_000),
        -(INTEGRATOR_LIMIT as int),
        INTEGRATOR_LIMIT as int,
    );
    let deriv: int = tdiv((err - 0) * 1_000_000, dt_us as int);
    let control1: int = tdiv(p1 * err + pid1.i * vi2 + pid1.d * deriv, 65536);
    let control2: int = tdiv(p2 * err + pid2.i * vi2 + pid2.d * deriv, 65536);
    assert(pid1.i * vi2 == 0 && pid1.d * deriv == 0 && pid2.i * vi2 == 0 && pid2.d * deriv == 0)
        by (nonlinear_arith)
        requires
            pid1.i == 0,
            pid1.d == 0,
            pid2.i == 0,
            pid2.d == 0,
    ;
    assert(0 <= p1 * err && p1 * err <= p2 * err) by (nonlinear_arith)
        requires
            0 < p1 <= p2,
            err >= 0,
    ;
    crate::num::lemma_tdiv_mono_num(p1 * err, p2 * err, 65536);
    crate::num::lemma_tdiv_nonneg(p1 * err, 65536);
    assert(0 <= control1 * 32767 && control1 * 32767 <= control2 * 32767) by (nonlinear_arith)
        requires
            0 <= control1 <= control2,
    ;
    crate::num::lemma_mul_pos(qpps as int, 1000);
    crate::num::lemma_tdiv_mono_num(control1 * 32767, control2 * 32767, qpps * 1000);
    crate::num::lemma_tdiv_nonneg(control1 * 32767, qpps * 1000);
    let u1: int = c1.0;
    let u2: int = c2.0;
    assert(u1 == clip(tdiv(control1 * 32767, qpps * 1000), -32767, 32767));
    assert(u2 == clip(tdiv(control2 * 32767, qpps * 1000), -32767, 32767));
    assert(0 <= u1 && u1 <= u2 && u2 <= 32767);
    assert(0 <= gain * u1 && gain * u1 <= gain * u2 && gain * u2 <= gain * 32767)
        by (nonlinear_arith)
        requires
            0 <= gain,
            0 <= u1 <= u2 <= 32767,
    ;
    crate::num::lemma_tdiv_mono_num(gain * u1, gain * u2, 32767);
    crate::num::lemma_tdiv_nonneg(gain * u1, 32767);
    lemma_tdiv_quotient_bound(gain * u2, 32767, gain as int);
    let target1: int = tdiv(gain * u1, 32767);
    let target2: int = tdiv(gain * u2, 32767);
    let steps: int = (dt_us + 9_999) / 10_000;
    let sub_us: int = dt_us as int / steps;
    lemma_substep_bounds(dt_us as int);
    lemma_substeps_pair(0, target1, 0, target2, e1, e2, sub_us, tau_us as int, steps as nat);
}

/// Set a motor's plant model: time constant in microseconds, gain in
/// milli-pulses per second. Fails on an unsupported motor index or an
/// out-of-range parameter; on success only the addressed motor's model
/// changes.
pub fn set_sim_params_sync(
    sim: &mut SimState,
    motor_index: u8,
    tau_us: u64,
    gain_mpps: i64,
) -> (r: Result<(), String>)
    requires
        old(sim).wf(),
    ensures
        final(sim).wf(),
        r is Ok <==> (motor_index == 1 || motor_index == 2) && 1 <= tau_us <= TAU_MAX_US
            && -GAIN_LIMIT_MPPS <= gain_mpps <= GAIN_LIMIT_MPPS,
        r is Err ==> *final(sim) == *old(sim),
        r is Ok && motor_index == 1 ==> *final(sim) == (SimState {
            tau_m1: tau_us,
            gain_m1: gain_mpps,
            ..*old(sim)
        }),
        r is Ok && motor_index == 2 ==> *final(sim) == (SimState {
            tau_m2: tau_us,
            gain_m2: gain_mpps,
            ..*old(sim)
        }),
{
    if motor_index != 1 && motor_index != 2 {
        return Err("Invalid motor index".to_owned());
    }
    if tau_us < 1 || tau_us > TAU_MAX_US {
        return Err("Time constant out of range".to_owned());
    }
    if gain_mpps < -GAIN_LIMIT_MPPS || gain_mpps > GAIN_LIMIT_MPPS {
        return Err("Gain out of range".to_owned());
    }
    if motor_index == 1 {
        sim.tau_m1 = tau_us;
        sim.gain_m1 = gain_mpps;
    } else {
        sim.tau_m2 = tau_us;
        sim.gain_m2 = gain_mpps;
    }
    Ok(())
}

} // verus!
