//! IMC-based velocity autotuning: turn an estimated plant gain and time
//! constant into velocity PID gains, and optionally write them back through
//! the driver.

use vstd::prelude::*;
use crate::device::{read_velocity_pid_sync, set_velocity_pid_sync, MotorSystem};
use crate::sim::SimState;
use crate::num::tdiv;
use crate::protocol::VelocityPidParams;

verus! {

/// Division by a positive divisor, rounding half away from zero.
pub open spec fn rdiv(a: int, b: int) -> int {
    if a >= 0 {
        (2 * a + b) / (2 * b)
    } else {
        -((2 * (-a) + b) / (2 * b))
    }
}

fn rdiv_i128(a: i128, b: i128) -> (r: i128)
    requires
        1 <= b <= 0x1000_0000_0000_0000_0000_0000_0000,
        -0x1000_0000_0000_0000_0000_0000_0000 <= a <= 0x1000_0000_0000_0000_0000_0000_0000,
    ensures
        r as int == rdiv(a as int, b as int),
{
    if a >= 0 {
        (2 * a + b) / (2 * b)
    } else {
        -((2 * (-a) + b) / (2 * b))
    }
}

/// Synthesized velocity-loop gains: the controller gain and integral gain
/// in 16.16 fixed point (saturated into the wire's 32-bit range), the
/// integral time (equal to the plant time constant), and the intermediate
/// effective gain and closed-loop constant.
pub struct TuneGains {
    pub kc_fp: i32,
    pub ki_fp: i32,
    pub kd_fp: i32,
    pub ti_us: i64,
    pub k_eff_micro: i64,
    pub lambda_us: i64,
}

/// The effective plant gain: the estimate scaled by the full actuator
/// range and normalized by the stored QPPS.
pub open spec fn spec_k_eff(k_est_micro: int, qpps: int) -> int {
    tdiv(k_est_micro * 32767, qpps)
}

/// The closed-loop time constant: the clamped scale (in thousandths,
/// default 500) times the plant time constant.
pub open spec fn spec_lambda_us(tau_us: int, scale_milli: Option<i64>) -> int {
    let s = if scale_milli is Some {
        clamped_scale(scale_milli->0 as int)
    } else {
        500
    };
    tdiv(s * tau_us, 1000)
}

pub open spec fn clamped_scale(s: int) -> int {
    if s < 50 {
        50
    } else if s > 5000 {
        5000
    } else {
        s
    }
}

/// Kc = tau / (K_eff * lambda) in 16.16 fixed point, rounded half away
/// from zero and saturated to the i32 range.
pub open spec fn spec_kc_fp(tau_us: int, k_eff_micro: int, lambda_us: int) -> int {
    let n: int = 65536 * tau_us * (1_000_000 as int);
    let signed_n = if k_eff_micro >= 0 {
        n
    } else {
        -n
    };
    let b = (if k_eff_micro >= 0 {
        k_eff_micro
    } else {
        -k_eff_micro
    }) * lambda_us;
    crate::num::clip(rdiv(signed_n, b), i32::MIN as int, i32::MAX as int)
}

/// Ki = Kc / Ti per second, in 16.16 fixed point, likewise rounded and
/// saturated.
pub open spec fn spec_ki_fp(k_eff_micro: int, lambda_us: int) -> int {
    let n: int = (65536 * 1_000_000_000_000) as int;
    let signed_n = if k_eff_micro >= 0 {
        n
    } else {
        -n
    };
    let b = (if k_eff_micro >= 0 {
        k_eff_micro
    } else {
        -k_eff_micro
    }) * lambda_us;
    crate::num::clip(rdiv(signed_n, b), i32::MIN as int, i32::MAX as int)
}

/// IMC gain synthesis: Kc = tau/(K_eff*lambda), Ti = tau, Kd = 0, with
/// lambda = clamp(scale, 0.05..5.0) * tau. Fails when the stored QPPS is
/// not positive, the effective gain vanishes at micro resolution, the time
/// constant is not positive, or lambda rounds to zero.
pub fn synthesize_velocity_gains(
    k_est_micro: i64,
    qpps: i32,
    tau_us: i64,
    lambda_scale_milli: Option<i64>,
) -> (r: Result<TuneGains, String>)
    requires
        -100_000_000_000_000 <= k_est_micro <= 100_000_000_000_000,
        -1_000_000_000 <= tau_us <= 1_000_000_000,
    ensures
        r is Ok <==> qpps > 0 && spec_k_eff(k_est_micro as int, qpps as int) != 0 && tau_us > 0
            && spec_lambda_us(tau_us as int, lambda_scale_milli) > 0,
        r is Ok ==> {
            let k_eff = spec_k_eff(k_est_micro as int, qpps as int);
            let lambda = spec_lambda_us(tau_us as int, lambda_scale_milli);
            &&& r->Ok_0.k_eff_micro as int == k_eff
            &&& r->Ok_0.lambda_us as int == lambda
            &&& r->Ok_0.kc_fp as int == spec_kc_fp(tau_us as int, k_eff, lambda)
            &&& r->Ok_0.ki_fp as int == spec_ki_fp(k_eff, lambda)
            &&& r->Ok_0.kd_fp == 0
            &&& r->Ok_0.ti_us == tau_us
        },
{
    if qpps <= 0 {
        return Err("Stored QPPS must be positive".to_owned());
    }
    if tau_us <= 0 {
        return Err("Estimated time constant must be positive".to_owned());
    }
    proof {
        crate::num::lemma_mul_bound(k_est_micro as int, 32767, 100_000_000_000_000, 32767);
        crate::num::lemma_tdiv_bound(
            k_est_micro as int * 32767,
            qpps as int,
            (32767 * 100_000_000_000_000) as int,
        );
    }
    let k_eff_micro: i128 = (k_est_micro as i128) * 32767 / (qpps as i128);
    if k_eff_micro == 0 {
        return Err("Estimated plant gain is too small".to_owned());
    }
    let scale: i64 = match lambda_scale_milli {
        Some(s) => {
            if s < 50 {
                50
            } else if s > 5000 {
                5000
            } else {
                s
            }
        },
        None => 500,
    };
    proof {
        crate::num::lemma_mul_bound(scale as int, tau_us as int, 5000, 1_000_000_000);
        crate::num::lemma_tdiv_bound(scale as int * tau_us as int, 1000, 5_000_000_000_000);
    }
    let lambda_us: i64 = ((scale as i128) * (tau_us as i128) / 1000) as i64;
    if lambda_us <= 0 {
        return Err("Closed-loop time constant must be positive".to_owned());
    }
    let k_abs: i128 = if k_eff_micro >= 0 {
        k_eff_micro
    } else {
        -k_eff_micro
    };
    proof {
        crate::num::lemma_mul_bound(
            k_abs as int,
            lambda_us as int,
            (32767 * 100_000_000_000_000) as int,
            5_000_000_000_000,
        );
        crate::num::lemma_mul_pos(k_abs as int, lambda_us as int);
    }
    let b: i128 = k_abs * (lambda_us as i128);
    let n_kc: i128 = 65536 * (tau_us as i128) * 1_000_000;
    let kc_wide: i128 = rdiv_i128(
        if k_eff_micro >= 0 {
            n_kc
        } else {
            -n_kc
        },
        b,
    );
    let kc_fp: i32 = clamp_to_i32(kc_wide);
    let n_ki: i128 = 65536 * 1_000_000_000_000;
    let ki_wide: i128 = rdiv_i128(
        if k_eff_micro >= 0 {
            n_ki
        } else {
            -n_ki
        },
        b,
    );
    let ki_fp: i32 = clamp_to_i32(ki_wide);
    Ok(
        TuneGains {
            kc_fp,
            ki_fp,
            kd_fp: 0,
            ti_us: tau_us,
            k_eff_micro: k_eff_micro as i64,
            lambda_us,
        },
    )
}

fn clamp_to_i32(x: i128) -> (r: i32)
    ensures
        r as int == crate::num::clip(x as int, i32::MIN as int, i32::MAX as int),
{
    if x < i32::MIN as i128 {
        i32::MIN
    } else if x > i32::MAX as i128 {
        i32::MAX
    } else {
        x as i32
    }
}

/// The velocity PID set an applied autotune run stores: the synthesized
/// controller and integral gains, no derivative, and the QPPS that was
/// already stored.
pub open spec fn spec_written_pid(tau_us: int, k_eff: int, lambda: int, qpps: i32) -> VelocityPidParams {
    VelocityPidParams {
        p: spec_kc_fp(tau_us, k_eff, lambda) as i32,
        i: spec_ki_fp(k_eff, lambda) as i32,
        d: 0,
        qpps,
    }
}

/// The outcome of an autotune run: the synthesized gains, whether they
/// were written back, and the write's error if it failed.
pub struct AutotuneOutcome {
    pub gains: TuneGains,
    pub applied: bool,
    pub write_error: Option<String>,
}

/// Autotune the velocity loop from an estimated plant model: read the
/// stored QPPS, synthesize IMC gains, and — only when `apply_result` is
/// set — write the new velocity PID back through the driver. With
/// `apply_result` false the simulation state is never touched.
pub fn autotune_velocity_sync(
    sys: &mut MotorSystem,
    motor_index: u8,
    k_est_micro: i64,
    tau_us: i64,
    lambda_scale_milli: Option<i64>,
    apply_result: bool,
) -> (r: Result<AutotuneOutcome, String>)
    requires
        old(sys).wf(),
        -100_000_000_000_000 <= k_est_micro <= 100_000_000_000_000,
        -1_000_000_000 <= tau_us <= 1_000_000_000,
    ensures
        final(sys).wf(),
        crate::device::config_unchanged(*old(sys), *final(sys)),
        old(sys).simulated ==> final(sys).controller == old(sys).controller,
        !apply_result ==> final(sys).sim == old(sys).sim,
        !apply_result && old(sys).simulated ==> *final(sys) == *old(sys),
        old(sys).simulated ==> (r is Ok <==> {
            let stored = if motor_index == 1 {
                old(sys).sim.m1_velocity_pid
            } else {
                old(sys).sim.m2_velocity_pid
            };
            stored.qpps > 0 && spec_k_eff(k_est_micro as int, stored.qpps as int) != 0 && tau_us
                > 0 && spec_lambda_us(tau_us as int, lambda_scale_milli) > 0
        }),
        old(sys).simulated && r is Ok ==> {
            let stored = if motor_index == 1 {
                old(sys).sim.m1_velocity_pid
            } else {
                old(sys).sim.m2_velocity_pid
            };
            let k_eff = spec_k_eff(k_est_micro as int, stored.qpps as int);
            let lambda = spec_lambda_us(tau_us as int, lambda_scale_milli);
            &&& r->Ok_0.gains.kc_fp as int == spec_kc_fp(tau_us as int, k_eff, lambda)
            &&& r->Ok_0.gains.ki_fp as int == spec_ki_fp(k_eff, lambda)
            &&& r->Ok_0.gains.kd_fp == 0
            &&& r->Ok_0.gains.ti_us == tau_us
            &&& r->Ok_0.applied == apply_result
            &&& r->Ok_0.applied ==> final(sys).sim == (if motor_index == 1 {
                SimState {
                    m1_velocity_pid: spec_written_pid(tau_us as int, k_eff, lambda, stored.qpps),
                    ..old(sys).sim
                }
            } else {
                SimState {
                    m2_velocity_pid: spec_written_pid(tau_us as int, k_eff, lambda, stored.qpps),
                    ..old(sys).sim
                }
            })
            &&& !r->Ok_0.applied ==> final(sys).sim == old(sys).sim
        },
{
    let stored: VelocityPidParams = match read_velocity_pid_sync(sys, motor_index) {
        Ok(p) => p,
        Err(e) => {
            return Err(e);
        },
    };
    let gains: TuneGains = match synthesize_velocity_gains(
        k_est_micro,
        stored.qpps,
        tau_us,
        lambda_scale_milli,
    ) {
        Ok(g) => g,
        Err(e) => {
            return Err(e);
        },
    };
    if !apply_result {
        return Ok(AutotuneOutcome { gains, applied: false, write_error: None });
    }
    let params: VelocityPidParams = VelocityPidParams {
        p: gains.kc_fp,
        i: gains.ki_fp,
        d: 0,
        qpps: stored.qpps,
    };
    match set_velocity_pid_sync(sys, motor_index, params) {
        Ok(_) => Ok(AutotuneOutcome { gains, applied: true, write_error: None }),
        Err(e) => Ok(AutotuneOutcome { gains, applied: false, write_error: Some(e) }),
    }
}

} // verus!
