//! QPPS measurement and autotuning tests.

use roboclaw::device::{
    read_velocity_pid_sync, set_simulation_mode_sync, set_velocity_pid_sync, MotorSystem,
};
use roboclaw::protocol::VelocityPidParams;
use roboclaw::qpps::{measure_qpps_sync, qpps_from_encoder_samples, sort_i32, QppsMeasurement};
use roboclaw::sim::{set_sim_params_sync, SimState};
use roboclaw::tuning::{autotune_velocity_sync, synthesize_velocity_gains, TuneGains};

#[test]
fn measure_qpps_simulation_uses_pwm() {
    let mut sys: MotorSystem = MotorSystem::new(String::from("bench"));
    // Ensure starting state: motor at rest, zero gain so nothing moves.
    set_sim_params_sync(&mut sys.sim, 1, 100_000, 0).expect("set params");
    // Enable simulation mode for the duration of this test.
    set_simulation_mode_sync(&mut sys, true).expect("enable sim");
    let res: QppsMeasurement = measure_qpps_sync(&mut sys.sim, 1, 500).expect(
        "measure qpps failed",
    );
    // Disable simulation mode.
    set_simulation_mode_sync(&mut sys, false).expect("disable sim");
    assert_eq!(res.qpps, 0);
    assert!(res.encoder_samples.len() >= 2);
    // The first encoder sample should be zero since the motor never moves.
    assert_eq!(res.encoder_samples[0], 0);
    // The measurement leaves the motor driven at PWM zero.
    assert_eq!(sys.sim.m1_pwm, 0);
    assert!(sys.sim.m1_mode_pwm);
}

#[test]
fn measure_qpps_reports_the_plant_rate() {
    let mut sim: SimState = SimState::new();
    // tau = 10 ms settles within the first sub-step; gain 100 pulses/s.
    set_sim_params_sync(&mut sim, 1, 10_000, 100_000).expect("set params");
    let res: QppsMeasurement = measure_qpps_sync(&mut sim, 1, 500).expect("measure");
    assert_eq!(res.encoder_samples.len(), 5);
    assert_eq!(res.encoder_samples[0], 10);
    assert_eq!(res.qpps, 100);
    assert_eq!(res.qpps_samples, vec![100, 100, 100, 100]);
    // Afterwards the PWM is back at zero.
    assert_eq!(sim.m1_pwm, 0);
}

#[test]
fn measure_qpps_rejects_short_durations() {
    let mut sim: SimState = SimState::new();
    assert!(measure_qpps_sync(&mut sim, 1, 199).is_err());
    assert!(measure_qpps_sync(&mut sim, 1, 0).is_err());
    assert!(measure_qpps_sync(&mut sim, 1, 200).is_ok());
}

#[test]
fn qpps_needs_two_samples() {
    assert!(qpps_from_encoder_samples(&vec![]).is_err());
    assert!(qpps_from_encoder_samples(&vec![42]).is_err());
    assert!(qpps_from_encoder_samples(&vec![0, 100]).is_ok());
}

#[test]
fn qpps_median_ignores_an_outlier_interval() {
    // Four steady intervals of 1000 pulses per 100 ms and one wild outlier:
    // the median stays at 10000 pulses/s, where a mean would report 210000.
    let samples: Vec<i64> = vec![0, 1000, 2000, 3000, 4000, 105_000];
    let (qpps, sorted) = qpps_from_encoder_samples(&samples).expect("qpps");
    assert_eq!(qpps, 10_000);
    assert_eq!(sorted, vec![10_000, 10_000, 10_000, 10_000, 1_010_000]);
}

#[test]
fn sort_orders_and_keeps_values() {
    let input: Vec<i32> = vec![5, -3, 5, 0, 2];
    let sorted: Vec<i32> = sort_i32(&input);
    assert_eq!(sorted, vec![-3, 0, 2, 5, 5]);
}

#[test]
fn imc_synthesis_exact_gains() {
    // K_eff = 2 (QPPS equal to the actuator range makes the scaling exact),
    // tau = 0.5 s, default lambda = 0.5 tau = 0.25 s:
    // Kc = tau / (K_eff * lambda) = 1.0, Ki = Kc / Ti = 2.0.
    let g: TuneGains = synthesize_velocity_gains(2_000_000, 32767, 500_000, None).expect(
        "synthesize",
    );
    assert_eq!(g.kc_fp, 65536);
    assert_eq!(g.ki_fp, 131072);
    assert_eq!(g.kd_fp, 0);
    assert_eq!(g.ti_us, 500_000);
    assert_eq!(g.k_eff_micro, 2_000_000);
    assert_eq!(g.lambda_us, 250_000);
}

#[test]
fn imc_synthesis_lambda_scale_is_clamped() {
    // A requested scale below 0.05 clamps to 0.05: lambda = 25 ms,
    // Kc = 0.5/(2*0.025) = 10.
    let g: TuneGains = synthesize_velocity_gains(2_000_000, 32767, 500_000, Some(1)).expect(
        "synthesize",
    );
    assert_eq!(g.lambda_us, 25_000);
    assert_eq!(g.kc_fp, 655360);
}

#[test]
fn imc_synthesis_error_cases() {
    assert!(synthesize_velocity_gains(2_000_000, 0, 500_000, None).is_err());
    assert!(synthesize_velocity_gains(2_000_000, -5, 500_000, None).is_err());
    assert!(synthesize_velocity_gains(0, 32767, 500_000, None).is_err());
    assert!(synthesize_velocity_gains(2_000_000, 32767, 0, None).is_err());
    // A time constant so short that lambda truncates to zero microseconds.
    assert!(synthesize_velocity_gains(2_000_000, 32767, 10, Some(50)).is_err());
}

#[test]
fn autotune_without_apply_leaves_driver_untouched() {
    let mut sys: MotorSystem = MotorSystem::new(String::from("bench"));
    set_simulation_mode_sync(&mut sys, true).expect("enable sim");
    let stored = VelocityPidParams { p: 1, i: 2, d: 3, qpps: 32767 };
    set_velocity_pid_sync(&mut sys, 1, stored).expect("seed pid");
    let out = autotune_velocity_sync(&mut sys, 1, 2_000_000, 500_000, None, false).expect(
        "autotune",
    );
    assert!(!out.applied);
    assert_eq!(out.gains.kc_fp, 65536);
    assert_eq!(out.gains.ki_fp, 131072);
    // No write reached the driver.
    let after: VelocityPidParams = read_velocity_pid_sync(&mut sys, 1).expect("read back");
    assert_eq!(after, stored);
}

#[test]
fn autotune_with_apply_writes_the_gains() {
    let mut sys: MotorSystem = MotorSystem::new(String::from("bench"));
    set_simulation_mode_sync(&mut sys, true).expect("enable sim");
    let stored = VelocityPidParams { p: 1, i: 2, d: 3, qpps: 32767 };
    set_velocity_pid_sync(&mut sys, 1, stored).expect("seed pid");
    let out = autotune_velocity_sync(&mut sys, 1, 2_000_000, 500_000, None, true).expect(
        "autotune",
    );
    assert!(out.applied);
    let after: VelocityPidParams = read_velocity_pid_sync(&mut sys, 1).expect("read back");
    assert_eq!(after, VelocityPidParams { p: 65536, i: 131072, d: 0, qpps: 32767 });
}
