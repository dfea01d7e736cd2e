//! Simulation engine tests: deterministic plant stepping, convergence,
//! proportional-gain sensitivity, and the lazy wall-clock update.

use std::time::{Duration, Instant};

use roboclaw::protocol::VelocityPidParams;
use roboclaw::sim::{set_sim_params_sync, sim_step, sim_update, SimState};

#[test]
fn velocity_pid_changes_response() {
    let mut sim: SimState = SimState::new();
    sim.m1_velocity_pid = VelocityPidParams { p: 0x00010000, i: 0x0, d: 0x0, qpps: 44000 };
    sim.last_update = Some(Instant::now() - Duration::from_millis(200));
    // Set PWM to max forward and enable PWM mode.
    sim.m1_pwm = 32767;
    sim.m1_mode_pwm = true;
    // Call update several times.
    for _ in 0..10 {
        sim_update(&mut sim);
    }
    // With a P-only controller, velocity should be > 0.
    assert!(sim.m1_vel > 0);

    // Now increase P and ensure it responds at least as fast (velocity no
    // lower after the same number of updates).
    let mut sim2: SimState = sim.clone();
    sim2.m1_velocity_pid.p = 0x00020000;
    for _ in 0..10 {
        sim_update(&mut sim2);
    }
    assert!(sim2.m1_vel >= sim.m1_vel);
}

#[test]
fn full_pwm_converges_to_gain_within_one_percent() {
    // tau = 100 ms, gain = 100 pulses/s (100_000 milli-pps), from rest.
    let mut sim: SimState = SimState::new();
    sim.m1_pwm = 32767;
    sim.m1_mode_pwm = true;
    // 50 sub-steps of 10 ms = 0.5 s = 5 tau.
    for _ in 0..50 {
        sim_step(&mut sim, 10_000);
    }
    assert_eq!(sim.m1_vel, 99_481);
    assert!(sim.gain_m1 - sim.m1_vel <= sim.gain_m1 / 100);
    // Never overshoots.
    assert!(sim.m1_vel <= sim.gain_m1);
}

#[test]
fn full_pwm_velocity_is_monotone_and_bounded() {
    let mut sim: SimState = SimState::new();
    sim.m2_pwm = 32767;
    sim.m2_mode_pwm = true;
    let mut last: i64 = sim.m2_vel;
    for _ in 0..30 {
        sim_step(&mut sim, 10_000);
        assert!(sim.m2_vel >= last);
        assert!(sim.m2_vel <= sim.gain_m2);
        last = sim.m2_vel;
    }
}

#[test]
fn doubling_p_gain_never_slows_convergence() {
    // Speed mode, P-only controller, from rest, positive setpoint.
    let mut lo: SimState = SimState::new();
    lo.m1_velocity_pid = VelocityPidParams { p: 0x00010000, i: 0, d: 0, qpps: 44000 };
    lo.m1_speed = 127;
    lo.m1_mode_pwm = false;
    let mut hi: SimState = lo.clone();
    hi.m1_velocity_pid.p = 0x00020000;
    sim_step(&mut lo, 10_000);
    sim_step(&mut hi, 10_000);
    assert!(hi.m1_vel >= lo.m1_vel);
    assert!(lo.m1_vel > 0);
}

#[test]
fn encoder_accumulates_with_velocity() {
    let mut sim: SimState = SimState::new();
    set_sim_params_sync(&mut sim, 1, 10_000, 100_000).expect("set params");
    sim.m1_pwm = 32767;
    sim.m1_mode_pwm = true;
    // tau equals the sub-step, so the plant reaches the 100 pps target on
    // the first sub-step; each 10 ms sub-step then adds one pulse.
    sim_step(&mut sim, 100_000);
    assert_eq!(sim.m1_vel, 100_000);
    assert_eq!(sim.m1_encoder, 10);
}

#[test]
fn set_sim_params_validates_inputs() {
    let mut sim: SimState = SimState::new();
    assert!(set_sim_params_sync(&mut sim, 3, 100_000, 100_000).is_err());
    assert!(set_sim_params_sync(&mut sim, 1, 0, 100_000).is_err());
    assert!(set_sim_params_sync(&mut sim, 1, 100_000, 2_000_000_000_000).is_err());
    assert_eq!(sim.tau_m1, 100_000);
    assert!(set_sim_params_sync(&mut sim, 2, 200_000, 50_000).is_ok());
    assert_eq!(sim.tau_m2, 200_000);
    assert_eq!(sim.gain_m2, 50_000);
}

#[test]
fn first_update_only_stamps_the_clock() {
    let mut sim: SimState = SimState::new();
    sim.m1_pwm = 32767;
    sim.m1_mode_pwm = true;
    assert!(sim.last_update.is_none());
    sim_update(&mut sim);
    assert!(sim.last_update.is_some());
    assert_eq!(sim.m1_vel, 0);
}
