//! Driver tests against the simulation backend, plus the end-to-end
//! scenario and hardware-mode error paths (no channel open).

use roboclaw::device::{
    configure_port_sync, drive_pwm_sync, drive_simply_sync, is_simulation_enabled,
    read_all_status_sync, read_motor_currents_sync, read_position_pid_sync, read_pwm_values_sync,
    read_speed_sync, read_velocity_pid_sync, reset_encoder_sync, set_position_pid_sync,
    set_simulation_mode_sync, set_velocity_pid_sync, simulated_port, MotorSystem,
};
use roboclaw::protocol::{PositionPidParams, VelocityPidParams};
use roboclaw::sim::{set_sim_params_sync, sim_step};

fn sim_system() -> MotorSystem {
    let mut sys: MotorSystem = MotorSystem::new(String::from("bench"));
    set_simulation_mode_sync(&mut sys, true).expect("enable sim");
    sys
}

#[test]
fn backend_flag_round_trip() {
    let mut sys: MotorSystem = MotorSystem::new(String::from("bench"));
    assert!(!is_simulation_enabled(&sys));
    set_simulation_mode_sync(&mut sys, true).expect("enable sim");
    assert!(is_simulation_enabled(&sys));
    set_simulation_mode_sync(&mut sys, false).expect("disable sim");
    assert!(!is_simulation_enabled(&sys));
}

#[test]
fn sentinel_port_selects_simulation() {
    let mut sys: MotorSystem = MotorSystem::new(String::from("bench"));
    configure_port_sync(&mut sys, simulated_port().to_owned(), None).expect("sentinel port");
    assert!(is_simulation_enabled(&sys));
    assert!(sys.controller.port.is_none());
}

#[test]
fn drive_pwm_stores_command_in_simulation() {
    let mut sys: MotorSystem = sim_system();
    drive_pwm_sync(&mut sys, 16000, 1).expect("drive pwm");
    assert_eq!(sys.sim.m1_pwm, 16000);
    assert!(sys.sim.m1_mode_pwm);
    drive_pwm_sync(&mut sys, -500, 2).expect("drive pwm m2");
    assert_eq!(sys.sim.m2_pwm, -500);
    assert!(sys.sim.m2_mode_pwm);
}

#[test]
fn drive_simply_stores_speed_byte_in_simulation() {
    let mut sys: MotorSystem = sim_system();
    drive_pwm_sync(&mut sys, 100, 1).expect("drive pwm first");
    drive_simply_sync(&mut sys, 100, 1).expect("drive simply");
    assert_eq!(sys.sim.m1_speed, 100);
    assert!(!sys.sim.m1_mode_pwm);
}

#[test]
fn velocity_pid_store_and_read_back() {
    let mut sys: MotorSystem = sim_system();
    let params = VelocityPidParams { p: 123, i: 456, d: 789, qpps: 32000 };
    set_velocity_pid_sync(&mut sys, 2, params).expect("set pid");
    let got: VelocityPidParams = read_velocity_pid_sync(&mut sys, 2).expect("read pid");
    assert_eq!(got, params);
    // Motor 1 keeps its stock parameters.
    let stock: VelocityPidParams = read_velocity_pid_sync(&mut sys, 1).expect("read stock");
    assert_eq!(stock, VelocityPidParams::default());
}

#[test]
fn position_pid_store_and_read_back() {
    let mut sys: MotorSystem = sim_system();
    let params = PositionPidParams {
        p: 11,
        i: 22,
        d: 33,
        max_i: 44,
        deadzone: 55,
        min: -66,
        max: 77,
    };
    set_position_pid_sync(&mut sys, 1, params).expect("set pid");
    let got: PositionPidParams = read_position_pid_sync(&mut sys, 1).expect("read pid");
    assert_eq!(got, params);
}

#[test]
fn reset_recenters_drive_state() {
    let mut sys: MotorSystem = sim_system();
    // A fast motor, so whole pulses accumulate within a few sub-steps.
    set_sim_params_sync(&mut sys.sim, 1, 100_000, 10_000_000).expect("set params");
    drive_pwm_sync(&mut sys, 32767, 1).expect("drive");
    for _ in 0..10 {
        sim_step(&mut sys.sim, 10_000);
    }
    assert!(sys.sim.m1_vel > 0);
    assert!(sys.sim.m1_encoder > 0);
    reset_encoder_sync(&mut sys).expect("reset");
    assert_eq!(sys.sim.m1_speed, 64);
    assert_eq!(sys.sim.m1_pwm, 0);
    assert!(!sys.sim.m1_mode_pwm);
    assert_eq!(sys.sim.m1_vel, 0);
    assert_eq!(sys.sim.m1_encoder, 0);
    assert_eq!(sys.sim.m2_encoder, 0);
}

#[test]
fn read_speed_at_rest_is_zero() {
    let mut sys: MotorSystem = sim_system();
    let v: i32 = read_speed_sync(&mut sys, 1).expect("read speed");
    assert_eq!(v, 0);
}

#[test]
fn end_to_end_simulated_pwm_speed() {
    // Simulated mode; motor 1 tau = 0.1 s, gain = 100 pulses/s; PWM 16000
    // is about 48.8% duty, so after 5 tau or more of updates the measured
    // speed settles near 48.8 pulses/s.
    let mut sys: MotorSystem = sim_system();
    set_sim_params_sync(&mut sys.sim, 1, 100_000, 100_000).expect("set params");
    drive_pwm_sync(&mut sys, 16000, 1).expect("drive pwm");
    for _ in 0..60 {
        sim_step(&mut sys.sim, 10_000);
    }
    let speed: i32 = read_speed_sync(&mut sys, 1).expect("read speed");
    assert!(48 <= speed && speed <= 49, "speed {} out of range", speed);
}

#[test]
fn status_reflects_simulation_state() {
    let mut sys: MotorSystem = sim_system();
    drive_pwm_sync(&mut sys, 20000, 1).expect("drive");
    for _ in 0..20 {
        sim_step(&mut sys.sim, 10_000);
    }
    let st = read_all_status_sync(&mut sys).expect("status");
    assert_eq!(st.m1_pwm, 20000);
    assert_eq!(st.m1_encoder, sys.sim.m1_encoder);
    assert!(st.m1_speed > 0);
    assert_eq!(st.errors, 0);
}

#[test]
fn currents_scale_with_speed() {
    let mut sys: MotorSystem = sim_system();
    drive_pwm_sync(&mut sys, 32767, 1).expect("drive");
    for _ in 0..50 {
        sim_step(&mut sys.sim, 10_000);
    }
    let (m1, m2) = read_motor_currents_sync(&mut sys).expect("currents");
    // current = |velocity in pulses/s| * 15; velocity settled at 99.481.
    assert_eq!(m1, (sys.sim.m1_vel * 15 / 1000) as u32);
    assert_eq!(m2, 0);
}

#[test]
fn pwm_readback_in_both_modes() {
    let mut sys: MotorSystem = sim_system();
    drive_pwm_sync(&mut sys, 12345, 1).expect("drive");
    let (m1, _m2) = read_pwm_values_sync(&mut sys).expect("readback");
    assert_eq!(m1, 12345);
    drive_simply_sync(&mut sys, 64, 1).expect("speed mode");
    let (m1b, _m2b) = read_pwm_values_sync(&mut sys).expect("readback 2");
    // Speed mode reports the velocity scaled as if 120 pulses/s were full
    // duty; the velocity barely moves here, so the estimate stays small.
    assert!(m1b.abs() <= 32767);
}

#[test]
fn hardware_mode_without_channel_fails() {
    let mut sys: MotorSystem = MotorSystem::new(String::from("bench"));
    assert!(sys.controller.port.is_none());
    assert!(drive_pwm_sync(&mut sys, 100, 1).is_err());
    assert!(drive_simply_sync(&mut sys, 70, 1).is_err());
    assert!(read_speed_sync(&mut sys, 1).is_err());
    assert!(read_all_status_sync(&mut sys).is_err());
    assert!(reset_encoder_sync(&mut sys).is_err());
    assert!(read_velocity_pid_sync(&mut sys, 1).is_err());
    assert!(set_velocity_pid_sync(&mut sys, 1, VelocityPidParams::default()).is_err());
}
