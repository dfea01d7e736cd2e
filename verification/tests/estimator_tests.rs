//! Estimator tests: step-response fit on synthetic first-order data, the
//! rise-time fallback, and the frequency-response grid fit.

use roboclaw::estimators::{
    fit_frf_sync, step_fit_finish, step_fit_prepare, FrfFit, StepDeviations, StepEstimate,
    StepSample,
};

fn sample(t_ms: i64, vel: i64, cmd: i64) -> StepSample {
    StepSample { t_ms, vel, cmd }
}

/// Synthetic first-order step response: tau = 0.5 s, K = 2, command steps
/// from 0 to 50 units. The tail samples sit far enough out to be settled
/// exactly, so the steady state is recovered without bias.
fn synthetic_step_samples() -> Vec<StepSample> {
    let tau_s: f64 = 0.5;
    let y_inf: f64 = 100_000.0;
    let mut samples: Vec<StepSample> = Vec::new();
    for i in 0..5 {
        samples.push(sample(i * 50, 0, 0));
    }
    let t0: i64 = 250;
    for i in 1..21 {
        let t_rel: f64 = (i * 50) as f64 / 1000.0;
        let y: f64 = y_inf * (1.0 - (-t_rel / tau_s).exp());
        samples.push(sample(t0 + i * 50, y.round() as i64, 50_000));
    }
    for i in 0..7 {
        samples.push(sample(t0 + 6_500 + i * 50, 100_000, 50_000));
    }
    samples
}

fn ln_micro_of(prep: &StepDeviations) -> Vec<i64> {
    let mut lns: Vec<i64> = Vec::new();
    for &d in prep.dev_abs.iter() {
        let ln: f64 = ((d as f64) / 1000.0).ln();
        lns.push((ln * 1_000_000.0).round() as i64);
    }
    lns
}

#[test]
fn step_fit_recovers_gain_and_time_constant() {
    let samples: Vec<StepSample> = synthetic_step_samples();
    let prep: StepDeviations = step_fit_prepare(&samples).expect("prepare");
    assert_eq!(prep.step_idx, 5);
    assert_eq!(prep.y0, 0);
    assert_eq!(prep.y_inf, 100_000);
    assert_eq!(prep.k_micro, 2_000_000);
    let lns: Vec<i64> = ln_micro_of(&prep);
    let est: StepEstimate = step_fit_finish(&samples, &prep, &lns).expect("finish");
    // Within 2% of the true K = 2 and tau = 0.5 s; fit quality over 0.98.
    assert!((est.k_micro - 2_000_000).abs() <= 40_000, "K {}", est.k_micro);
    assert!((est.tau_us - 500_000).abs() <= 10_000, "tau {}", est.tau_us);
    let r2: i64 = est.r2_ppm.expect("regression quality");
    assert!(r2 > 980_000, "r2 {}", r2);
    assert_eq!(est.step_time_ms, 300);
}

#[test]
fn step_fit_needs_five_samples() {
    let samples: Vec<StepSample> = vec![
        sample(0, 0, 0),
        sample(50, 0, 0),
        sample(100, 0, 1000),
        sample(150, 0, 1000),
    ];
    assert!(step_fit_prepare(&samples).is_err());
}

#[test]
fn step_fit_needs_a_step() {
    let mut samples: Vec<StepSample> = Vec::new();
    for i in 0..10 {
        samples.push(sample(i * 50, i * 10, 500));
    }
    assert!(step_fit_prepare(&samples).is_err());
}

#[test]
fn step_fit_rejects_vanishing_command_change() {
    // A command pulse that returns to the initial level: a step exists but
    // the steady-state command equals the initial one.
    let mut samples: Vec<StepSample> = Vec::new();
    for i in 0..5 {
        samples.push(sample(i * 50, 0, 0));
    }
    samples.push(sample(250, 1000, 1000));
    for i in 0..4 {
        samples.push(sample(300 + i * 50, 0, 0));
    }
    assert!(step_fit_prepare(&samples).is_err());
}

#[test]
fn step_fit_falls_back_to_rise_time() {
    // The response jumps instantly to the steady state, so no deviations
    // remain for a regression; the 63.2%-rise heuristic applies at the
    // first post-step sample.
    let mut samples: Vec<StepSample> = Vec::new();
    for i in 0..5 {
        samples.push(sample(i * 50, 0, 0));
    }
    for i in 0..10 {
        samples.push(sample(250 + i * 50, 80_000, 50_000));
    }
    let prep: StepDeviations = step_fit_prepare(&samples).expect("prepare");
    assert!(prep.dev_t_us.len() < 3);
    let est: StepEstimate = step_fit_finish(&samples, &prep, &Vec::<i64>::new()).expect("finish");
    assert!(est.r2_ppm.is_none());
    assert_eq!(est.tau_us, 0);
    assert_eq!(est.y_inf, 80_000);
}

#[test]
fn step_fit_rejects_mismatched_log_count() {
    let samples: Vec<StepSample> = synthetic_step_samples();
    let prep: StepDeviations = step_fit_prepare(&samples).expect("prepare");
    let wrong: Vec<i64> = vec![0; prep.dev_t_us.len() - 1];
    assert!(step_fit_finish(&samples, &prep, &wrong).is_err());
}

#[test]
fn step_fit_rejects_degenerate_regression() {
    // Three deviation samples share one timestamp, so the regression
    // denominator is zero.
    let mut samples: Vec<StepSample> = Vec::new();
    for i in 0..5 {
        samples.push(sample(i * 50, 0, 0));
    }
    samples.push(sample(250, 10_000, 50_000));
    samples.push(sample(250, 20_000, 50_000));
    samples.push(sample(250, 30_000, 50_000));
    for i in 0..4 {
        samples.push(sample(300 + i * 50, 90_000, 50_000));
    }
    let prep: StepDeviations = step_fit_prepare(&samples).expect("prepare");
    assert!(prep.dev_t_us.len() >= 3);
    let lns: Vec<i64> = ln_micro_of(&prep);
    assert!(step_fit_finish(&samples, &prep, &lns).is_err());
}

#[test]
fn step_fit_rejects_zero_slope() {
    // Deviations at distinct times whose logarithms are all equal give a
    // zero regression slope, which supports no time constant.
    let samples: Vec<StepSample> = synthetic_step_samples();
    let prep: StepDeviations = step_fit_prepare(&samples).expect("prepare");
    let flat: Vec<i64> = vec![5_000_000; prep.dev_t_us.len()];
    assert!(step_fit_finish(&samples, &prep, &flat).is_err());
}

#[test]
fn frf_fit_recovers_pole_and_gain() {
    // H = 2 / (1 + j*omega*0.5): magnitude/phase generated exactly from
    // K = 2, tau = 0.5 s over a frequency grid.
    let omegas: Vec<i64> = vec![200, 500, 1000, 2000, 4000, 8000];
    let mut h_re: Vec<i64> = Vec::new();
    let mut h_im: Vec<i64> = Vec::new();
    for &wm in omegas.iter() {
        let x: f64 = (wm as f64 / 1000.0) * 0.5;
        let denom: f64 = 1.0 + x * x;
        h_re.push((2.0 / denom * 1_000_000.0).round() as i64);
        h_im.push((-2.0 * x / denom * 1_000_000.0).round() as i64);
    }
    let grid: Vec<i64> = vec![
        100_000, 200_000, 300_000, 400_000, 500_000, 600_000, 800_000, 1_000_000, 2_000_000,
    ];
    let fit: FrfFit = fit_frf_sync(&omegas, &h_re, &h_im, &grid).expect("fit");
    assert!(fit.converged);
    assert_eq!(fit.tau_us, 500_000);
    assert_eq!(fit.k_re_micro, 2_000_000);
    assert_eq!(fit.k_im_micro, 0);
    assert_eq!(fit.k_mag_micro, 2_000_000);
    // Near-zero residual on exact data.
    assert!(fit.residual_micro2 <= 10, "residual {}", fit.residual_micro2);
    assert_eq!(fit.fitted_re_micro.len(), 6);
    // The fitted curve reproduces the measurements closely.
    for i in 0..6 {
        assert!((fit.fitted_re_micro[i] - h_re[i]).abs() <= 5);
        assert!((fit.fitted_im_micro[i] - h_im[i]).abs() <= 5);
    }
    // |H| at the lowest frequency is 2/sqrt(1.01) = 1.990...
    assert!((fit.fitted_mag_micro[0] - 1_990_074).abs() <= 10);
}

#[test]
fn frf_fit_rejects_bad_inputs() {
    let empty: Vec<i64> = Vec::new();
    let grid: Vec<i64> = vec![100_000];
    assert!(fit_frf_sync(&empty, &empty, &empty, &grid).is_err());
    let omegas: Vec<i64> = vec![1000, 2000];
    let short: Vec<i64> = vec![1];
    let two: Vec<i64> = vec![1, 2];
    assert!(fit_frf_sync(&omegas, &short, &two, &grid).is_err());
    assert!(fit_frf_sync(&omegas, &two, &two, &empty).is_err());
}
