//! System identification estimators.
//!
//! The step-response estimator works on integer-scaled samples: times in
//! milliseconds, velocities and commands in milli-units. Everything is
//! computed exactly in integers except the natural logarithm of the decay
//! deviations, which the caller supplies (micro-scaled) for the deviation
//! list that `step_fit_prepare` returns.

use vstd::prelude::*;
use crate::num::{clip, lemma_mul_bound, lemma_tdiv_bound, lemma_tdiv_quotient_bound, tdiv};

verus! {

/// One experiment sample: time in ms, measured velocity and command value
/// in milli-units.
#[derive(Debug, Clone, Copy, PartialEq, Eq, Structural)]
pub struct StepSample {
    pub t_ms: i64,
    pub vel: i64,
    pub cmd: i64,
}

/// Machine bounds on one sample so every derived quantity fits its type.
pub open spec fn sample_bounded(s: StepSample) -> bool {
    &&& -1_000_000 <= s.t_ms <= 1_000_000
    &&& -1_000_000_000_000 <= s.vel <= 1_000_000_000_000
    &&& -1_000_000_000_000 <= s.cmd <= 1_000_000_000_000
}

pub open spec fn samples_bounded(s: Seq<StepSample>) -> bool {
    forall|i: int| 0 <= i < s.len() ==> sample_bounded(#[trigger] s[i])
}

/// Sum of the velocities of samples `lo..hi`.
pub open spec fn sum_vel(s: Seq<StepSample>, lo: int, hi: int) -> int
    decreases hi - lo,
{
    if hi <= lo {
        0
    } else {
        sum_vel(s, lo, hi - 1) + s[hi - 1].vel
    }
}

/// Sum of the commands of samples `lo..hi`.
pub open spec fn sum_cmd(s: Seq<StepSample>, lo: int, hi: int) -> int
    decreases hi - lo,
{
    if hi <= lo {
        0
    } else {
        sum_cmd(s, lo, hi - 1) + s[hi - 1].cmd
    }
}

/// The first index at or after `i` whose command deviates from the initial
/// command by more than 0.5 units (500 milli), or -1 if none does.
pub open spec fn find_step(s: Seq<StepSample>, first_cmd: int, i: int) -> int
    decreases s.len() - i,
{
    if i < 0 || i >= s.len() {
        -1
    } else if s[i].cmd - first_cmd > 500 || s[i].cmd - first_cmd < -500 {
        i
    } else {
        find_step(s, first_cmd, i + 1)
    }
}

/// Where the steady-state window begins: the last 20% of the samples.
pub open spec fn tail_start(n: int) -> int {
    n * 4 / 5
}

/// Baseline velocity: the mean of the pre-step samples, or the first
/// sample's velocity when the step is at the very start.
pub open spec fn spec_y0(s: Seq<StepSample>, step_idx: int) -> int {
    if step_idx > 0 {
        tdiv(sum_vel(s, 0, step_idx), step_idx)
    } else {
        s[0].vel as int
    }
}

/// Steady-state velocity: the mean over the tail window.
pub open spec fn spec_y_inf(s: Seq<StepSample>) -> int {
    tdiv(sum_vel(s, tail_start(s.len() as int), s.len() as int), s.len() - tail_start(
        s.len() as int,
    ))
}

/// Steady-state command: the mean command over the tail window.
pub open spec fn spec_cmd_final(s: Seq<StepSample>) -> int {
    tdiv(sum_cmd(s, tail_start(s.len() as int), s.len() as int), s.len() - tail_start(
        s.len() as int,
    ))
}

/// The post-step deviation list used for the exponential fit: for every
/// post-step sample whose velocity differs from the steady state, the time
/// since the step in microseconds and the absolute deviation in
/// milli-units.
pub open spec fn spec_dev_pairs(s: Seq<StepSample>, t0_ms: int, y_inf: int) -> Seq<(int, int)>
    decreases s.len(),
{
    if s.len() == 0 {
        Seq::empty()
    } else {
        let rest = spec_dev_pairs(s.drop_first(), t0_ms, y_inf);
        if s[0].vel != y_inf {
            seq![
                (
                    (s[0].t_ms - t0_ms) * 1000,
                    if s[0].vel - y_inf >= 0 {
                        s[0].vel - y_inf
                    } else {
                        -(s[0].vel - y_inf)
                    },
                ),
            ] + rest
        } else {
            rest
        }
    }
}

/// The pairs held by two parallel vectors.
pub open spec fn pairs_of(ts: Seq<i64>, ds: Seq<i64>) -> Seq<(int, int)> {
    Seq::new(ts.len(), |i: int| (ts[i] as int, ds[i] as int))
}

/// Everything the step estimator derives before the logarithms are taken.
pub struct StepDeviations {
    pub step_idx: usize,
    pub t0_ms: i64,
    pub y0: i64,
    pub y_inf: i64,
    pub cmd_final: i64,
    pub delta_cmd: i64,
    pub k_micro: i64,
    pub dev_t_us: Vec<i64>,
    pub dev_abs: Vec<i64>,
}

impl StepDeviations {
    /// Bounds under which the regression's arithmetic fits its types.
    pub open spec fn wf(self) -> bool {
        &&& -1_000_000 <= self.t0_ms <= 1_000_000
        &&& -1_000_000_000_000 <= self.y0 <= 1_000_000_000_000
        &&& -1_000_000_000_000 <= self.y_inf <= 1_000_000_000_000
        &&& self.dev_t_us@.len() == self.dev_abs@.len()
        &&& self.dev_t_us@.len() <= 100_000
        &&& forall|i: int|
            0 <= i < self.dev_t_us@.len() ==> -2_000_000_000 <= #[trigger] self.dev_t_us@[i]
                <= 2_000_000_000
    }
}

/// Locate the command step, compute baseline, steady state and plant gain,
/// and list the post-step deviations whose logarithm the fit needs.
/// Fails on fewer than 5 samples, when no step is found, and when the
/// steady-state command change is zero at milli resolution.
pub fn step_fit_prepare(samples: &Vec<StepSample>) -> (r: Result<StepDeviations, String>)
    requires
        samples@.len() <= 100_000,
        samples_bounded(samples@),
    ensures
        r is Ok <==> samples@.len() >= 5 && find_step(samples@, samples@[0].cmd as int, 0) >= 0
            && spec_cmd_final(samples@) != samples@[0].cmd as int,
        r is Ok ==> {
            let s = samples@;
            let idx = find_step(s, s[0].cmd as int, 0);
            let p = r->Ok_0;
            &&& p.wf()
            &&& p.step_idx as int == idx
            &&& p.t0_ms == s[idx].t_ms
            &&& p.y0 as int == spec_y0(s, idx)
            &&& p.y_inf as int == spec_y_inf(s)
            &&& p.cmd_final as int == spec_cmd_final(s)
            &&& p.delta_cmd as int == spec_cmd_final(s) - s[0].cmd
            &&& p.k_micro as int == tdiv(
                (spec_y_inf(s) - spec_y0(s, idx)) * 1_000_000,
                spec_cmd_final(s) - s[0].cmd,
            )
            &&& pairs_of(p.dev_t_us@, p.dev_abs@) == spec_dev_pairs(
                s.skip(idx),
                p.t0_ms as int,
                p.y_inf as int,
            )
        },
{
    let n: usize = samples.len();
    if n < 5 {
        return Err("Need at least 5 samples to estimate".to_owned());
    }
    let first_cmd: i64 = samples[0].cmd;
    let mut step_idx: usize = 0;
    let mut found: bool = false;
    while step_idx < n && !found
        invariant
            samples@.len() == n,
            n >= 5,
            samples_bounded(samples@),
            first_cmd == samples@[0].cmd,
            step_idx <= n,
            found ==> step_idx < n && find_step(samples@, first_cmd as int, 0) == step_idx,
            !found ==> find_step(samples@, first_cmd as int, 0) == find_step(
                samples@,
                first_cmd as int,
                step_idx as int,
            ),
        decreases n - step_idx + (if found {
            0int
        } else {
            1int
        }),
    {
        let d: i64 = samples[step_idx].cmd - first_cmd;
        if d > 500 || d < -500 {
            found = true;
        } else {
            step_idx = step_idx + 1;
        }
    }
    if !found {
        return Err("Could not locate step in samples".to_owned());
    }
    let t0_ms: i64 = samples[step_idx].t_ms;
    let mut sum0: i64 = 0;
    let mut i: usize = 0;
    while i < step_idx
        invariant
            samples@.len() == n,
            samples_bounded(samples@),
            step_idx < n,
            i <= step_idx,
            sum0 == sum_vel(samples@, 0, i as int),
            -1_000_000_000_000 * (i as int) <= sum0 <= 1_000_000_000_000 * (i as int),
            n <= 100_000,
        decreases step_idx - i,
    {
        sum0 = sum0 + samples[i].vel;
        i = i + 1;
    }
    let y0: i64 = if step_idx > 0 {
        sum0 / (step_idx as i64)
    } else {
        samples[0].vel
    };
    proof {
        if step_idx > 0 {
            lemma_tdiv_quotient_bound(sum0 as int, step_idx as int, 1_000_000_000_000);
        }
    }
    let tail: usize = n * 4 / 5;
    let mut sv: i64 = 0;
    let mut sc: i64 = 0;
    let mut j: usize = tail;
    proof {
        assert(tail < n) by (nonlinear_arith)
            requires
                tail == n * 4 / 5 && n >= 5,
        ;
    }
    while j < n
        invariant
            samples@.len() == n,
            samples_bounded(samples@),
            tail <= j <= n,
            n <= 100_000,
            sv == sum_vel(samples@, tail as int, j as int),
            sc == sum_cmd(samples@, tail as int, j as int),
            -1_000_000_000_000 * (j - tail) <= sv <= 1_000_000_000_000 * (j - tail),
            -1_000_000_000_000 * (j - tail) <= sc <= 1_000_000_000_000 * (j - tail),
        decreases n - j,
    {
        sv = sv + samples[j].vel;
        sc = sc + samples[j].cmd;
        j = j + 1;
    }
    let tail_len: i64 = (n - tail) as i64;
    let y_inf: i64 = sv / tail_len;
    let cmd_final: i64 = sc / tail_len;
    proof {
        lemma_tdiv_quotient_bound(sv as int, tail_len as int, 1_000_000_000_000);
        lemma_tdiv_quotient_bound(sc as int, tail_len as int, 1_000_000_000_000);
    }
    let delta_cmd: i64 = cmd_final - first_cmd;
    if delta_cmd == 0 {
        return Err("Command change too small to estimate".to_owned());
    }
    let da: i64 = if delta_cmd >= 0 {
        delta_cmd
    } else {
        -delta_cmd
    };
    proof {
        lemma_mul_bound(y_inf as int - y0 as int, 1_000_000, 2_000_000_000_000, 1_000_000);
        lemma_tdiv_bound(
            (y_inf as int - y0 as int) * 1_000_000,
            da as int,
            2_000_000_000_000_000_000,
        );
        crate::num::lemma_tdiv_neg((y_inf as int - y0 as int) * 1_000_000, da as int);
    }
    let k_pos: i128 = ((y_inf - y0) as i128) * 1_000_000 / (da as i128);
    let k_micro: i64 = if delta_cmd >= 0 {
        k_pos as i64
    } else {
        (-k_pos) as i64
    };
    let mut dev_t_us: Vec<i64> = Vec::new();
    let mut dev_abs: Vec<i64> = Vec::new();
    let mut m: usize = step_idx;
    while m < n
        invariant
            samples@.len() == n,
            samples_bounded(samples@),
            step_idx <= m <= n,
            -1_000_000 <= t0_ms <= 1_000_000,
            -1_000_000_000_000 <= y_inf <= 1_000_000_000_000,
            dev_t_us@.len() == dev_abs@.len(),
            dev_t_us@.len() <= m - step_idx,
            forall|q: int|
                0 <= q < dev_t_us@.len() ==> -2_000_000_000 <= #[trigger] dev_t_us@[q]
                    <= 2_000_000_000,
            pairs_of(dev_t_us@, dev_abs@) + spec_dev_pairs(
                samples@.skip(m as int),
                t0_ms as int,
                y_inf as int,
            ) == spec_dev_pairs(samples@.skip(step_idx as int), t0_ms as int, y_inf as int),
        decreases n - m,
    {
        let ghost prev_t: Seq<i64> = dev_t_us@;
        let ghost prev_d: Seq<i64> = dev_abs@;
        let dev: i64 = samples[m].vel - y_inf;
        if dev != 0 {
            let t_rel: i64 = (samples[m].t_ms - t0_ms) * 1000;
            let a: i64 = if dev >= 0 {
                dev
            } else {
                -dev
            };
            dev_t_us.push(t_rel);
            dev_abs.push(a);
        }
        proof {
            assert(samples@.skip(m as int).drop_first() =~= samples@.skip(m as int + 1));
            assert(samples@.skip(m as int)[0] == samples@[m as int]);
            if dev != 0 {
                assert(pairs_of(dev_t_us@, dev_abs@) =~= pairs_of(prev_t, prev_d) + seq![
                    (
                        (samples@[m as int].t_ms - t0_ms) * 1000,
                        if samples@[m as int].vel - y_inf >= 0 {
                            samples@[m as int].vel - y_inf as int
                        } else {
                            -(samples@[m as int].vel - y_inf as int)
                        },
                    ),
                ]);
                assert((pairs_of(prev_t, prev_d) + seq![
                    (
                        (samples@[m as int].t_ms - t0_ms) * 1000,
                        if samples@[m as int].vel - y_inf >= 0 {
                            samples@[m as int].vel - y_inf as int
                        } else {
                            -(samples@[m as int].vel - y_inf as int)
                        },
                    ),
                ]) + spec_dev_pairs(samples@.skip(m as int + 1), t0_ms as int, y_inf as int)
                    =~= pairs_of(prev_t, prev_d) + spec_dev_pairs(
                    samples@.skip(m as int),
                    t0_ms as int,
                    y_inf as int,
                ));
            }
        }
        m = m + 1;
    }
    proof {
        assert(samples@.skip(n as int) =~= Seq::<StepSample>::empty());
        assert(pairs_of(dev_t_us@, dev_abs@) + Seq::<(int, int)>::empty() =~= pairs_of(
            dev_t_us@,
            dev_abs@,
        ));
    }
    Ok(
        StepDeviations {
            step_idx,
            t0_ms,
            y0,
            y_inf,
            cmd_final,
            delta_cmd,
            k_micro,
            dev_t_us,
            dev_abs,
        },
    )
}

/// The 63.2%-rise target velocity used by the fallback heuristic.
pub open spec fn spec_t63_target(y0: int, y_inf: int) -> int {
    y0 + tdiv(632 * (y_inf - y0), 1000)
}

/// Whether one post-step sample satisfies the rise-time criterion: within
/// one milli-unit of the target, or past it in the step's direction.
pub open spec fn t63_hit(v: int, target: int, y0: int, y_inf: int) -> bool {
    ||| (if v - target >= 0 {
        v - target
    } else {
        target - v
    }) <= 1
    ||| (y_inf - y0 > 0 && v >= target)
    ||| (y_inf - y0 < 0 && v <= target)
}

/// The first index at or after `i` hitting the rise-time criterion, or -1.
pub open spec fn find_t63(s: Seq<StepSample>, i: int, target: int, y0: int, y_inf: int) -> int
    decreases s.len() - i,
{
    if i < 0 || i >= s.len() {
        -1
    } else if t63_hit(s[i].vel as int, target, y0, y_inf) {
        i
    } else {
        find_t63(s, i + 1, target, y0, y_inf)
    }
}

/// Sum of the first `i` entries.
pub open spec fn sum_prefix(v: Seq<i64>, i: int) -> int
    decreases i,
{
    if i <= 0 {
        0
    } else {
        sum_prefix(v, i - 1) + v[i - 1]
    }
}

/// Ordinary-least-squares numerator over the first `i` points:
/// sum of (t - tbar)(l - lbar).
pub open spec fn ols_num(ts: Seq<i64>, ls: Seq<i64>, tbar: int, lbar: int, i: int) -> int
    decreases i,
{
    if i <= 0 {
        0
    } else {
        ols_num(ts, ls, tbar, lbar, i - 1) + (ts[i - 1] - tbar) * (ls[i - 1] - lbar)
    }
}

/// Ordinary-least-squares denominator over the first `i` points:
/// sum of (t - tbar)^2.
pub open spec fn ols_den(ts: Seq<i64>, tbar: int, i: int) -> int
    decreases i,
{
    if i <= 0 {
        0
    } else {
        ols_den(ts, tbar, i - 1) + (ts[i - 1] - tbar) * (ts[i - 1] - tbar)
    }
}

/// Total sum of squares of the log values about their mean.
pub open spec fn ols_ss_tot(ls: Seq<i64>, lbar: int, i: int) -> int
    decreases i,
{
    if i <= 0 {
        0
    } else {
        ols_ss_tot(ls, lbar, i - 1) + (ls[i - 1] - lbar) * (ls[i - 1] - lbar)
    }
}

/// Residual sum of squares against the fitted line, each residual taken at
/// the integer projection `num*(t-tbar)/den` and saturated to +/-1e9.
pub open spec fn ols_ss_res(
    ts: Seq<i64>,
    ls: Seq<i64>,
    tbar: int,
    lbar: int,
    num: int,
    den: int,
    i: int,
) -> int
    decreases i,
{
    if i <= 0 {
        0
    } else {
        let resid = clip(
            (ls[i - 1] - lbar) - tdiv(num * (ts[i - 1] - tbar), den),
            -1_000_000_000,
            1_000_000_000,
        );
        ols_ss_res(ts, ls, tbar, lbar, num, den, i - 1) + resid * resid
    }
}

/// The fitted time constant in microseconds: -1/slope with
/// slope = num/den (log-units per second), saturated to the i64 range.
pub open spec fn spec_tau_from_slope(num: int, den: int) -> int {
    clip(tdiv(-den * 1_000_000, num), i64::MIN as int, i64::MAX as int)
}

/// The fit quality in parts per million: 1e6 * (1 - ss_res/ss_tot),
/// 1e6 when the log values have no variance, saturated below.
pub open spec fn spec_r2_ppm(ss_res: int, ss_tot: int) -> int {
    if ss_tot == 0 {
        1_000_000
    } else {
        clip(1_000_000 - tdiv(ss_res * 1_000_000, ss_tot), -1_000_000_000_000, 1_000_000)
    }
}

/// The step estimator's result: plant gain (micro-scale), time constant in
/// microseconds, baseline and steady state (milli), the step time, and the
/// regression quality when a regression was run.
pub struct StepEstimate {
    pub k_micro: i64,
    pub tau_us: i64,
    pub y0: i64,
    pub y_inf: i64,
    pub step_time_ms: i64,
    pub r2_ppm: Option<i64>,
}

/// Finish the step fit from the deviation list that `step_fit_prepare`
/// produced and the caller-computed natural logarithms of the absolute
/// deviations (micro-scaled, one per deviation).
///
/// With fewer than 3 usable deviations the 63.2%-rise heuristic supplies
/// the time constant (no fit quality); otherwise the log-deviations are
/// regressed on time (means truncated at microsecond / micro-log
/// resolution) and tau = -1/slope with an R^2 quality in ppm.
pub fn step_fit_finish(
    samples: &Vec<StepSample>,
    prep: &StepDeviations,
    ln_micro: &Vec<i64>,
) -> (r: Result<StepEstimate, String>)
    requires
        samples@.len() <= 100_000,
        samples_bounded(samples@),
        prep.wf(),
        prep.step_idx as int <= samples@.len(),
        forall|i: int|
            0 <= i < ln_micro@.len() ==> -100_000_000 <= #[trigger] ln_micro@[i] <= 100_000_000,
    ensures
        prep.dev_t_us@.len() < 3 ==> {
            let target = spec_t63_target(prep.y0 as int, prep.y_inf as int);
            let hit = find_t63(
                samples@,
                prep.step_idx as int,
                target,
                prep.y0 as int,
                prep.y_inf as int,
            );
            &&& (r is Ok <==> hit >= 0)
            &&& r is Ok ==> r->Ok_0 == (StepEstimate {
                k_micro: prep.k_micro,
                tau_us: ((samples@[hit].t_ms - prep.t0_ms) * 1000) as i64,
                y0: prep.y0,
                y_inf: prep.y_inf,
                step_time_ms: prep.t0_ms,
                r2_ppm: None,
            })
        },
        prep.dev_t_us@.len() >= 3 && ln_micro@.len() != prep.dev_t_us@.len() ==> r is Err,
        prep.dev_t_us@.len() >= 3 && ln_micro@.len() == prep.dev_t_us@.len() ==> {
            let ts = prep.dev_t_us@;
            let ls = ln_micro@;
            let len = ts.len() as int;
            let tbar = tdiv(sum_prefix(ts, len), len);
            let lbar = tdiv(sum_prefix(ls, len), len);
            let num = ols_num(ts, ls, tbar, lbar, len);
            let den = ols_den(ts, tbar, len);
            &&& (r is Ok <==> den != 0 && num != 0)
            &&& r is Ok ==> r->Ok_0 == (StepEstimate {
                k_micro: prep.k_micro,
                tau_us: spec_tau_from_slope(num, den) as i64,
                y0: prep.y0,
                y_inf: prep.y_inf,
                step_time_ms: prep.t0_ms,
                r2_ppm: Some(
                    spec_r2_ppm(
                        ols_ss_res(ts, ls, tbar, lbar, num, den, len),
                        ols_ss_tot(ls, lbar, len),
                    ) as i64,
                ),
            })
        },
{
    let dev_count: usize = prep.dev_t_us.len();
    if dev_count < 3 {
        proof {
            lemma_tdiv_quotient_bound(
                632 * (prep.y_inf as int - prep.y0 as int),
                1000,
                1_264_000_000_000,
            );
        }
        let target: i64 = prep.y0 + 632 * (prep.y_inf - prep.y0) / 1000;
        let mut idx: usize = prep.step_idx;
        let n: usize = samples.len();
        let ghost tgt: int = spec_t63_target(prep.y0 as int, prep.y_inf as int);
        while idx < n
            invariant
                samples@.len() == n,
                samples_bounded(samples@),
                prep.wf(),
                prep.step_idx <= idx <= n,
                prep.dev_t_us@.len() < 3,
                tgt == spec_t63_target(prep.y0 as int, prep.y_inf as int),
                target as int == tgt,
                -2_300_000_000_000 <= target <= 2_300_000_000_000,
                find_t63(samples@, prep.step_idx as int, tgt, prep.y0 as int, prep.y_inf as int)
                    == find_t63(samples@, idx as int, tgt, prep.y0 as int, prep.y_inf as int),
            decreases n - idx,
        {
            let v: i64 = samples[idx].vel;
            let dvt: i64 = if v - target >= 0 {
                v - target
            } else {
                target - v
            };
            if dvt <= 1 || (prep.y_inf - prep.y0 > 0 && v >= target) || (prep.y_inf - prep.y0 < 0
                && v <= target) {
                proof {
                    assert(prep.dev_t_us@.len() < 3);
                    assert(t63_hit(
                        samples@[idx as int].vel as int,
                        tgt,
                        prep.y0 as int,
                        prep.y_inf as int,
                    ));
                    assert(find_t63(samples@, idx as int, tgt, prep.y0 as int, prep.y_inf as int)
                        == idx as int);
                }
                let tau_us: i64 = (samples[idx].t_ms - prep.t0_ms) * 1000;
                return Ok(
                    StepEstimate {
                        k_micro: prep.k_micro,
                        tau_us,
                        y0: prep.y0,
                        y_inf: prep.y_inf,
                        step_time_ms: prep.t0_ms,
                        r2_ppm: None,
                    },
                );
            }
            idx = idx + 1;
        }
        return Err("Insufficient data to estimate tau".to_owned());
    }
    if ln_micro.len() != dev_count {
        return Err("Mismatched deviation and logarithm sample counts".to_owned());
    }
    let len: usize = dev_count;
    let mut st: i128 = 0;
    let mut sl: i128 = 0;
    let mut i: usize = 0;
    while i < len
        invariant
            prep.wf(),
            ln_micro@.len() == len,
            prep.dev_t_us@.len() == len,
            3 <= len <= 100_000,
            i <= len,
            forall|q: int|
                0 <= q < ln_micro@.len() ==> -100_000_000 <= #[trigger] ln_micro@[q]
                    <= 100_000_000,
            st == sum_prefix(prep.dev_t_us@, i as int),
            sl == sum_prefix(ln_micro@, i as int),
            -2_000_000_000 * (i as int) <= st <= 2_000_000_000 * (i as int),
            -100_000_000 * (i as int) <= sl <= 100_000_000 * (i as int),
        decreases len - i,
    {
        st = st + (prep.dev_t_us[i] as i128);
        sl = sl + (ln_micro[i] as i128);
        i = i + 1;
    }
    let tbar: i128 = st / (len as i128);
    let lbar: i128 = sl / (len as i128);
    proof {
        lemma_tdiv_quotient_bound(st as int, len as int, 2_000_000_000);
        lemma_tdiv_quotient_bound(sl as int, len as int, 100_000_000);
    }
    let mut num: i128 = 0;
    let mut den: i128 = 0;
    let mut ss_tot: i128 = 0;
    let mut k: usize = 0;
    while k < len
        invariant
            prep.wf(),
            ln_micro@.len() == len,
            prep.dev_t_us@.len() == len,
            3 <= len <= 100_000,
            k <= len,
            forall|q: int|
                0 <= q < ln_micro@.len() ==> -100_000_000 <= #[trigger] ln_micro@[q]
                    <= 100_000_000,
            -2_000_000_000 <= tbar <= 2_000_000_000,
            -100_000_000 <= lbar <= 100_000_000,
            num == ols_num(prep.dev_t_us@, ln_micro@, tbar as int, lbar as int, k as int),
            den == ols_den(prep.dev_t_us@, tbar as int, k as int),
            ss_tot == ols_ss_tot(ln_micro@, lbar as int, k as int),
            -840_000_000_000_000_000 * (k as int) <= num <= 840_000_000_000_000_000 * (k as int),
            0 <= den <= 17_640_000_000_000_000_000 * (k as int),
            0 <= ss_tot <= 40_000_000_000_000_000 * (k as int),
        decreases len - k,
    {
        let dt: i128 = (prep.dev_t_us[k] as i128) - tbar;
        let dl: i128 = (ln_micro[k] as i128) - lbar;
        proof {
            lemma_mul_bound(dt as int, dl as int, 4_200_000_000, 200_000_000);
            lemma_mul_bound(dt as int, dt as int, 4_200_000_000, 4_200_000_000);
            lemma_mul_bound(dl as int, dl as int, 200_000_000, 200_000_000);
            crate::num::lemma_square_nonneg(dt as int);
            crate::num::lemma_square_nonneg(dl as int);
        }
        num = num + dt * dl;
        den = den + dt * dt;
        ss_tot = ss_tot + dl * dl;
        k = k + 1;
    }
    if den == 0 {
        return Err("Regression failed (denominator zero)".to_owned());
    }
    if num == 0 {
        return Err("Regression failed (slope is zero)".to_owned());
    }
    let num_abs: i128 = if num >= 0 {
        num
    } else {
        -num
    };
    let nn: i128 = den * 1_000_000;
    proof {
        lemma_mul_bound(den as int, 1_000_000, 1_800_000_000_000_000_000_000_000, 1_000_000);
        lemma_tdiv_bound(-(nn as int), num_abs as int, 1_800_000_000_000_000_000_000_000_000_000);
        crate::num::lemma_tdiv_neg(-(nn as int), num_abs as int);
    }
    let q_abs: i128 = nn / num_abs;
    let tau_wide: i128 = if num >= 0 {
        -q_abs
    } else {
        q_abs
    };
    let tau_us: i64 = if tau_wide < i64::MIN as i128 {
        i64::MIN
    } else if tau_wide > i64::MAX as i128 {
        i64::MAX
    } else {
        tau_wide as i64
    };
    let mut ss_res: i128 = 0;
    let mut w: usize = 0;
    while w < len
        invariant
            prep.wf(),
            ln_micro@.len() == len,
            prep.dev_t_us@.len() == len,
            3 <= len <= 100_000,
            w <= len,
            forall|q: int|
                0 <= q < ln_micro@.len() ==> -100_000_000 <= #[trigger] ln_micro@[q]
                    <= 100_000_000,
            -2_000_000_000 <= tbar <= 2_000_000_000,
            -100_000_000 <= lbar <= 100_000_000,
            den >= 1,
            -84_000_000_000_000_000_000_000_000 <= num <= 84_000_000_000_000_000_000_000_000,
            ss_res == ols_ss_res(
                prep.dev_t_us@,
                ln_micro@,
                tbar as int,
                lbar as int,
                num as int,
                den as int,
                w as int,
            ),
            0 <= ss_res <= 1_000_000_000_000_000_000 * (w as int),
        decreases len - w,
    {
        let dt: i128 = (prep.dev_t_us[w] as i128) - tbar;
        let dl: i128 = (ln_micro[w] as i128) - lbar;
        proof {
            lemma_mul_bound(num as int, dt as int, 84_000_000_000_000_000_000_000_000, 4_200_000_000);
            lemma_tdiv_bound(
                num as int * dt as int,
                den as int,
                352_800_000_000_000_000_000_000_000_000_000_000,
            );
        }
        let proj: i128 = num * dt / den;
        let resid_raw: i128 = dl - proj;
        let resid: i128 = if resid_raw < -1_000_000_000 {
            -1_000_000_000
        } else if resid_raw > 1_000_000_000 {
            1_000_000_000
        } else {
            resid_raw
        };
        proof {
            lemma_mul_bound(resid as int, resid as int, 1_000_000_000, 1_000_000_000);
            crate::num::lemma_square_nonneg(resid as int);
        }
        ss_res = ss_res + resid * resid;
        w = w + 1;
    }
    let r2: i64 = if ss_tot == 0 {
        1_000_000
    } else {
        proof {
            lemma_mul_bound(ss_res as int, 1_000_000, 100_000_000_000_000_000_000_000, 1_000_000);
            lemma_tdiv_bound(
                ss_res as int * 1_000_000,
                ss_tot as int,
                100_000_000_000_000_000_000_000_000_000,
            );
        }
        let frac: i128 = ss_res * 1_000_000 / ss_tot;
        let raw: i128 = 1_000_000 - frac;
        if raw < -1_000_000_000_000 {
            -1_000_000_000_000
        } else if raw > 1_000_000 {
            1_000_000
        } else {
            raw as i64
        }
    };
    Ok(
        StepEstimate {
            k_micro: prep.k_micro,
            tau_us,
            y0: prep.y0,
            y_inf: prep.y_inf,
            step_time_ms: prep.t0_ms,
            r2_ppm: Some(r2),
        },
    )
}

/// The dimensionless product omega*tau at micro scale, from omega in
/// milli rad/s and tau in microseconds.
pub open spec fn frf_x_micro(omega_milli: int, tau_us: int) -> int {
    tdiv(omega_milli * tau_us, 1000)
}

/// Real part of the single-pole basis 1/(1+j*omega*tau), micro-scaled.
pub open spec fn frf_b_re(x: int) -> int {
    tdiv(1_000_000_000_000_000_000, 1_000_000_000_000 + x * x)
}

/// Imaginary part of the single-pole basis, micro-scaled.
pub open spec fn frf_b_im(x: int) -> int {
    tdiv(-x * 1_000_000_000_000, 1_000_000_000_000 + x * x)
}

/// The complex least-squares accumulators over the first `i` points:
/// (sum |B|^2, sum Re(H conj(B)), sum Im(H conj(B))), all micro^2-scaled.
pub open spec fn frf_sums(
    omega: Seq<i64>,
    hre: Seq<i64>,
    him: Seq<i64>,
    tau: int,
    i: int,
) -> (int, int, int)
    decreases i,
{
    if i <= 0 {
        (0, 0, 0)
    } else {
        let p = frf_sums(omega, hre, him, tau, i - 1);
        let x = frf_x_micro(omega[i - 1] as int, tau);
        let br = frf_b_re(x);
        let bi = frf_b_im(x);
        (
            p.0 + br * br + bi * bi,
            p.1 + hre[i - 1] * br + him[i - 1] * bi,
            p.2 + him[i - 1] * br - hre[i - 1] * bi,
        )
    }
}

/// Whether the basis is non-degenerate at `tau`; the fitter skips a tau
/// whose summed basis vanishes.
pub open spec fn frf_valid(omega: Seq<i64>, hre: Seq<i64>, him: Seq<i64>, tau: int) -> bool {
    frf_sums(omega, hre, him, tau, omega.len() as int).0 != 0
}

/// The closed-form complex least-squares gain at `tau`, micro-scaled and
/// saturated to +/-10^12.
pub open spec fn frf_k_of(omega: Seq<i64>, hre: Seq<i64>, him: Seq<i64>, tau: int) -> (int, int) {
    let s = frf_sums(omega, hre, him, tau, omega.len() as int);
    (
        clip(tdiv(s.1 * 1_000_000, s.0), -1_000_000_000_000, 1_000_000_000_000),
        clip(tdiv(s.2 * 1_000_000, s.0), -1_000_000_000_000, 1_000_000_000_000),
    )
}

/// Real part of the fitted model K*B at one frequency, micro-scaled.
pub open spec fn frf_model_re(omega_i: int, tau: int, kre: int, kim: int) -> int {
    let x = frf_x_micro(omega_i, tau);
    tdiv(kre * frf_b_re(x) - kim * frf_b_im(x), 1_000_000)
}

/// Imaginary part of the fitted model K*B at one frequency, micro-scaled.
pub open spec fn frf_model_im(omega_i: int, tau: int, kre: int, kim: int) -> int {
    let x = frf_x_micro(omega_i, tau);
    tdiv(kre * frf_b_im(x) + kim * frf_b_re(x), 1_000_000)
}

/// Squared-error accumulator of the model against the measurements over
/// the first `i` points.
pub open spec fn frf_err_sum(
    omega: Seq<i64>,
    hre: Seq<i64>,
    him: Seq<i64>,
    tau: int,
    kre: int,
    kim: int,
    i: int,
) -> int
    decreases i,
{
    if i <= 0 {
        0
    } else {
        let dre = frf_model_re(omega[i - 1] as int, tau, kre, kim) - hre[i - 1];
        let dim = frf_model_im(omega[i - 1] as int, tau, kre, kim) - him[i - 1];
        frf_err_sum(omega, hre, him, tau, kre, kim, i - 1) + dre * dre + dim * dim
    }
}

/// The mean squared error of the least-squares fit at `tau`.
pub open spec fn frf_err_of(omega: Seq<i64>, hre: Seq<i64>, him: Seq<i64>, tau: int) -> int {
    let k = frf_k_of(omega, hre, him, tau);
    tdiv(frf_err_sum(omega, hre, him, tau, k.0, k.1, omega.len() as int), omega.len() as int)
}

/// Machine bounds on the fitter's inputs.
pub open spec fn frf_inputs_bounded(
    omega: Seq<i64>,
    hre: Seq<i64>,
    him: Seq<i64>,
    grid: Seq<i64>,
) -> bool {
    &&& omega.len() <= 100_000
    &&& grid.len() <= 100_000
    &&& forall|i: int| 0 <= i < omega.len() ==> -1_000_000_000 <= #[trigger] omega[i] <= 1_000_000_000
    &&& forall|i: int| 0 <= i < hre.len() ==> -1_000_000_000_000 <= #[trigger] hre[i] <= 1_000_000_000_000
    &&& forall|i: int| 0 <= i < him.len() ==> -1_000_000_000_000 <= #[trigger] him[i] <= 1_000_000_000_000
    &&& forall|i: int| 0 <= i < grid.len() ==> 1 <= #[trigger] grid[i] <= 1_000_000_000
}

fn frf_basis(omega_i: i64, tau: i64) -> (r: (i64, i64))
    requires
        -1_000_000_000 <= omega_i <= 1_000_000_000,
        1 <= tau <= 1_000_000_000,
    ensures
        r.0 as int == frf_b_re(frf_x_micro(omega_i as int, tau as int)),
        r.1 as int == frf_b_im(frf_x_micro(omega_i as int, tau as int)),
        0 <= r.0 <= 1_000_000,
        -500_000 <= r.1 <= 500_000,
{
    proof {
        lemma_mul_bound(omega_i as int, tau as int, 1_000_000_000, 1_000_000_000);
        lemma_tdiv_quotient_bound(
            omega_i as int * tau as int,
            1000,
            1_000_000_000_000_000,
        );
    }
    let xw: i128 = (omega_i as i128) * (tau as i128);
    let x: i128 = xw / 1000;
    proof {
        lemma_mul_bound(x as int, x as int, 1_000_000_000_000_000, 1_000_000_000_000_000);
        crate::num::lemma_square_nonneg(x as int);
    }
    let x2: i128 = x * x;
    let bden: i128 = 1_000_000_000_000 + x2;
    proof {
        crate::num::lemma_mul_mono(1_000_000, bden as int, 1_000_000_000_000);
        lemma_tdiv_quotient_bound(1_000_000_000_000_000_000, bden as int, 1_000_000);
    }
    let br: i64 = (1_000_000_000_000_000_000i128 / bden) as i64;
    let xa: i128 = if x >= 0 {
        x
    } else {
        -x
    };
    proof {
        assert(xa as int * xa as int == x as int * x as int) by (nonlinear_arith)
            requires
                xa as int == x as int || xa as int == -(x as int),
        ;
        crate::num::lemma_amgm_million(xa as int);
        lemma_mul_bound(xa as int, 1_000_000_000_000, 1_000_000_000_000_000, 1_000_000_000_000);
        crate::num::lemma_mul_mono(500_000, bden as int, 1_000_000_000_000 + xa as int * xa as int);
        lemma_tdiv_quotient_bound(xa as int * 1_000_000_000_000, bden as int, 500_000);
    }
    let bim_mag: i128 = xa * 1_000_000_000_000 / bden;
    let bi_v: i64 = if x >= 0 {
        -(bim_mag as i64)
    } else {
        bim_mag as i64
    };
    proof {
        if x < 0 {
            crate::num::lemma_tdiv_neg((x as int) * 1_000_000_000_000, bden as int);
            assert(-(x as int) * 1_000_000_000_000 == xa as int * 1_000_000_000_000)
                by (nonlinear_arith)
                requires
                    xa as int == -(x as int),
            ;
        }
    }
    (br, bi_v)
}

fn frf_eval_tau(
    omega: &Vec<i64>,
    hre: &Vec<i64>,
    him: &Vec<i64>,
    tau: i64,
) -> (r: (bool, i64, i64, i128))
    requires
        omega@.len() == hre@.len() == him@.len(),
        1 <= omega@.len() <= 100_000,
        frf_inputs_bounded(omega@, hre@, him@, Seq::empty()),
        1 <= tau <= 1_000_000_000,
    ensures
        r.0 == frf_valid(omega@, hre@, him@, tau as int),
        r.0 ==> (r.1 as int, r.2 as int) == frf_k_of(omega@, hre@, him@, tau as int) && r.3 as int
            == frf_err_of(omega@, hre@, him@, tau as int),
        r.0 ==> -1_000_000_000_000 <= r.1 <= 1_000_000_000_000 && -1_000_000_000_000 <= r.2
            <= 1_000_000_000_000 && 0 <= r.3 <= 1_300_000_000_000_000_000_000_000_000_000,
{
    let n: usize = omega.len();
    let mut denom: i128 = 0;
    let mut nre: i128 = 0;
    let mut nim: i128 = 0;
    let mut i: usize = 0;
    while i < n
        invariant
            omega@.len() == n && hre@.len() == n && him@.len() == n,
            1 <= n <= 100_000,
            frf_inputs_bounded(omega@, hre@, him@, Seq::empty()),
            1 <= tau <= 1_000_000_000,
            i <= n,
            (denom as int, nre as int, nim as int) == frf_sums(
                omega@,
                hre@,
                him@,
                tau as int,
                i as int,
            ),
            0 <= denom <= 1_250_000_000_000 * (i as int),
            -1_500_000_000_000_000_000 * (i as int) <= nre <= 1_500_000_000_000_000_000 * (
            i as int),
            -1_500_000_000_000_000_000 * (i as int) <= nim <= 1_500_000_000_000_000_000 * (
            i as int),
        decreases n - i,
    {
        let b: (i64, i64) = frf_basis(omega[i], tau);
        proof {
            lemma_mul_bound(b.0 as int, b.0 as int, 1_000_000, 1_000_000);
            lemma_mul_bound(b.1 as int, b.1 as int, 500_000, 500_000);
            crate::num::lemma_square_nonneg(b.0 as int);
            crate::num::lemma_square_nonneg(b.1 as int);
            lemma_mul_bound(hre@[i as int] as int, b.0 as int, 1_000_000_000_000, 1_000_000);
            lemma_mul_bound(him@[i as int] as int, b.1 as int, 1_000_000_000_000, 500_000);
            lemma_mul_bound(him@[i as int] as int, b.0 as int, 1_000_000_000_000, 1_000_000);
            lemma_mul_bound(hre@[i as int] as int, b.1 as int, 1_000_000_000_000, 500_000);
        }
        denom = denom + (b.0 as i128) * (b.0 as i128) + (b.1 as i128) * (b.1 as i128);
        nre = nre + (hre[i] as i128) * (b.0 as i128) + (him[i] as i128) * (b.1 as i128);
        nim = nim + (him[i] as i128) * (b.0 as i128) - (hre[i] as i128) * (b.1 as i128);
        i = i + 1;
    }
    if denom == 0 {
        return (false, 0, 0, 0);
    }
    proof {
        lemma_mul_bound(nre as int, 1_000_000, 150_000_000_000_000_000_000_000, 1_000_000);
        lemma_mul_bound(nim as int, 1_000_000, 150_000_000_000_000_000_000_000, 1_000_000);
        lemma_tdiv_bound(nre as int * 1_000_000, denom as int, 150_000_000_000_000_000_000_000_000_000);
        lemma_tdiv_bound(nim as int * 1_000_000, denom as int, 150_000_000_000_000_000_000_000_000_000);
    }
    let kre_raw: i128 = nre * 1_000_000 / denom;
    let kim_raw: i128 = nim * 1_000_000 / denom;
    let kre: i64 = clamp_i128_to(kre_raw, 1_000_000_000_000);
    let kim: i64 = clamp_i128_to(kim_raw, 1_000_000_000_000);
    let mut err_sum: i128 = 0;
    let mut w: usize = 0;
    while w < n
        invariant
            omega@.len() == n && hre@.len() == n && him@.len() == n,
            1 <= n <= 100_000,
            frf_inputs_bounded(omega@, hre@, him@, Seq::empty()),
            1 <= tau <= 1_000_000_000,
            w <= n,
            -1_000_000_000_000 <= kre <= 1_000_000_000_000,
            -1_000_000_000_000 <= kim <= 1_000_000_000_000,
            err_sum == frf_err_sum(omega@, hre@, him@, tau as int, kre as int, kim as int, w as int),
            0 <= err_sum <= 13_000_000_000_000_000_000_000_000 * (w as int),
        decreases n - w,
    {
        let b: (i64, i64) = frf_basis(omega[w], tau);
        proof {
            lemma_mul_bound(kre as int, b.0 as int, 1_000_000_000_000, 1_000_000);
            lemma_mul_bound(kim as int, b.1 as int, 1_000_000_000_000, 500_000);
            lemma_mul_bound(kre as int, b.1 as int, 1_000_000_000_000, 500_000);
            lemma_mul_bound(kim as int, b.0 as int, 1_000_000_000_000, 1_000_000);
            lemma_tdiv_quotient_bound(
                kre as int * b.0 as int - kim as int * b.1 as int,
                1_000_000,
                1_500_000_000_000,
            );
            lemma_tdiv_quotient_bound(
                kre as int * b.1 as int + kim as int * b.0 as int,
                1_000_000,
                1_500_000_000_000,
            );
        }
        let mre: i128 = ((kre as i128) * (b.0 as i128) - (kim as i128) * (b.1 as i128))
            / 1_000_000;
        let mim: i128 = ((kre as i128) * (b.1 as i128) + (kim as i128) * (b.0 as i128))
            / 1_000_000;
        let dre: i128 = mre - (hre[w] as i128);
        let dim: i128 = mim - (him[w] as i128);
        proof {
            lemma_mul_bound(dre as int, dre as int, 2_500_000_000_000, 2_500_000_000_000);
            lemma_mul_bound(dim as int, dim as int, 2_500_000_000_000, 2_500_000_000_000);
            crate::num::lemma_square_nonneg(dre as int);
            crate::num::lemma_square_nonneg(dim as int);
        }
        err_sum = err_sum + dre * dre + dim * dim;
        w = w + 1;
    }
    let err: i128 = err_sum / (n as i128);
    proof {
        lemma_tdiv_bound(err_sum as int, n as int, 1_300_000_000_000_000_000_000_000_000_000);
    }
    (true, kre, kim, err)
}

fn clamp_i128_to(x: i128, lim: i64) -> (r: i64)
    requires
        lim >= 0,
    ensures
        r as int == clip(x as int, -(lim as int), lim as int),
{
    if x < -(lim as i128) {
        -lim
    } else if x > lim as i128 {
        lim
    } else {
        x as i64
    }
}

/// `r` is the integer square root of `x`.
pub open spec fn is_isqrt(x: int, r: int) -> bool {
    &&& r >= 0
    &&& r * r <= x
    &&& x < (r + 1) * (r + 1)
}

/// Integer square root by bisection.
pub fn isqrt_u128(x: u128) -> (r: u64)
    requires
        x < 0x4000_0000_0000_0000_0000_0000_0000_0000,
    ensures
        is_isqrt(x as int, r as int),
{
    let mut lo: u64 = 0;
    let mut hi: u64 = 0x8000_0000_0000_0000;
    proof {
        assert((0x8000_0000_0000_0000 as int) * (0x8000_0000_0000_0000 as int)
            == 0x4000_0000_0000_0000_0000_0000_0000_0000);
    }
    while hi - lo > 1
        invariant
            lo < hi <= 0x8000_0000_0000_0000,
            (lo as int) * (lo as int) <= x as int,
            (x as int) < (hi as int) * (hi as int),
        decreases hi - lo,
    {
        let mid: u64 = lo + (hi - lo) / 2;
        proof {
            lemma_mul_bound(mid as int, mid as int, 0x8000_0000_0000_0000, 0x8000_0000_0000_0000);
        }
        let m2: u128 = (mid as u128) * (mid as u128);
        if m2 <= x {
            lo = mid;
        } else {
            hi = mid;
        }
    }
    lo
}

/// The frequency-response fit result: complex gain and its magnitude
/// (micro-scaled), time constant, residual mean square and its root, and
/// the fitted curve at the input frequencies. `converged` is false only
/// when every grid point had a degenerate basis.
pub struct FrfFit {
    pub converged: bool,
    pub k_re_micro: i64,
    pub k_im_micro: i64,
    pub k_mag_micro: i64,
    pub tau_us: i64,
    pub residual_micro2: i128,
    pub residual_rms_micro: i64,
    pub fitted_re_micro: Vec<i64>,
    pub fitted_im_micro: Vec<i64>,
    pub fitted_mag_micro: Vec<i64>,
}

/// The fitter chose grid entry `bi`, which is non-degenerate, carries the
/// least mean-square error of all non-degenerate entries, and is the first
/// entry attaining it.
pub open spec fn frf_best_at(
    omega: Seq<i64>,
    hre: Seq<i64>,
    him: Seq<i64>,
    grid: Seq<i64>,
    bi: int,
    f: FrfFit,
) -> bool {
    &&& 0 <= bi < grid.len()
    &&& frf_valid(omega, hre, him, grid[bi] as int)
    &&& f.tau_us == grid[bi]
    &&& (f.k_re_micro as int, f.k_im_micro as int) == frf_k_of(omega, hre, him, grid[bi] as int)
    &&& f.residual_micro2 as int == frf_err_of(omega, hre, him, grid[bi] as int)
    &&& forall|j: int|
        0 <= j < grid.len() && frf_valid(omega, hre, him, #[trigger] grid[j] as int) ==> frf_err_of(
            omega,
            hre,
            him,
            grid[j] as int,
        ) >= f.residual_micro2 as int
    &&& forall|j: int|
        0 <= j < bi && frf_valid(omega, hre, him, #[trigger] grid[j] as int) ==> frf_err_of(
            omega,
            hre,
            him,
            grid[j] as int,
        ) > f.residual_micro2 as int
}

/// Fit a single complex pole K/(1+j*omega*tau) to measured frequency
/// response points over a caller-supplied tau grid: at each grid point the
/// closed-form complex least-squares gain is computed and the tau with the
/// least mean-square residual wins (the first, on ties). Also returns the
/// fitted curve at the input frequencies, with integer square-root
/// magnitudes.
pub fn fit_frf_sync(
    omega_milli: &Vec<i64>,
    h_re_micro: &Vec<i64>,
    h_im_micro: &Vec<i64>,
    tau_grid_us: &Vec<i64>,
) -> (r: Result<FrfFit, String>)
    requires
        frf_inputs_bounded(omega_milli@, h_re_micro@, h_im_micro@, tau_grid_us@),
    ensures
        r is Ok <==> omega_milli@.len() > 0 && h_re_micro@.len() == omega_milli@.len()
            && h_im_micro@.len() == omega_milli@.len() && tau_grid_us@.len() > 0,
        r is Ok ==> {
            let f = r->Ok_0;
            let o = omega_milli@;
            let hr = h_re_micro@;
            let hi = h_im_micro@;
            let g = tau_grid_us@;
            &&& (f.converged ==> exists|bi: int| #[trigger] frf_best_at(o, hr, hi, g, bi, f))
            &&& (!f.converged ==> (forall|j: int|
                0 <= j < g.len() ==> !frf_valid(o, hr, hi, #[trigger] g[j] as int)) && f.tau_us
                == g[0] && f.k_re_micro == 0 && f.k_im_micro == 0)
            &&& is_isqrt(
                (f.k_re_micro as int) * (f.k_re_micro as int) + (f.k_im_micro as int) * (
                f.k_im_micro as int),
                f.k_mag_micro as int,
            )
            &&& f.converged ==> is_isqrt(f.residual_micro2 as int, f.residual_rms_micro as int)
            &&& f.fitted_re_micro@.len() == o.len()
            &&& f.fitted_im_micro@.len() == o.len()
            &&& f.fitted_mag_micro@.len() == o.len()
            &&& forall|i: int|
                0 <= i < o.len() ==> #[trigger] f.fitted_re_micro@[i] as int == frf_model_re(
                    o[i] as int,
                    f.tau_us as int,
                    f.k_re_micro as int,
                    f.k_im_micro as int,
                )
            &&& forall|i: int|
                0 <= i < o.len() ==> #[trigger] f.fitted_im_micro@[i] as int == frf_model_im(
                    o[i] as int,
                    f.tau_us as int,
                    f.k_re_micro as int,
                    f.k_im_micro as int,
                )
            &&& forall|i: int|
                0 <= i < o.len() ==> is_isqrt(
                    (f.fitted_re_micro@[i] as int) * (f.fitted_re_micro@[i] as int) + (
                    f.fitted_im_micro@[i] as int) * (f.fitted_im_micro@[i] as int),
                    #[trigger] f.fitted_mag_micro@[i] as int,
                )
        },
{
    let n: usize = omega_milli.len();
    if n == 0 || h_re_micro.len() != n || h_im_micro.len() != n {
        return Err("Input arrays must be same non-zero length".to_owned());
    }
    if tau_grid_us.len() == 0 {
        return Err("Tau grid must not be empty".to_owned());
    }
    let g: usize = tau_grid_us.len();
    let mut have_best: bool = false;
    let ghost mut best_i: int = 0;
    let mut best_tau: i64 = tau_grid_us[0];
    let mut best_kre: i64 = 0;
    let mut best_kim: i64 = 0;
    let mut best_err: i128 = 0;
    let mut j: usize = 0;
    while j < g
        invariant
            omega_milli@.len() == n && h_re_micro@.len() == n && h_im_micro@.len() == n,
            tau_grid_us@.len() == g,
            1 <= n <= 100_000,
            1 <= g,
            frf_inputs_bounded(omega_milli@, h_re_micro@, h_im_micro@, tau_grid_us@),
            j <= g,
            best_tau == tau_grid_us@[if have_best {
                best_i
            } else {
                0
            }],
            have_best ==> {
                &&& 0 <= best_i < j
                &&& frf_valid(omega_milli@, h_re_micro@, h_im_micro@, tau_grid_us@[best_i] as int)
                &&& (best_kre as int, best_kim as int) == frf_k_of(
                    omega_milli@,
                    h_re_micro@,
                    h_im_micro@,
                    tau_grid_us@[best_i] as int,
                )
                &&& best_err as int == frf_err_of(
                    omega_milli@,
                    h_re_micro@,
                    h_im_micro@,
                    tau_grid_us@[best_i] as int,
                )
                &&& -1_000_000_000_000 <= best_kre <= 1_000_000_000_000
                &&& -1_000_000_000_000 <= best_kim <= 1_000_000_000_000
                &&& 0 <= best_err <= 1_300_000_000_000_000_000_000_000_000_000
                &&& forall|t: int|
                    0 <= t < j && frf_valid(
                        omega_milli@,
                        h_re_micro@,
                        h_im_micro@,
                        #[trigger] tau_grid_us@[t] as int,
                    ) ==> frf_err_of(omega_milli@, h_re_micro@, h_im_micro@, tau_grid_us@[t] as int)
                        >= best_err as int
                &&& forall|t: int|
                    0 <= t < best_i && frf_valid(
                        omega_milli@,
                        h_re_micro@,
                        h_im_micro@,
                        #[trigger] tau_grid_us@[t] as int,
                    ) ==> frf_err_of(omega_milli@, h_re_micro@, h_im_micro@, tau_grid_us@[t] as int)
                        > best_err as int
            },
            !have_best ==> best_kre == 0 && best_kim == 0 && forall|t: int|
                0 <= t < j ==> !frf_valid(
                    omega_milli@,
                    h_re_micro@,
                    h_im_micro@,
                    #[trigger] tau_grid_us@[t] as int,
                ),
        decreases g - j,
    {
        let tau: i64 = tau_grid_us[j];
        let ev: (bool, i64, i64, i128) = frf_eval_tau(omega_milli, h_re_micro, h_im_micro, tau);
        if ev.0 && (!have_best || ev.3 < best_err) {
            have_best = true;
            proof {
                best_i = j as int;
            }
            best_tau = tau;
            best_kre = ev.1;
            best_kim = ev.2;
            best_err = ev.3;
        }
        j = j + 1;
    }
    let mut fitted_re: Vec<i64> = Vec::new();
    let mut fitted_im: Vec<i64> = Vec::new();
    let mut fitted_mag: Vec<i64> = Vec::new();
    let mut w: usize = 0;
    while w < n
        invariant
            omega_milli@.len() == n && h_re_micro@.len() == n && h_im_micro@.len() == n,
            1 <= n <= 100_000,
            frf_inputs_bounded(omega_milli@, h_re_micro@, h_im_micro@, Seq::empty()),
            1 <= best_tau <= 1_000_000_000,
            -1_000_000_000_000 <= best_kre <= 1_000_000_000_000,
            -1_000_000_000_000 <= best_kim <= 1_000_000_000_000,
            w <= n,
            fitted_re@.len() == w && fitted_im@.len() == w && fitted_mag@.len() == w,
            forall|i: int|
                0 <= i < w ==> #[trigger] fitted_re@[i] as int == frf_model_re(
                    omega_milli@[i] as int,
                    best_tau as int,
                    best_kre as int,
                    best_kim as int,
                ),
            forall|i: int|
                0 <= i < w ==> #[trigger] fitted_im@[i] as int == frf_model_im(
                    omega_milli@[i] as int,
                    best_tau as int,
                    best_kre as int,
                    best_kim as int,
                ),
            forall|i: int|
                0 <= i < w ==> is_isqrt(
                    (fitted_re@[i] as int) * (fitted_re@[i] as int) + (fitted_im@[i] as int) * (
                    fitted_im@[i] as int),
                    #[trigger] fitted_mag@[i] as int,
                ),
        decreases n - w,
    {
        let b: (i64, i64) = frf_basis(omega_milli[w], best_tau);
        proof {
            lemma_mul_bound(best_kre as int, b.0 as int, 1_000_000_000_000, 1_000_000);
            lemma_mul_bound(best_kim as int, b.1 as int, 1_000_000_000_000, 500_000);
            lemma_mul_bound(best_kre as int, b.1 as int, 1_000_000_000_000, 500_000);
            lemma_mul_bound(best_kim as int, b.0 as int, 1_000_000_000_000, 1_000_000);
            lemma_tdiv_quotient_bound(
                best_kre as int * b.0 as int - best_kim as int * b.1 as int,
                1_000_000,
                1_500_000_000_000,
            );
            lemma_tdiv_quotient_bound(
                best_kre as int * b.1 as int + best_kim as int * b.0 as int,
                1_000_000,
                1_500_000_000_000,
            );
        }
        let mre: i128 = ((best_kre as i128) * (b.0 as i128) - (best_kim as i128) * (b.1 as i128))
            / 1_000_000;
        let mim: i128 = ((best_kre as i128) * (b.1 as i128) + (best_kim as i128) * (b.0 as i128))
            / 1_000_000;
        proof {
            lemma_mul_bound(mre as int, mre as int, 1_500_000_000_000, 1_500_000_000_000);
            lemma_mul_bound(mim as int, mim as int, 1_500_000_000_000, 1_500_000_000_000);
            crate::num::lemma_square_nonneg(mre as int);
            crate::num::lemma_square_nonneg(mim as int);
        }
        let s2: u128 = ((mre * mre) as u128) + ((mim * mim) as u128);
        let mag: u64 = isqrt_u128(s2);
        proof {
            assert(s2 as int == mre as int * mre as int + mim as int * mim as int);
            crate::num::lemma_sqrt_bound(mag as int, s2 as int, 3_000_000_000_000);
        }
        fitted_re.push(mre as i64);
        fitted_im.push(mim as i64);
        fitted_mag.push(mag as i64);
        w = w + 1;
    }
    proof {
        lemma_mul_bound(best_kre as int, best_kre as int, 1_000_000_000_000, 1_000_000_000_000);
        lemma_mul_bound(best_kim as int, best_kim as int, 1_000_000_000_000, 1_000_000_000_000);
        crate::num::lemma_square_nonneg(best_kre as int);
        crate::num::lemma_square_nonneg(best_kim as int);
    }
    let ks2: u128 = (((best_kre as i128) * (best_kre as i128)) as u128) + (((best_kim as i128)
        * (best_kim as i128)) as u128);
    let k_mag: u64 = isqrt_u128(ks2);
    proof {
        assert(ks2 as int == best_kre as int * best_kre as int + best_kim as int * best_kim as int);
        crate::num::lemma_sqrt_bound(k_mag as int, ks2 as int, 2_000_000_000_000);
    }
    let rms: u64 = if have_best {
        let rv: u64 = isqrt_u128(best_err as u128);
        proof {
            crate::num::lemma_sqrt_bound(rv as int, best_err as int, 2_000_000_000_000_000);
        }
        rv
    } else {
        0
    };
    let result: FrfFit = FrfFit {
        converged: have_best,
        k_re_micro: best_kre,
        k_im_micro: best_kim,
        k_mag_micro: k_mag as i64,
        tau_us: best_tau,
        residual_micro2: best_err,
        residual_rms_micro: rms as i64,
        fitted_re_micro: fitted_re,
        fitted_im_micro: fitted_im,
        fitted_mag_micro: fitted_mag,
    };
    proof {
        if have_best {
            assert(frf_best_at(
                omega_milli@,
                h_re_micro@,
                h_im_micro@,
                tau_grid_us@,
                best_i,
                result,
            ));
        }
    }
    Ok(result)
}

} // verus!
