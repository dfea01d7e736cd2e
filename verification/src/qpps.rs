//! QPPS measurement: drive a motor at full PWM, sample the encoder at a
//! fixed interval, turn per-interval deltas into pulses-per-second samples
//! and report their median, which an outlier interval cannot shift.

use vstd::prelude::*;
use crate::num::clip;
use crate::sim::{spec_sim_step, sim_step, SimState};

verus! {

/// Result of a QPPS measurement: the median pulses-per-second value, the
/// raw encoder samples, and the sorted per-interval rate samples.
pub struct QppsMeasurement {
    pub qpps: i32,
    pub encoder_samples: Vec<i64>,
    pub qpps_samples: Vec<i32>,
}

/// One encoder delta over a 100 ms interval as pulses per second,
/// saturated into the i32 range.
pub open spec fn spec_qpps_of_delta(d: int) -> int {
    clip(d * 10, i32::MIN as int, i32::MAX as int)
}

/// The pulses-per-second samples derived from consecutive encoder samples
/// (wrapping differences, as the counters themselves wrap).
pub open spec fn spec_qpps_deltas(s: Seq<i64>) -> Seq<i32> {
    Seq::new((s.len() - 1) as nat, |i: int| spec_qpps_of_delta(s[i + 1].wrapping_sub(s[i]) as int) as i32)
}

pub open spec fn is_sorted_i32(s: Seq<i32>) -> bool {
    forall|i: int, j: int| 0 <= i < j < s.len() ==> s[i] <= s[j]
}

/// Sort a list of rate samples ascending; the result holds exactly the
/// input's values.
pub fn sort_i32(input: &Vec<i32>) -> (r: Vec<i32>)
    ensures
        is_sorted_i32(r@),
        r@.to_multiset() == input@.to_multiset(),
        r@.len() == input@.len(),
{
    let mut rest: Vec<i32> = Vec::new();
    let mut i: usize = 0;
    while i < input.len()
        invariant
            i <= input@.len(),
            rest@ == input@.take(i as int),
        decreases input@.len() - i,
    {
        rest.push(input[i]);
        i = i + 1;
    }
    proof {
        assert(rest@ =~= input@);
    }
    let ghost whole: Seq<i32> = rest@;
    let mut out: Vec<i32> = Vec::new();
    proof {
        broadcast use vstd::seq_lib::group_to_multiset_ensures;

        vstd::assert_multisets_equal!(out@.to_multiset().add(rest@.to_multiset()), whole.to_multiset());
    }
    while rest.len() > 0
        invariant
            is_sorted_i32(out@),
            forall|a: int, b: int|
                0 <= a < out@.len() && 0 <= b < rest@.len() ==> out@[a] <= rest@[b],
            out@.to_multiset().add(rest@.to_multiset()) == whole.to_multiset(),
            out@.len() + rest@.len() == whole.len(),
        decreases rest@.len(),
    {
        let mut mi: usize = 0;
        let mut k: usize = 1;
        while k < rest.len()
            invariant
                mi < rest@.len(),
                k <= rest@.len(),
                forall|t: int| 0 <= t < k ==> rest@[mi as int] <= rest@[t],
            decreases rest@.len() - k,
        {
            if rest[k] < rest[mi] {
                mi = k;
            }
            k = k + 1;
        }
        let ghost old_out: Seq<i32> = out@;
        let ghost old_rest: Seq<i32> = rest@;
        let m: i32 = rest.remove(mi);
        out.push(m);
        proof {
            broadcast use vstd::seq_lib::group_to_multiset_ensures;

            assert(rest@.to_multiset() == old_rest.to_multiset().remove(m));
            assert(out@.to_multiset() == old_out.to_multiset().insert(m));
            assert(old_rest.to_multiset().count(m) > 0) by {
                assert(old_rest.contains(m));
            }
            vstd::assert_multisets_equal!(
                old_out.to_multiset().insert(m).add(old_rest.to_multiset().remove(m)),
                old_out.to_multiset().add(old_rest.to_multiset())
            );
            assert(forall|b: int|
                0 <= b < rest@.len() ==> (rest@[b] == old_rest[b] || rest@[b] == old_rest[
                    b + 1
                ]));
        }
    }
    proof {
        broadcast use vstd::seq_lib::group_to_multiset_ensures;

        vstd::assert_multisets_equal!(out@.to_multiset(), whole.to_multiset());
    }
    out
}

/// Turn raw encoder samples into the sorted rate samples and their median.
/// Fails exactly when fewer than two samples were collected.
pub fn qpps_from_encoder_samples(encoder_samples: &Vec<i64>) -> (r: Result<
    (i32, Vec<i32>),
    String,
>)
    ensures
        r is Ok <==> encoder_samples@.len() >= 2,
        r is Ok ==> {
            &&& is_sorted_i32(r->Ok_0.1@)
            &&& r->Ok_0.1@.to_multiset() == spec_qpps_deltas(encoder_samples@).to_multiset()
            &&& r->Ok_0.1@.len() == encoder_samples@.len() - 1
            &&& r->Ok_0.0 == r->Ok_0.1@[r->Ok_0.1@.len() as int / 2]
        },
{
    if encoder_samples.len() < 2 {
        return Err("Not enough encoder samples".to_owned());
    }
    let mut deltas: Vec<i32> = Vec::new();
    let mut i: usize = 1;
    while i < encoder_samples.len()
        invariant
            1 <= i <= encoder_samples@.len(),
            encoder_samples@.len() >= 2,
            deltas@.len() == i - 1,
            forall|t: int|
                0 <= t < i - 1 ==> deltas@[t] == spec_qpps_deltas(encoder_samples@)[t],
        decreases encoder_samples@.len() - i,
    {
        let d: i64 = encoder_samples[i].wrapping_sub(encoder_samples[i - 1]);
        let wide: i128 = (d as i128) * 10;
        let q: i32 = if wide < i32::MIN as i128 {
            i32::MIN
        } else if wide > i32::MAX as i128 {
            i32::MAX
        } else {
            wide as i32
        };
        deltas.push(q);
        i = i + 1;
    }
    proof {
        assert(deltas@ =~= spec_qpps_deltas(encoder_samples@));
    }
    let sorted: Vec<i32> = sort_i32(&deltas);
    let qpps: i32 = sorted[sorted.len() / 2];
    Ok((qpps, sorted))
}

/// The simulation stepped 100 ms at a time, collecting the addressed
/// motor's encoder count after each step: the final state and the samples.
pub open spec fn spec_sample_walk(s: SimState, motor_index: u8, n: nat) -> (SimState, Seq<i64>)
    decreases n,
{
    if n == 0 {
        (s, Seq::empty())
    } else {
        let s1 = spec_sim_step(s, 100_000);
        let enc = if motor_index == 1 {
            s1.m1_encoder
        } else {
            s1.m2_encoder
        };
        let rec = spec_sample_walk(s1, motor_index, (n - 1) as nat);
        (rec.0, seq![enc] + rec.1)
    }
}

/// The simulation with full forward PWM applied to the addressed motor.
pub open spec fn spec_full_pwm(s: SimState, motor_index: u8) -> SimState {
    if motor_index == 1 {
        SimState { m1_pwm: 32767, m1_mode_pwm: true, ..s }
    } else {
        SimState { m2_pwm: 32767, m2_mode_pwm: true, ..s }
    }
}

/// `walked` with the addressed motor driven at PWM zero, as the closing
/// drive command of the measurement leaves it.
pub open spec fn spec_stop_pwm(walked: SimState, motor_index: u8) -> SimState {
    if motor_index == 1 {
        SimState { m1_pwm: 0, m1_mode_pwm: true, ..walked }
    } else {
        SimState { m2_pwm: 0, m2_mode_pwm: true, ..walked }
    }
}

/// How many encoder samples a measurement of `duration_ms` takes.
pub open spec fn spec_sample_count(duration_ms: u32) -> int {
    (duration_ms + 99) / 100
}

/// Measure QPPS against the simulation backend: drive the motor at full
/// PWM, advance the plant 100 ms per sample for the requested duration,
/// drive the PWM back to zero, and report the median pulses-per-second
/// over the sampled intervals. Fails exactly when the duration is under
/// 200 ms (which also guarantees at least two samples).
pub fn measure_qpps_sync(sim: &mut SimState, motor_index: u8, duration_ms: u32) -> (r: Result<
    QppsMeasurement,
    String,
>)
    requires
        old(sim).wf(),
    ensures
        final(sim).wf(),
        r is Ok <==> duration_ms >= 200,
        duration_ms < 200 ==> *final(sim) == *old(sim),
        r is Ok ==> {
            let walk = spec_sample_walk(
                spec_full_pwm(*old(sim), motor_index),
                motor_index,
                spec_sample_count(duration_ms) as nat,
            );
            &&& *final(sim) == spec_stop_pwm(walk.0, motor_index)
            &&& r->Ok_0.encoder_samples@ == walk.1
            &&& is_sorted_i32(r->Ok_0.qpps_samples@)
            &&& r->Ok_0.qpps_samples@.to_multiset() == spec_qpps_deltas(walk.1).to_multiset()
            &&& r->Ok_0.qpps_samples@.len() == walk.1.len() - 1
            &&& r->Ok_0.qpps == r->Ok_0.qpps_samples@[r->Ok_0.qpps_samples@.len() as int / 2]
        },
{
    if duration_ms < 200 {
        return Err("duration_ms must be >= 200".to_owned());
    }
    if motor_index == 1 {
        sim.m1_pwm = 32767;
        sim.m1_mode_pwm = true;
    } else {
        sim.m2_pwm = 32767;
        sim.m2_mode_pwm = true;
    }
    let ghost driven: SimState = *sim;
    let n: u64 = (duration_ms as u64 + 99) / 100;
    let mut encoder_samples: Vec<i64> = Vec::new();
    let mut k: u64 = 0;
    while k < n
        invariant
            k <= n,
            sim.wf(),
            encoder_samples@.len() == k,
            spec_sample_walk(driven, motor_index, n as nat).0 == spec_sample_walk(
                *sim,
                motor_index,
                (n - k) as nat,
            ).0,
            spec_sample_walk(driven, motor_index, n as nat).1 == encoder_samples@
                + spec_sample_walk(*sim, motor_index, (n - k) as nat).1,
        decreases n - k,
    {
        let ghost before: SimState = *sim;
        let ghost prev_samples: Seq<i64> = encoder_samples@;
        sim_step(sim, 100_000);
        let enc: i64 = if motor_index == 1 {
            sim.m1_encoder
        } else {
            sim.m2_encoder
        };
        encoder_samples.push(enc);
        proof {
            let rem: nat = (n - k) as nat;
            assert(spec_sample_walk(before, motor_index, rem).0 == spec_sample_walk(
                *sim,
                motor_index,
                (rem - 1) as nat,
            ).0);
            assert(spec_sample_walk(before, motor_index, rem).1 == seq![enc]
                + spec_sample_walk(*sim, motor_index, (rem - 1) as nat).1);
            assert(spec_sample_walk(driven, motor_index, n as nat).1 == encoder_samples@
                + spec_sample_walk(*sim, motor_index, (rem - 1) as nat).1) by {
                assert((encoder_samples@.drop_last() + (seq![enc] + spec_sample_walk(
                    *sim,
                    motor_index,
                    (rem - 1) as nat,
                ).1)) =~= encoder_samples@ + spec_sample_walk(
                    *sim,
                    motor_index,
                    (rem - 1) as nat,
                ).1);
                assert(encoder_samples@.drop_last() =~= prev_samples);
            }
        }
        k = k + 1;
    }
    if motor_index == 1 {
        sim.m1_pwm = 0;
        sim.m1_mode_pwm = true;
    } else {
        sim.m2_pwm = 0;
        sim.m2_mode_pwm = true;
    }
    match qpps_from_encoder_samples(&encoder_samples) {
        Ok((qpps, qpps_samples)) => Ok(
            QppsMeasurement { qpps, encoder_samples, qpps_samples },
        ),
        Err(e) => {
            proof {
                assert(encoder_samples@.len() >= 2);
                assert(false);
            }
            Err(e)
        },
    }
}

} // verus!
