//! Wire protocol: big-endian field codecs, request framing with a trailing
//! CRC16, response validation, and the PID parameter sets with their wire
//! encodings.

use vstd::prelude::*;
use vstd::slice::slice_subrange;
use crate::crc::{calc_crc, crc16};

verus! {

/// Big-endian 16-bit value from two bytes.
pub open spec fn be16(hi: u8, lo: u8) -> u16 {
    ((hi as u16) << 8) | (lo as u16)
}

/// Big-endian 32-bit value from four bytes.
pub open spec fn be_u32(b0: u8, b1: u8, b2: u8, b3: u8) -> u32 {
    ((b0 as u32) << 24) | ((b1 as u32) << 16) | ((b2 as u32) << 8) | (b3 as u32)
}

/// Big-endian signed 32-bit value from four bytes (two's complement).
pub open spec fn be_i32(b0: u8, b1: u8, b2: u8, b3: u8) -> i32 {
    be_u32(b0, b1, b2, b3) as i32
}

/// The four big-endian bytes of a signed 32-bit value.
pub open spec fn i32_be_bytes(x: i32) -> Seq<u8> {
    seq![
        ((x as u32) >> 24) as u8,
        ((x as u32) >> 16) as u8,
        ((x as u32) >> 8) as u8,
        (x as u32) as u8,
    ]
}

/// Big-endian signed 16-bit value from two bytes (two's complement).
pub open spec fn be_i16(hi: u8, lo: u8) -> i16 {
    be16(hi, lo) as i16
}

pub fn i16_from_be_pair(hi: u8, lo: u8) -> (r: i16)
    ensures
        r == be_i16(hi, lo),
{
    u16_from_be_pair(hi, lo) as i16
}

pub fn u16_from_be_pair(hi: u8, lo: u8) -> (r: u16)
    ensures
        r == be16(hi, lo),
{
    ((hi as u16) << 8) | (lo as u16)
}

pub fn u32_from_be_quad(b0: u8, b1: u8, b2: u8, b3: u8) -> (r: u32)
    ensures
        r == be_u32(b0, b1, b2, b3),
{
    ((b0 as u32) << 24) | ((b1 as u32) << 16) | ((b2 as u32) << 8) | (b3 as u32)
}

pub fn i32_from_be_quad(b0: u8, b1: u8, b2: u8, b3: u8) -> (r: i32)
    ensures
        r == be_i32(b0, b1, b2, b3),
{
    u32_from_be_quad(b0, b1, b2, b3) as i32
}

/// Append the four big-endian bytes of `x` to `data`.
pub fn push_i32_be(data: &mut Vec<u8>, x: i32)
    ensures
        final(data)@ == old(data)@ + i32_be_bytes(x),
{
    let u: u32 = x as u32;
    proof {
        assert((u >> 24) <= 0xff && (u >> 16) <= 0xffff && (u >> 8) <= 0xffffff)
            by (bit_vector);
    }
    data.push(#[verifier::truncate] ((u >> 24) as u8));
    data.push(#[verifier::truncate] ((u >> 16) as u8));
    data.push(#[verifier::truncate] ((u >> 8) as u8));
    data.push(#[verifier::truncate] (u as u8));
    proof {
        assert(final(data)@ =~= old(data)@ + i32_be_bytes(x));
    }
}

/// Round trip: decoding the four big-endian bytes of `x` yields `x` again.
pub proof fn lemma_i32_be_round_trip(x: i32)
    ensures
        i32_be_bytes(x).len() == 4,
        be_i32(
            i32_be_bytes(x)[0],
            i32_be_bytes(x)[1],
            i32_be_bytes(x)[2],
            i32_be_bytes(x)[3],
        ) == x,
{
    let u: u32 = x as u32;
    assert(be_u32((u >> 24) as u8, (u >> 16) as u8, (u >> 8) as u8, u as u8) == u)
        by (bit_vector);
    assert((x as u32) as i32 == x) by (bit_vector);
}

/// Round trip: the bytes of a decoded big-endian 32-bit value are the
/// original bytes.
pub proof fn lemma_be_i32_bytes_round_trip(b0: u8, b1: u8, b2: u8, b3: u8)
    ensures
        i32_be_bytes(be_i32(b0, b1, b2, b3)) =~= seq![b0, b1, b2, b3],
{
    let u: u32 = be_u32(b0, b1, b2, b3);
    assert((u as i32) as u32 == u) by (bit_vector);
    assert(((((b0 as u32) << 24) | ((b1 as u32) << 16) | ((b2 as u32) << 8) | (b3 as u32))
        >> 24) as u8 == b0) by (bit_vector);
    assert(((((b0 as u32) << 24) | ((b1 as u32) << 16) | ((b2 as u32) << 8) | (b3 as u32))
        >> 16) as u8 == b1) by (bit_vector);
    assert(((((b0 as u32) << 24) | ((b1 as u32) << 16) | ((b2 as u32) << 8) | (b3 as u32))
        >> 8) as u8 == b2) by (bit_vector);
    assert(((((b0 as u32) << 24) | ((b1 as u32) << 16) | ((b2 as u32) << 8) | (b3 as u32)))
        as u8 == b3) by (bit_vector);
}

/// A request body followed by its big-endian CRC16.
pub open spec fn crc_framed(body: Seq<u8>) -> Seq<u8> {
    body + seq![(crc16(body) >> 8) as u8, crc16(body) as u8]
}

/// Append the big-endian CRC16 of the current contents to `data`.
pub fn append_crc(data: &mut Vec<u8>)
    ensures
        final(data)@ == crc_framed(old(data)@),
{
    let crc: u16 = calc_crc(data.as_slice());
    proof {
        assert((crc >> 8) <= 0xff) by (bit_vector);
    }
    data.push((crc >> 8) as u8);
    data.push(#[verifier::truncate] (crc as u8));
    proof {
        assert(final(data)@ =~= crc_framed(old(data)@));
    }
}

/// The two big-endian bytes of a signed 16-bit value.
pub open spec fn i16_be_bytes(x: i16) -> Seq<u8> {
    seq![((x as u16) >> 8) as u8, (x as u16) as u8]
}

/// Append the two big-endian bytes of `x` to `data`.
pub fn push_i16_be(data: &mut Vec<u8>, x: i16)
    ensures
        final(data)@ == old(data)@ + i16_be_bytes(x),
{
    let u: u16 = #[verifier::truncate] (x as u16);
    proof {
        assert((u >> 8) <= 0xff) by (bit_vector);
    }
    data.push((u >> 8) as u8);
    data.push(#[verifier::truncate] (u as u8));
    proof {
        assert(final(data)@ =~= old(data)@ + i16_be_bytes(x));
    }
}

/// The PWM duty clamped to the wire's symmetric range [-32767, 32767].
pub open spec fn spec_pwm_clamped(pwm: i16) -> i16 {
    if pwm < -32767 {
        -32767i16
    } else {
        pwm
    }
}

/// Request frame of the open-loop drive command: command 6 for motor 1,
/// 7 otherwise, the speed byte clamped to 127, and a trailing CRC.
pub open spec fn spec_drive_simply_request(addr: u8, motor_index: u8, speed: u8) -> Seq<u8> {
    crc_framed(
        seq![
            addr,
            (if motor_index == 1 {
                6u8
            } else {
                7u8
            }),
            (if speed > 127 {
                127u8
            } else {
                speed
            }),
        ],
    )
}

pub fn encode_drive_simply_request(addr: u8, motor_index: u8, speed: u8) -> (r: Vec<u8>)
    ensures
        r@ == spec_drive_simply_request(addr, motor_index, speed),
{
    let mut data: Vec<u8> = Vec::new();
    data.push(addr);
    if motor_index == 1 {
        data.push(6);
    } else {
        data.push(7);
    }
    if speed > 127 {
        data.push(127);
    } else {
        data.push(speed);
    }
    proof {
        assert(data@ =~= seq![
            addr,
            (if motor_index == 1 {
                6u8
            } else {
                7u8
            }),
            (if speed > 127 {
                127u8
            } else {
                speed
            }),
        ]);
    }
    append_crc(&mut data);
    data
}

/// Request frame of the signed PWM drive command: command 32 for motor 1,
/// 33 otherwise, the clamped duty as a big-endian i16, and a trailing CRC.
pub open spec fn spec_drive_pwm_request(addr: u8, motor_index: u8, pwm: i16) -> Seq<u8> {
    crc_framed(
        seq![
            addr,
            (if motor_index == 1 {
                32u8
            } else {
                33u8
            }),
        ] + i16_be_bytes(spec_pwm_clamped(pwm)),
    )
}

pub fn encode_drive_pwm_request(addr: u8, motor_index: u8, pwm: i16) -> (r: Vec<u8>)
    ensures
        r@ == spec_drive_pwm_request(addr, motor_index, pwm),
{
    let mut data: Vec<u8> = Vec::new();
    data.push(addr);
    if motor_index == 1 {
        data.push(32);
    } else {
        data.push(33);
    }
    let clamped: i16 = if pwm < -32767 {
        -32767
    } else {
        pwm
    };
    push_i16_be(&mut data, clamped);
    proof {
        assert(data@ =~= seq![
            addr,
            (if motor_index == 1 {
                32u8
            } else {
                33u8
            }),
        ] + i16_be_bytes(spec_pwm_clamped(pwm)));
    }
    append_crc(&mut data);
    data
}

/// Request frame of the read-speed command: 18 for motor 1, 19 otherwise,
/// sent without a CRC as observed of the protocol's read commands.
pub open spec fn spec_read_speed_request(addr: u8, motor_index: u8) -> Seq<u8> {
    seq![
        addr,
        (if motor_index == 1 {
            18u8
        } else {
            19u8
        }),
    ]
}

pub fn encode_read_speed_request(addr: u8, motor_index: u8) -> (r: Vec<u8>)
    ensures
        r@ == spec_read_speed_request(addr, motor_index),
{
    let mut data: Vec<u8> = Vec::new();
    data.push(addr);
    if motor_index == 1 {
        data.push(18);
    } else {
        data.push(19);
    }
    proof {
        assert(data@ =~= spec_read_speed_request(addr, motor_index));
    }
    data
}

/// Request frame of the read-all-status command (73), sent without a CRC.
pub open spec fn spec_read_all_status_request(addr: u8) -> Seq<u8> {
    seq![addr, 73u8]
}

pub fn encode_read_all_status_request(addr: u8) -> (r: Vec<u8>)
    ensures
        r@ == spec_read_all_status_request(addr),
{
    let mut data: Vec<u8> = Vec::new();
    data.push(addr);
    data.push(73);
    proof {
        assert(data@ =~= spec_read_all_status_request(addr));
    }
    data
}

/// Request frame of the read-currents command (49), sent without a CRC.
pub open spec fn spec_read_currents_request(addr: u8) -> Seq<u8> {
    seq![addr, 49u8]
}

pub fn encode_read_currents_request(addr: u8) -> (r: Vec<u8>)
    ensures
        r@ == spec_read_currents_request(addr),
{
    let mut data: Vec<u8> = Vec::new();
    data.push(addr);
    data.push(49);
    proof {
        assert(data@ =~= spec_read_currents_request(addr));
    }
    data
}

/// Request frame of the PWM-readback command (48), sent without a CRC.
pub open spec fn spec_read_pwm_request(addr: u8) -> Seq<u8> {
    seq![addr, 48u8]
}

pub fn encode_read_pwm_request(addr: u8) -> (r: Vec<u8>)
    ensures
        r@ == spec_read_pwm_request(addr),
{
    let mut data: Vec<u8> = Vec::new();
    data.push(addr);
    data.push(48);
    proof {
        assert(data@ =~= spec_read_pwm_request(addr));
    }
    data
}

/// Request frame of the reset-encoders command (20) with a trailing CRC.
pub open spec fn spec_reset_encoder_request(addr: u8) -> Seq<u8> {
    crc_framed(seq![addr, 20u8])
}

pub fn encode_reset_encoder_request(addr: u8) -> (r: Vec<u8>)
    ensures
        r@ == spec_reset_encoder_request(addr),
{
    let mut data: Vec<u8> = Vec::new();
    data.push(addr);
    data.push(20);
    proof {
        assert(data@ =~= seq![addr, 20u8]);
    }
    append_crc(&mut data);
    data
}

/// Request frame of the velocity PID read: 55 for motor 1, 56 otherwise,
/// sent without a CRC as the protocol defines for these reads.
pub open spec fn spec_read_velocity_pid_request(addr: u8, motor_index: u8) -> Seq<u8> {
    seq![
        addr,
        (if motor_index == 1 {
            55u8
        } else {
            56u8
        }),
    ]
}

pub fn encode_read_velocity_pid_request(addr: u8, motor_index: u8) -> (r: Vec<u8>)
    ensures
        r@ == spec_read_velocity_pid_request(addr, motor_index),
{
    let mut data: Vec<u8> = Vec::new();
    data.push(addr);
    if motor_index == 1 {
        data.push(55);
    } else {
        data.push(56);
    }
    proof {
        assert(data@ =~= spec_read_velocity_pid_request(addr, motor_index));
    }
    data
}

/// Request frame of the velocity PID write: 28 for motor 1, 29 otherwise,
/// the payload in wire order D, P, I, QPPS, and a trailing CRC.
pub open spec fn spec_write_velocity_pid_request(
    addr: u8,
    motor_index: u8,
    params: VelocityPidParams,
) -> Seq<u8> {
    crc_framed(
        seq![
            addr,
            (if motor_index == 1 {
                28u8
            } else {
                29u8
            }),
        ] + velocity_pid_write_wire(params),
    )
}

pub fn encode_write_velocity_pid_request(addr: u8, motor_index: u8, params: &VelocityPidParams) -> (r:
    Vec<u8>)
    ensures
        r@ == spec_write_velocity_pid_request(addr, motor_index, *params),
{
    let mut data: Vec<u8> = Vec::new();
    data.push(addr);
    if motor_index == 1 {
        data.push(28);
    } else {
        data.push(29);
    }
    push_velocity_pid(&mut data, params);
    proof {
        assert(data@ =~= seq![
            addr,
            (if motor_index == 1 {
                28u8
            } else {
                29u8
            }),
        ] + velocity_pid_write_wire(*params));
    }
    append_crc(&mut data);
    data
}

/// Request frame of the position PID read: 63 for motor 1, 64 otherwise,
/// sent without a CRC as the protocol defines for these reads.
pub open spec fn spec_read_position_pid_request(addr: u8, motor_index: u8) -> Seq<u8> {
    seq![
        addr,
        (if motor_index == 1 {
            63u8
        } else {
            64u8
        }),
    ]
}

pub fn encode_read_position_pid_request(addr: u8, motor_index: u8) -> (r: Vec<u8>)
    ensures
        r@ == spec_read_position_pid_request(addr, motor_index),
{
    let mut data: Vec<u8> = Vec::new();
    data.push(addr);
    if motor_index == 1 {
        data.push(63);
    } else {
        data.push(64);
    }
    proof {
        assert(data@ =~= spec_read_position_pid_request(addr, motor_index));
    }
    data
}

/// Request frame of the position PID write: 61 for motor 1, 62 otherwise,
/// the payload in wire order D, P, I, MaxI, Deadzone, Min, Max, and a
/// trailing CRC.
pub open spec fn spec_write_position_pid_request(
    addr: u8,
    motor_index: u8,
    params: PositionPidParams,
) -> Seq<u8> {
    crc_framed(
        seq![
            addr,
            (if motor_index == 1 {
                61u8
            } else {
                62u8
            }),
        ] + position_pid_write_wire(params),
    )
}

pub fn encode_write_position_pid_request(addr: u8, motor_index: u8, params: &PositionPidParams) -> (r:
    Vec<u8>)
    ensures
        r@ == spec_write_position_pid_request(addr, motor_index, *params),
{
    let mut data: Vec<u8> = Vec::new();
    data.push(addr);
    if motor_index == 1 {
        data.push(61);
    } else {
        data.push(62);
    }
    push_position_pid(&mut data, params);
    proof {
        assert(data@ =~= seq![
            addr,
            (if motor_index == 1 {
                61u8
            } else {
                62u8
            }),
        ] + position_pid_write_wire(*params));
    }
    append_crc(&mut data);
    data
}

/// The payload of a raw response: everything before the trailing CRC.
pub open spec fn response_payload(resp: Seq<u8>) -> Seq<u8> {
    resp.take(resp.len() - 2)
}

/// The big-endian CRC carried in the last two bytes of a raw response.
pub open spec fn response_crc(resp: Seq<u8>) -> u16 {
    be16(resp[resp.len() - 2], resp[resp.len() - 1])
}

/// A raw response is valid when it is long enough and its trailing CRC
/// matches the CRC16 of address, command and payload.
pub open spec fn response_valid(resp: Seq<u8>, addr: u8, cmd: u8) -> bool {
    &&& resp.len() >= 3
    &&& crc16(seq![addr, cmd] + response_payload(resp)) == response_crc(resp)
}

/// Strip and verify the trailing CRC of a raw response; never accepts a
/// mismatch. Succeeds exactly on valid responses and returns the payload.
pub fn parse_response<'a>(resp: &'a [u8], addr: u8, cmd: u8) -> (r: Result<&'a [u8], String>)
    ensures
        r is Ok <==> response_valid(resp@, addr, cmd),
        r is Ok ==> r->Ok_0@ == response_payload(resp@),
{
    if resp.len() < 3 {
        return Err("Response too short".to_owned());
    }
    let data_len: usize = resp.len() - 2;
    let data: &[u8] = slice_subrange(resp, 0, data_len);
    let crc_received: u16 = u16_from_be_pair(resp[data_len], resp[data_len + 1]);
    let mut full_packet: Vec<u8> = Vec::new();
    full_packet.push(addr);
    full_packet.push(cmd);
    full_packet.extend_from_slice(data);
    proof {
        assert(full_packet@ =~= seq![addr, cmd] + response_payload(resp@));
    }
    let crc_calc: u16 = calc_crc(full_packet.as_slice());
    if crc_calc != crc_received {
        return Err("CRC mismatch".to_owned());
    }
    Ok(data)
}

/// The CRC check applied to a whole framed packet: the trailing two bytes
/// must be the big-endian CRC16 of everything before them.
pub open spec fn frame_checks_out(f: Seq<u8>) -> bool {
    &&& f.len() >= 2
    &&& crc16(f.take(f.len() - 2)) == be16(f[f.len() - 2], f[f.len() - 1])
}

pub proof fn lemma_be16_facts()
    by (bit_vector)
    ensures
        forall|c: u16| #[trigger] be16((c >> 8u16) as u8, c as u8) == c,
        forall|h1: u8, l1: u8, h2: u8, l2: u8|
            #![trigger be16(h1, l1), be16(h2, l2)]
            be16(h1, l1) == be16(h2, l2) ==> h1 == h2 && l1 == l2,
        forall|j: u8| j < 8 ==> #[trigger] (1u8 << j) != 0,
        forall|a: u8, b: u8| b != 0 ==> #[trigger] (a ^ b) != a,
{
}

/// A packet framed with its own CRC16 passes the CRC check.
pub proof fn lemma_framed_packet_checks_out(body: Seq<u8>)
    ensures
        frame_checks_out(crc_framed(body)),
{
    lemma_be16_facts();
    assert(crc_framed(body).take(body.len() as int) =~= body);
}

/// Flipping any single bit of a framed packet — in the body or in the CRC
/// bytes — makes the CRC check fail. Detection is certain, not
/// probabilistic.
pub proof fn lemma_single_bit_corruption_detected(body: Seq<u8>, corrupt: Seq<u8>, k: int, j: u8)
    requires
        corrupt.len() == body.len() + 2,
        0 <= k < corrupt.len(),
        j < 8,
        forall|i: int| 0 <= i < corrupt.len() && i != k ==> corrupt[i] == crc_framed(body)[i],
        corrupt[k] == crc_framed(body)[k] ^ (1u8 << j),
    ensures
        !frame_checks_out(corrupt),
{
    lemma_be16_facts();
    let f: Seq<u8> = crc_framed(body);
    let n: int = body.len() as int;
    assert(f.take(n) =~= body);
    if k < n {
        let corrupt_body: Seq<u8> = corrupt.take(n);
        assert(corrupt_body[k] == body[k] ^ (1u8 << j));
        crate::crc::lemma_crc16_bit_flip(corrupt_body, body, k);
        assert(be16(corrupt[n], corrupt[n + 1]) == crc16(body));
    } else {
        assert(corrupt.take(n) =~= body);
        let c: u16 = crc16(body);
        assert(be16((c >> 8u16) as u8, c as u8) == c);
        assert(f[n] == (c >> 8u16) as u8 && f[n + 1] == c as u8);
        assert(corrupt[k] != f[k]);
        if frame_checks_out(corrupt) {
            assert(be16(corrupt[n], corrupt[n + 1]) == c);
            assert(corrupt[n] == f[n] && corrupt[n + 1] == f[n + 1]);
        }
    }
}

/// Relates the response validator to the whole-frame CRC check: a response
/// is valid for (addr, cmd) exactly when the frame [addr, cmd] ++ response
/// passes the CRC check and the response is long enough.
pub proof fn lemma_response_valid_is_frame_check(resp: Seq<u8>, addr: u8, cmd: u8)
    ensures
        response_valid(resp, addr, cmd) <==> (resp.len() >= 3 && frame_checks_out(
            seq![addr, cmd] + resp,
        )),
{
    let f: Seq<u8> = seq![addr, cmd] + resp;
    if resp.len() >= 3 {
        assert(f.take(f.len() - 2) =~= seq![addr, cmd] + response_payload(resp));
        assert(f[f.len() - 2] == resp[resp.len() - 2]);
        assert(f[f.len() - 1] == resp[resp.len() - 1]);
    }
}

/// Any single-bit corruption of a correctly framed response is rejected by
/// the validator.
pub proof fn lemma_validator_detects_single_bit_corruption(
    addr: u8,
    cmd: u8,
    payload: Seq<u8>,
    corrupt: Seq<u8>,
    k: int,
    j: u8,
)
    requires
        corrupt.len() == payload.len() + 2,
        0 <= k < corrupt.len(),
        j < 8,
        forall|i: int|
            0 <= i < corrupt.len() && i != k ==> corrupt[i] == crc_framed(
                seq![addr, cmd] + payload,
            )[i + 2],
        corrupt[k] == crc_framed(seq![addr, cmd] + payload)[k + 2] ^ (1u8 << j),
    ensures
        !response_valid(corrupt, addr, cmd),
{
    let body: Seq<u8> = seq![addr, cmd] + payload;
    let f: Seq<u8> = seq![addr, cmd] + corrupt;
    assert(f =~= Seq::new(body.len() + 2, |i: int| if i == k + 2 {
        crc_framed(body)[i] ^ (1u8 << j)
    } else {
        crc_framed(body)[i]
    })) by {
        lemma_be16_facts();
        assert(f[k + 2] == crc_framed(body)[k + 2] ^ (1u8 << j));
    }
    lemma_single_bit_corruption_detected(body, f, k + 2, j);
    lemma_response_valid_is_frame_check(corrupt, addr, cmd);
}

/// Position PID parameter set; gains are 16.16 fixed-point integers as sent
/// on the wire.
#[derive(Debug, Clone, Copy, PartialEq, Eq, Structural)]
pub struct PositionPidParams {
    pub p: i32,
    pub i: i32,
    pub d: i32,
    pub max_i: i32,
    pub deadzone: i32,
    pub min: i32,
    pub max: i32,
}

impl Default for PositionPidParams {
    /// The controller's stock position PID constants.
    fn default() -> (r: Self)
        ensures
            r == (PositionPidParams {
                p: 0x00010000,
                i: 0x00008000,
                d: 0x00004000,
                max_i: 0x00002000,
                deadzone: 0,
                min: -32767i32,
                max: 32767,
            }),
    {
        PositionPidParams {
            p: 0x00010000,
            i: 0x00008000,
            d: 0x00004000,
            max_i: 0x00002000,
            deadzone: 0,
            min: -32767,
            max: 32767,
        }
    }
}

/// Velocity PID parameter set; gains are 16.16 fixed-point integers, QPPS is
/// the encoder speed at 100% power.
#[derive(Debug, Clone, Copy, PartialEq, Eq, Structural)]
pub struct VelocityPidParams {
    pub p: i32,
    pub i: i32,
    pub d: i32,
    pub qpps: i32,
}

impl Default for VelocityPidParams {
    /// The controller's stock velocity PID constants.
    fn default() -> (r: Self)
        ensures
            r == (VelocityPidParams { p: 0x00010000, i: 0x00008000, d: 0x00004000, qpps: 44000 }),
    {
        VelocityPidParams { p: 0x00010000, i: 0x00008000, d: 0x00004000, qpps: 44000 }
    }
}

/// Wire order of a velocity PID write payload: D, P, I, QPPS.
pub open spec fn velocity_pid_write_wire(params: VelocityPidParams) -> Seq<u8> {
    i32_be_bytes(params.d) + i32_be_bytes(params.p) + i32_be_bytes(params.i)
        + i32_be_bytes(params.qpps)
}

/// Field order of a velocity PID read reply: P, I, D, QPPS.
pub open spec fn velocity_pid_from_reply(s: Seq<u8>) -> VelocityPidParams {
    VelocityPidParams {
        p: be_i32(s[0], s[1], s[2], s[3]),
        i: be_i32(s[4], s[5], s[6], s[7]),
        d: be_i32(s[8], s[9], s[10], s[11]),
        qpps: be_i32(s[12], s[13], s[14], s[15]),
    }
}

/// Wire order of a position PID write payload: D, P, I, MaxI, Deadzone,
/// Min, Max.
pub open spec fn position_pid_write_wire(params: PositionPidParams) -> Seq<u8> {
    i32_be_bytes(params.d) + i32_be_bytes(params.p) + i32_be_bytes(params.i)
        + i32_be_bytes(params.max_i) + i32_be_bytes(params.deadzone) + i32_be_bytes(params.min)
        + i32_be_bytes(params.max)
}

/// Field order of a position PID read reply: P, I, D, MaxI, Deadzone, Min,
/// Max.
pub open spec fn position_pid_from_reply(s: Seq<u8>) -> PositionPidParams {
    PositionPidParams {
        p: be_i32(s[0], s[1], s[2], s[3]),
        i: be_i32(s[4], s[5], s[6], s[7]),
        d: be_i32(s[8], s[9], s[10], s[11]),
        max_i: be_i32(s[12], s[13], s[14], s[15]),
        deadzone: be_i32(s[16], s[17], s[18], s[19]),
        min: be_i32(s[20], s[21], s[22], s[23]),
        max: be_i32(s[24], s[25], s[26], s[27]),
    }
}

/// Append the velocity PID write payload (D, P, I, QPPS) to `data`.
pub fn push_velocity_pid(data: &mut Vec<u8>, params: &VelocityPidParams)
    ensures
        final(data)@ == old(data)@ + velocity_pid_write_wire(*params),
{
    push_i32_be(data, params.d);
    push_i32_be(data, params.p);
    push_i32_be(data, params.i);
    push_i32_be(data, params.qpps);
    proof {
        assert(final(data)@ =~= old(data)@ + velocity_pid_write_wire(*params));
    }
}

/// Append the position PID write payload (D, P, I, MaxI, Deadzone, Min, Max)
/// to `data`.
pub fn push_position_pid(data: &mut Vec<u8>, params: &PositionPidParams)
    ensures
        final(data)@ == old(data)@ + position_pid_write_wire(*params),
{
    push_i32_be(data, params.d);
    push_i32_be(data, params.p);
    push_i32_be(data, params.i);
    push_i32_be(data, params.max_i);
    push_i32_be(data, params.deadzone);
    push_i32_be(data, params.min);
    push_i32_be(data, params.max);
    proof {
        assert(final(data)@ =~= old(data)@ + position_pid_write_wire(*params));
    }
}

/// Decode a velocity PID read reply (P, I, D, QPPS, each a big-endian i32).
pub fn parse_velocity_pid(payload: &[u8]) -> (r: Result<VelocityPidParams, String>)
    ensures
        r is Ok <==> payload@.len() >= 16,
        r is Ok ==> r->Ok_0 == velocity_pid_from_reply(payload@),
{
    if payload.len() >= 16 {
        let p: i32 = i32_from_be_quad(payload[0], payload[1], payload[2], payload[3]);
        let i: i32 = i32_from_be_quad(payload[4], payload[5], payload[6], payload[7]);
        let d: i32 = i32_from_be_quad(payload[8], payload[9], payload[10], payload[11]);
        let qpps: i32 = i32_from_be_quad(payload[12], payload[13], payload[14], payload[15]);
        Ok(VelocityPidParams { p, i, d, qpps })
    } else {
        Err("Invalid response length for velocity PID read".to_owned())
    }
}

/// Decode a position PID read reply (P, I, D, MaxI, Deadzone, Min, Max).
pub fn parse_position_pid(payload: &[u8]) -> (r: Result<PositionPidParams, String>)
    ensures
        r is Ok <==> payload@.len() >= 28,
        r is Ok ==> r->Ok_0 == position_pid_from_reply(payload@),
{
    if payload.len() >= 28 {
        let p: i32 = i32_from_be_quad(payload[0], payload[1], payload[2], payload[3]);
        let i: i32 = i32_from_be_quad(payload[4], payload[5], payload[6], payload[7]);
        let d: i32 = i32_from_be_quad(payload[8], payload[9], payload[10], payload[11]);
        let max_i: i32 = i32_from_be_quad(payload[12], payload[13], payload[14], payload[15]);
        let deadzone: i32 = i32_from_be_quad(payload[16], payload[17], payload[18], payload[19]);
        let min: i32 = i32_from_be_quad(payload[20], payload[21], payload[22], payload[23]);
        let max: i32 = i32_from_be_quad(payload[24], payload[25], payload[26], payload[27]);
        Ok(PositionPidParams { p, i, d, max_i, deadzone, min, max })
    } else {
        Err("Invalid response length for PID read".to_owned())
    }
}

/// A velocity PID set encoded for the wire and read back through the reply
/// decoder reproduces every 32-bit field bit-exactly. The write payload
/// carries D, P, I, QPPS; a reply carries P, I, D, QPPS; this lemma relates
/// a parameter set to both orders.
pub proof fn lemma_velocity_pid_round_trip(params: VelocityPidParams)
    ensures
        velocity_pid_from_reply(
            i32_be_bytes(params.p) + i32_be_bytes(params.i) + i32_be_bytes(params.d)
                + i32_be_bytes(params.qpps),
        ) == params,
        velocity_pid_write_wire(params).subrange(0, 4) =~= i32_be_bytes(params.d),
        velocity_pid_write_wire(params).subrange(4, 8) =~= i32_be_bytes(params.p),
        velocity_pid_write_wire(params).subrange(8, 12) =~= i32_be_bytes(params.i),
        velocity_pid_write_wire(params).subrange(12, 16) =~= i32_be_bytes(params.qpps),
{
    lemma_i32_be_round_trip(params.p);
    lemma_i32_be_round_trip(params.i);
    lemma_i32_be_round_trip(params.d);
    lemma_i32_be_round_trip(params.qpps);
}

/// A position PID set encoded in reply order and decoded reproduces every
/// 32-bit field bit-exactly.
pub proof fn lemma_position_pid_round_trip(params: PositionPidParams)
    ensures
        position_pid_from_reply(
            i32_be_bytes(params.p) + i32_be_bytes(params.i) + i32_be_bytes(params.d)
                + i32_be_bytes(params.max_i) + i32_be_bytes(params.deadzone)
                + i32_be_bytes(params.min) + i32_be_bytes(params.max),
        ) == params,
{
    lemma_i32_be_round_trip(params.p);
    lemma_i32_be_round_trip(params.i);
    lemma_i32_be_round_trip(params.d);
    lemma_i32_be_round_trip(params.max_i);
    lemma_i32_be_round_trip(params.deadzone);
    lemma_i32_be_round_trip(params.min);
    lemma_i32_be_round_trip(params.max);
}

} // verus!
