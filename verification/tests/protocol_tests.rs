//! Wire-protocol tests: CRC values, response validation, corruption
//! detection and PID wire round trips.

use roboclaw::crc::calc_crc;
use roboclaw::protocol::{
    append_crc, encode_drive_pwm_request, encode_drive_simply_request,
    encode_read_all_status_request, encode_read_speed_request,
    encode_read_velocity_pid_request, encode_reset_encoder_request,
    encode_write_position_pid_request, encode_write_velocity_pid_request, i32_from_be_quad,
    parse_position_pid, parse_response, parse_velocity_pid, push_i32_be, push_position_pid,
    push_velocity_pid, u16_from_be_pair, PositionPidParams, VelocityPidParams,
};

fn framed_response(addr: u8, cmd: u8, payload: &[u8]) -> Vec<u8> {
    let mut packet: Vec<u8> = vec![addr, cmd];
    packet.extend_from_slice(payload);
    let crc: u16 = calc_crc(&packet);
    let mut resp: Vec<u8> = payload.to_vec();
    resp.push((crc >> 8) as u8);
    resp.push((crc & 0xff) as u8);
    resp
}

#[test]
fn crc_known_check_value() {
    // The standard CRC-CCITT/XMODEM check value.
    assert_eq!(calc_crc(b"123456789"), 0x31c3);
    assert_eq!(calc_crc(b""), 0);
}

#[test]
fn parse_response_accepts_well_formed() {
    let payload: [u8; 4] = [1, 2, 3, 4];
    let resp: Vec<u8> = framed_response(0x80, 18, &payload);
    let parsed = parse_response(&resp, 0x80, 18).expect("valid response must parse");
    assert_eq!(parsed, &payload);
}

#[test]
fn parse_response_rejects_short() {
    assert!(parse_response(&[], 0x80, 18).is_err());
    assert!(parse_response(&[0xff], 0x80, 18).is_err());
    assert!(parse_response(&[0xff, 0x00], 0x80, 18).is_err());
}

#[test]
fn parse_response_rejects_wrong_crc() {
    let payload: [u8; 2] = [0xff, 0x00];
    let mut resp: Vec<u8> = framed_response(0x80, 20, &payload);
    let last: usize = resp.len() - 1;
    resp[last] = resp[last].wrapping_add(1);
    assert!(parse_response(&resp, 0x80, 20).is_err());
}

#[test]
fn parse_response_rejects_wrong_context() {
    let payload: [u8; 2] = [0xff, 0x00];
    let resp: Vec<u8> = framed_response(0x80, 20, &payload);
    assert!(parse_response(&resp, 0x80, 21).is_err());
    assert!(parse_response(&resp, 0x81, 20).is_err());
}

#[test]
fn every_single_bit_corruption_is_detected() {
    let payload: [u8; 5] = [0x12, 0x34, 0x56, 0x78, 0x9a];
    let resp: Vec<u8> = framed_response(0x80, 73, &payload);
    assert!(parse_response(&resp, 0x80, 73).is_ok());
    for byte in 0..resp.len() {
        for bit in 0..8 {
            let mut corrupt: Vec<u8> = resp.clone();
            corrupt[byte] ^= 1u8 << bit;
            assert!(
                parse_response(&corrupt, 0x80, 73).is_err(),
                "flip of bit {} in byte {} went undetected",
                bit,
                byte
            );
        }
    }
}

#[test]
fn append_crc_matches_manual_framing() {
    let mut data: Vec<u8> = vec![0x80, 32, 0x3e, 0x80];
    let crc: u16 = calc_crc(&data);
    append_crc(&mut data);
    assert_eq!(data.len(), 6);
    assert_eq!(u16_from_be_pair(data[4], data[5]), crc);
}

#[test]
fn i32_big_endian_round_trip() {
    let values: [i32; 6] = [0, 1, -1, i32::MIN, i32::MAX, 0x00010000];
    for &v in values.iter() {
        let mut buf: Vec<u8> = Vec::new();
        push_i32_be(&mut buf, v);
        assert_eq!(buf.len(), 4);
        assert_eq!(i32_from_be_quad(buf[0], buf[1], buf[2], buf[3]), v);
    }
}

#[test]
fn velocity_pid_wire_round_trip() {
    let params = VelocityPidParams { p: 0x00010000, i: -0x8000, d: 0x4000, qpps: 44000 };
    // The write payload carries D, P, I, QPPS.
    let mut wire: Vec<u8> = Vec::new();
    push_velocity_pid(&mut wire, &params);
    assert_eq!(wire.len(), 16);
    assert_eq!(i32_from_be_quad(wire[0], wire[1], wire[2], wire[3]), params.d);
    assert_eq!(i32_from_be_quad(wire[4], wire[5], wire[6], wire[7]), params.p);
    // A read reply carries P, I, D, QPPS; decoding it reproduces the set.
    let mut reply: Vec<u8> = Vec::new();
    push_i32_be(&mut reply, params.p);
    push_i32_be(&mut reply, params.i);
    push_i32_be(&mut reply, params.d);
    push_i32_be(&mut reply, params.qpps);
    let decoded = parse_velocity_pid(&reply).expect("16-byte reply must decode");
    assert_eq!(decoded, params);
}

#[test]
fn velocity_pid_reply_too_short() {
    let reply: [u8; 15] = [0; 15];
    assert!(parse_velocity_pid(&reply).is_err());
}

#[test]
fn position_pid_wire_round_trip() {
    let params = PositionPidParams {
        p: 0x00010000,
        i: 0x00008000,
        d: 0x00004000,
        max_i: 0x00002000,
        deadzone: 7,
        min: -32767,
        max: 32767,
    };
    let mut wire: Vec<u8> = Vec::new();
    push_position_pid(&mut wire, &params);
    assert_eq!(wire.len(), 28);
    let mut reply: Vec<u8> = Vec::new();
    push_i32_be(&mut reply, params.p);
    push_i32_be(&mut reply, params.i);
    push_i32_be(&mut reply, params.d);
    push_i32_be(&mut reply, params.max_i);
    push_i32_be(&mut reply, params.deadzone);
    push_i32_be(&mut reply, params.min);
    push_i32_be(&mut reply, params.max);
    let decoded = parse_position_pid(&reply).expect("28-byte reply must decode");
    assert_eq!(decoded, params);
}

#[test]
fn position_pid_reply_too_short() {
    let reply: [u8; 27] = [0; 27];
    assert!(parse_position_pid(&reply).is_err());
}

fn with_crc(body: &[u8]) -> Vec<u8> {
    let mut framed: Vec<u8> = body.to_vec();
    let crc: u16 = calc_crc(body);
    framed.push((crc >> 8) as u8);
    framed.push((crc & 0xff) as u8);
    framed
}

#[test]
fn drive_request_frames_are_byte_exact() {
    // Open-loop drive: command 6/7, speed clamped to 127, trailing CRC.
    assert_eq!(encode_drive_simply_request(0x80, 1, 100), with_crc(&[0x80, 6, 100]));
    assert_eq!(encode_drive_simply_request(0x80, 2, 200), with_crc(&[0x80, 7, 127]));
    // PWM drive: command 32/33, clamped big-endian i16, trailing CRC.
    assert_eq!(encode_drive_pwm_request(0x80, 1, 16000), with_crc(&[0x80, 32, 0x3e, 0x80]));
    assert_eq!(
        encode_drive_pwm_request(0x80, 2, -32768),
        with_crc(&[0x80, 33, 0x80, 0x01])
    );
}

#[test]
fn read_request_frames_are_byte_exact() {
    // Reads are sent without a CRC, as observed of the protocol.
    assert_eq!(encode_read_speed_request(0x80, 1), vec![0x80, 18]);
    assert_eq!(encode_read_speed_request(0x80, 2), vec![0x80, 19]);
    assert_eq!(encode_read_all_status_request(0x81), vec![0x81, 73]);
    assert_eq!(encode_read_velocity_pid_request(0x80, 2), vec![0x80, 56]);
    // Reset carries its CRC.
    assert_eq!(encode_reset_encoder_request(0x80), with_crc(&[0x80, 20]));
}

#[test]
fn pid_write_request_frames_are_byte_exact() {
    let vparams = VelocityPidParams { p: 0x00010000, i: 0x00008000, d: 0x00004000, qpps: 44000 };
    let mut vbody: Vec<u8> = vec![0x80, 28];
    vbody.extend_from_slice(&vparams.d.to_be_bytes());
    vbody.extend_from_slice(&vparams.p.to_be_bytes());
    vbody.extend_from_slice(&vparams.i.to_be_bytes());
    vbody.extend_from_slice(&vparams.qpps.to_be_bytes());
    assert_eq!(encode_write_velocity_pid_request(0x80, 1, &vparams), with_crc(&vbody));

    let pparams = PositionPidParams {
        p: 1,
        i: 2,
        d: 3,
        max_i: 4,
        deadzone: 5,
        min: -6,
        max: 7,
    };
    let mut pbody: Vec<u8> = vec![0x80, 62];
    pbody.extend_from_slice(&pparams.d.to_be_bytes());
    pbody.extend_from_slice(&pparams.p.to_be_bytes());
    pbody.extend_from_slice(&pparams.i.to_be_bytes());
    pbody.extend_from_slice(&pparams.max_i.to_be_bytes());
    pbody.extend_from_slice(&pparams.deadzone.to_be_bytes());
    pbody.extend_from_slice(&pparams.min.to_be_bytes());
    pbody.extend_from_slice(&pparams.max.to_be_bytes());
    assert_eq!(encode_write_position_pid_request(0x80, 2, &pparams), with_crc(&pbody));
}

