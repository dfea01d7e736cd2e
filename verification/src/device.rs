//! Device driver: every supported vendor command, encoded and validated
//! through the wire protocol, running against either the hardware backend
//! (a serial channel) or the simulation backend.

use vstd::prelude::*;
use crate::num::{clip, lemma_mul_bound, lemma_tdiv_bound, tdiv};
use crate::protocol::{
    be16, be_i32, be_u32, encode_drive_pwm_request, encode_drive_simply_request,
    encode_read_all_status_request, encode_read_currents_request,
    encode_read_position_pid_request, encode_read_pwm_request, encode_read_speed_request,
    encode_read_velocity_pid_request, encode_reset_encoder_request,
    encode_write_position_pid_request, encode_write_velocity_pid_request, i32_from_be_quad,
    parse_position_pid, parse_response, parse_velocity_pid, u16_from_be_pair, PositionPidParams,
    VelocityPidParams,
};
use crate::sim::{sim_evolves, sim_update, SimState};

verus! {

/// Declares serialport::TTYPort, the opened serial channel, as an opaque
/// outside type so the controller handle can hold it.
#[verifier::external_type_specification]
#[verifier::external_body]
pub struct ExTTYPort(serialport::TTYPort);

/// Relies on serialport::new, SerialPortBuilder::timeout and
/// SerialPortBuilder::open_native: opens the named port at the given baud
/// rate with a 100 ms I/O timeout, or reports the library's error.
#[verifier::external_body]
fn open_serial_port(port_name: &str, baud_rate: u32) -> (r: Result<serialport::TTYPort, String>) {
    serialport::new(port_name, baud_rate)
        .timeout(std::time::Duration::from_millis(100))
        .open_native()
        .map_err(|e| e.to_string())
}

/// Relies on std::io::Write::write_all for serialport::TTYPort: writes the
/// whole buffer or reports the I/O error.
#[verifier::external_body]
fn serial_write_all(port: &mut serialport::TTYPort, data: &[u8]) -> (r: Result<(), String>) {
    std::io::Write::write_all(port, data).map_err(|e| e.to_string())
}

/// Relies on std::io::Read::read for serialport::TTYPort: one bounded read
/// into a 1024-byte buffer, returning whatever arrived before the port's
/// timeout (possibly nothing), or the I/O error.
#[verifier::external_body]
fn serial_read_chunk(port: &mut serialport::TTYPort) -> (r: Result<Vec<u8>, String>)
    ensures
        r is Ok ==> r->Ok_0@.len() <= 1024,
{
    let mut buf = [0u8; 1024];
    match std::io::Read::read(port, &mut buf) {
        Ok(n) => Ok(buf[..n].to_vec()),
        Err(e) => Err(e.to_string()),
    }
}

/// Controller handle: device address, serial configuration and the
/// (possibly absent) open channel.
pub struct Roboclaw {
    pub addr: u8,
    pub baud_rate: u32,
    pub port_name: String,
    pub port: Option<serialport::TTYPort>,
}

/// The whole motor system threaded through every operation: the backend
/// selector flag, the controller handle and the simulation state.
pub struct MotorSystem {
    pub simulated: bool,
    pub controller: Roboclaw,
    pub sim: SimState,
}

impl MotorSystem {
    pub open spec fn wf(self) -> bool {
        self.sim.wf()
    }

    /// A fresh system in hardware mode with no channel open yet: device
    /// address 0x80, 115200 baud, simulation at rest.
    pub fn new(port_name: String) -> (r: MotorSystem)
        ensures
            r.wf(),
            !r.simulated,
            r.controller.addr == 0x80,
            r.controller.baud_rate == 115_200,
            r.controller.port_name == port_name,
            r.controller.port is None,
    {
        MotorSystem {
            simulated: false,
            controller: Roboclaw {
                addr: 0x80,
                baud_rate: 115_200,
                port_name,
                port: None,
            },
            sim: SimState::new(),
        }
    }
}

/// The controller's configuration (all but the opaque channel) is the same
/// in `post` as in `pre`.
pub open spec fn config_unchanged(pre: MotorSystem, post: MotorSystem) -> bool {
    &&& post.simulated == pre.simulated
    &&& post.controller.addr == pre.controller.addr
    &&& post.controller.baud_rate == pre.controller.baud_rate
    &&& post.controller.port_name == pre.controller.port_name
}

/// The reserved port name that selects the simulation backend.
pub open spec fn spec_simulated_port() -> Seq<char> {
    "simulated"@
}

/// The reserved port name that selects the simulation backend.
pub fn simulated_port() -> (r: &'static str)
    ensures
        r@ == spec_simulated_port(),
{
    "simulated"
}

/// Whether the system currently runs against the simulation backend.
pub fn is_simulation_enabled(sys: &MotorSystem) -> (r: bool)
    ensures
        r == sys.simulated,
{
    sys.simulated
}

/// Select the backend explicitly.
pub fn set_simulation_mode_sync(sys: &mut MotorSystem, enabled: bool) -> (r: Result<(), String>)
    ensures
        r is Ok,
        *final(sys) == (MotorSystem { simulated: enabled, ..*old(sys) }),
{
    sys.simulated = enabled;
    Ok(())
}

/// Write a request to the open channel; fails when no channel is open or
/// the write fails. The controller's configuration is untouched.
pub fn send_serial_locked(roboclaw: &mut Roboclaw, data: &[u8]) -> (r: Result<(), String>)
    ensures
        old(roboclaw).port is None ==> r is Err,
        final(roboclaw).addr == old(roboclaw).addr,
        final(roboclaw).baud_rate == old(roboclaw).baud_rate,
        final(roboclaw).port_name == old(roboclaw).port_name,
        final(roboclaw).port is Some <==> old(roboclaw).port is Some,
{
    match &mut roboclaw.port {
        Some(port) => serial_write_all(port, data),
        None => Err("Serial port not opened".to_owned()),
    }
}

/// One bounded-timeout read from the open channel. Zero bytes after the
/// timeout is an error distinct from an I/O error; on success the response
/// is nonempty and at most the 1024-byte buffer.
pub fn read_serial_locked(roboclaw: &mut Roboclaw) -> (r: Result<Vec<u8>, String>)
    ensures
        old(roboclaw).port is None ==> r is Err,
        r is Ok ==> 1 <= r->Ok_0@.len() <= 1024,
        final(roboclaw).addr == old(roboclaw).addr,
        final(roboclaw).baud_rate == old(roboclaw).baud_rate,
        final(roboclaw).port_name == old(roboclaw).port_name,
        final(roboclaw).port is Some <==> old(roboclaw).port is Some,
{
    match &mut roboclaw.port {
        Some(port) => {
            match serial_read_chunk(port) {
                Ok(bytes) => {
                    if bytes.len() > 0 {
                        Ok(bytes)
                    } else {
                        Err("No data received (timeout)".to_owned())
                    }
                },
                Err(e) => Err(e),
            }
        },
        None => Err("Serial port not opened".to_owned()),
    }
}

/// One request/response exchange: write the full request, then one bounded
/// read.
pub fn send_and_read(data: &[u8], roboclaw: &mut Roboclaw) -> (r: Result<Vec<u8>, String>)
    ensures
        old(roboclaw).port is None ==> r is Err,
        r is Ok ==> 1 <= r->Ok_0@.len() <= 1024,
        final(roboclaw).addr == old(roboclaw).addr,
        final(roboclaw).baud_rate == old(roboclaw).baud_rate,
        final(roboclaw).port_name == old(roboclaw).port_name,
        final(roboclaw).port is Some <==> old(roboclaw).port is Some,
{
    match send_serial_locked(roboclaw, data) {
        Ok(_) => read_serial_locked(roboclaw),
        Err(e) => Err(e),
    }
}

/// Whether a raw reply starts with the device's success byte 0xFF.
pub fn ack_ok(resp: &Vec<u8>) -> (r: bool)
    ensures
        r == (resp@.len() > 0 && resp@[0] == 0xff),
{
    resp.len() > 0 && resp[0] == 0xff
}

/// Reconfigure the baud rate; in hardware mode the channel is reopened at
/// the new rate (failing if that fails), in simulated mode only the stored
/// rate changes.
pub fn configure_baud_sync(sys: &mut MotorSystem, baud_rate: u32) -> (r: Result<(), String>)
    requires
        old(sys).wf(),
    ensures
        final(sys).wf(),
        final(sys).simulated == old(sys).simulated,
        final(sys).controller.addr == old(sys).controller.addr,
        final(sys).controller.port_name == old(sys).controller.port_name,
        final(sys).controller.baud_rate == baud_rate,
        final(sys).sim == old(sys).sim,
        old(sys).simulated ==> r is Ok && final(sys).controller == (Roboclaw {
            baud_rate,
            ..old(sys).controller
        }),
        r is Ok && !old(sys).simulated ==> final(sys).controller.port is Some,
{
    sys.controller.baud_rate = baud_rate;
    if sys.simulated {
        return Ok(());
    }
    sys.controller.port = None;
    match open_serial_port(sys.controller.port_name.as_str(), baud_rate) {
        Ok(port) => {
            sys.controller.port = Some(port);
            Ok(())
        },
        Err(e) => Err(e),
    }
}

/// Reconfigure the port. The reserved sentinel name switches to the
/// simulation backend without touching any channel; any other name selects
/// hardware mode and opens the channel at the given (or previous) baud
/// rate.
pub fn configure_port_sync(sys: &mut MotorSystem, port_name: String, baud_rate: Option<u32>) -> (r:
    Result<(), String>)
    requires
        old(sys).wf(),
    ensures
        final(sys).wf(),
        final(sys).sim == old(sys).sim,
        final(sys).controller.addr == old(sys).controller.addr,
        final(sys).controller.port_name@ == port_name@,
        port_name@ == spec_simulated_port() ==> r is Ok && final(sys).simulated
            && final(sys).controller.port is None
            && final(sys).controller.baud_rate == old(sys).controller.baud_rate,
        port_name@ != spec_simulated_port() ==> !final(sys).simulated
            && final(sys).controller.baud_rate == (if baud_rate is Some {
            baud_rate->0
        } else {
            old(sys).controller.baud_rate
        }),
        port_name@ != spec_simulated_port() && r is Ok ==> final(sys).controller.port is Some,
{
    let sentinel: String = simulated_port().to_owned();
    if port_name == sentinel {
        sys.simulated = true;
        sys.controller.port = None;
        sys.controller.port_name = port_name;
        return Ok(());
    }
    sys.simulated = false;
    let baud: u32 = match baud_rate {
        Some(b) => b,
        None => sys.controller.baud_rate,
    };
    sys.controller.port = None;
    sys.controller.port_name = port_name;
    sys.controller.baud_rate = baud;
    match open_serial_port(sys.controller.port_name.as_str(), baud) {
        Ok(port) => {
            sys.controller.port = Some(port);
            Ok(())
        },
        Err(e) => Err(e),
    }
}

/// The simulation with an open-loop speed command stored for the addressed
/// motor (any index other than 1 or 2 stores nothing).
pub open spec fn set_speed_cmd(s: SimState, speed: u8, motor_index: u8) -> SimState {
    if motor_index == 1 {
        SimState { m1_speed: speed, m1_mode_pwm: false, ..s }
    } else if motor_index == 2 {
        SimState { m2_speed: speed, m2_mode_pwm: false, ..s }
    } else {
        s
    }
}

/// The simulation with a PWM duty command stored for the addressed motor
/// (any index other than 1 addresses motor 2, as the hardware command code
/// selection does).
pub open spec fn set_pwm_cmd(s: SimState, pwm: i16, motor_index: u8) -> SimState {
    if motor_index == 1 {
        SimState { m1_pwm: pwm, m1_mode_pwm: true, ..s }
    } else {
        SimState { m2_pwm: pwm, m2_mode_pwm: true, ..s }
    }
}

/// `post` is `pre` lazily advanced by the wall clock, then with the speed
/// command applied.
pub open spec fn sim_speed_applied(pre: SimState, post: SimState, speed: u8, motor_index: u8) -> bool {
    exists|mid: SimState| #[trigger] sim_evolves(pre, mid) && post == set_speed_cmd(mid, speed, motor_index)
}

/// `post` is `pre` lazily advanced by the wall clock, then with the PWM
/// command applied.
pub open spec fn sim_pwm_applied(pre: SimState, post: SimState, pwm: i16, motor_index: u8) -> bool {
    exists|mid: SimState| #[trigger] sim_evolves(pre, mid) && post == set_pwm_cmd(mid, pwm, motor_index)
}

/// Drive a motor with an open-loop speed command (0-127, centered at 64).
/// Command 6 drives motor 1, command 7 motor 2; the speed byte is clamped
/// to 127; the device acknowledges with 0xFF. The hardware request is
/// exactly `spec_drive_simply_request`, by the encoder's contract.
pub fn drive_simply_sync(sys: &mut MotorSystem, speed: u8, motor_index: u8) -> (r: Result<
    (),
    String,
>)
    requires
        old(sys).wf(),
    ensures
        final(sys).wf(),
        config_unchanged(*old(sys), *final(sys)),
        old(sys).simulated ==> final(sys).controller == old(sys).controller,
        old(sys).simulated ==> r is Ok && sim_speed_applied(
            old(sys).sim,
            final(sys).sim,
            speed,
            motor_index,
        ),
        !old(sys).simulated ==> final(sys).sim == old(sys).sim,
        !old(sys).simulated && old(sys).controller.port is None ==> r is Err,
{
    if sys.simulated {
        sim_update(&mut sys.sim);
        let ghost mid: SimState = sys.sim;
        if motor_index == 1 {
            sys.sim.m1_speed = speed;
            sys.sim.m1_mode_pwm = false;
        } else if motor_index == 2 {
            sys.sim.m2_speed = speed;
            sys.sim.m2_mode_pwm = false;
        }
        proof {
            assert(sys.sim == set_speed_cmd(mid, speed, motor_index));
        }
        return Ok(());
    }
    let data: Vec<u8> = encode_drive_simply_request(sys.controller.addr, motor_index, speed);
    let response: Vec<u8> = match send_and_read(data.as_slice(), &mut sys.controller) {
        Ok(v) => v,
        Err(e) => {
            return Err(e);
        },
    };
    if ack_ok(&response) {
        Ok(())
    } else {
        Err("Failed to drive motor".to_owned())
    }
}

/// Drive a motor with a raw signed PWM duty command (command 32 or 33,
/// big-endian i16 clamped to [-32767, 32767]); the device acknowledges
/// with 0xFF. The hardware request is exactly `spec_drive_pwm_request`,
/// by the encoder's contract.
pub fn drive_pwm_sync(sys: &mut MotorSystem, pwm: i16, motor_index: u8) -> (r: Result<(), String>)
    requires
        old(sys).wf(),
    ensures
        final(sys).wf(),
        config_unchanged(*old(sys), *final(sys)),
        old(sys).simulated ==> final(sys).controller == old(sys).controller,
        old(sys).simulated ==> r is Ok && sim_pwm_applied(
            old(sys).sim,
            final(sys).sim,
            pwm,
            motor_index,
        ),
        !old(sys).simulated ==> final(sys).sim == old(sys).sim,
        !old(sys).simulated && old(sys).controller.port is None ==> r is Err,
{
    if sys.simulated {
        sim_update(&mut sys.sim);
        let ghost mid: SimState = sys.sim;
        if motor_index == 1 {
            sys.sim.m1_pwm = pwm;
            sys.sim.m1_mode_pwm = true;
        } else {
            sys.sim.m2_pwm = pwm;
            sys.sim.m2_mode_pwm = true;
        }
        proof {
            assert(sys.sim == set_pwm_cmd(mid, pwm, motor_index));
        }
        return Ok(());
    }
    let data: Vec<u8> = encode_drive_pwm_request(sys.controller.addr, motor_index, pwm);
    let response: Vec<u8> = match send_and_read(data.as_slice(), &mut sys.controller) {
        Ok(v) => v,
        Err(e) => {
            return Err(e);
        },
    };
    if ack_ok(&response) {
        Ok(())
    } else {
        Err("Failed to drive motor PWM".to_owned())
    }
}

/// Rounding of a milli-pulses-per-second velocity to whole pulses per
/// second, halves away from zero.
pub open spec fn spec_round_mpps(v: int) -> int {
    if v >= 0 {
        tdiv(v + 500, 1000)
    } else {
        tdiv(v - 500, 1000)
    }
}

/// Round a milli-pps velocity to whole pps, halves away from zero.
pub fn round_mpps_to_pps(v: i64) -> (r: i32)
    requires
        -crate::sim::VEL_LIMIT_MPPS <= v <= crate::sim::VEL_LIMIT_MPPS,
    ensures
        r as int == spec_round_mpps(v as int),
{
    let w: i64 = if v >= 0 {
        (v + 500) / 1000
    } else {
        (v - 500) / 1000
    };
    w as i32
}

/// Decode a read-speed reply: a 32-bit magnitude and one direction byte
/// (0 forward, 1 reverse, anything else is an error). A reverse magnitude
/// of 2^31 wraps to i32::MIN.
pub fn decode_speed_reply(payload: &[u8]) -> (r: Result<i32, String>)
    ensures
        r is Ok <==> payload@.len() >= 5 && (payload@[4] == 0 || payload@[4] == 1),
        payload@.len() >= 5 && payload@[4] == 0 ==> r == Ok::<i32, String>(
            be_u32(payload@[0], payload@[1], payload@[2], payload@[3]) as i32,
        ),
        payload@.len() >= 5 && payload@[4] == 1 ==> r == Ok::<i32, String>(
            ((0 - be_u32(payload@[0], payload@[1], payload@[2], payload@[3]) as i32) as i32),
        ),
{
    if payload.len() < 5 {
        return Err("Invalid response".to_owned());
    }
    let magnitude: u32 = crate::protocol::u32_from_be_quad(
        payload[0],
        payload[1],
        payload[2],
        payload[3],
    );
    let status: u8 = payload[4];
    if status == 0 {
        Ok(magnitude as i32)
    } else if status == 1 {
        let neg: i32 = #[verifier::truncate] ((0i64 - (magnitude as i32) as i64) as i32);
        Ok(neg)
    } else {
        Err("Invalid value".to_owned())
    }
}

/// Read a motor's speed in pulses per second (command 18 or 19). In
/// simulated mode this is the lazily updated plant velocity, rounded.
/// The hardware request is exactly `spec_read_speed_request`.
pub fn read_speed_sync(sys: &mut MotorSystem, motor_index: u8) -> (r: Result<i32, String>)
    requires
        old(sys).wf(),
    ensures
        final(sys).wf(),
        config_unchanged(*old(sys), *final(sys)),
        old(sys).simulated ==> final(sys).controller == old(sys).controller,
        old(sys).simulated ==> r is Ok && sim_evolves(old(sys).sim, final(sys).sim)
            && r->Ok_0 as int == spec_round_mpps(
            (if motor_index == 1 {
                final(sys).sim.m1_vel
            } else {
                final(sys).sim.m2_vel
            }) as int,
        ),
        !old(sys).simulated ==> final(sys).sim == old(sys).sim,
        !old(sys).simulated && old(sys).controller.port is None ==> r is Err,
{
    if sys.simulated {
        sim_update(&mut sys.sim);
        let vel: i64 = if motor_index == 1 {
            sys.sim.m1_vel
        } else {
            sys.sim.m2_vel
        };
        return Ok(round_mpps_to_pps(vel));
    }
    let cmd: u8 = if motor_index == 1 {
        18
    } else {
        19
    };
    let data: Vec<u8> = encode_read_speed_request(sys.controller.addr, motor_index);
    let response: Vec<u8> = match send_and_read(data.as_slice(), &mut sys.controller) {
        Ok(v) => v,
        Err(e) => {
            return Err(e);
        },
    };
    let addr: u8 = sys.controller.addr;
    match parse_response(response.as_slice(), addr, cmd) {
        Ok(payload) => decode_speed_reply(payload),
        Err(_) => Err("Invalid response".to_owned()),
    }
}

/// The full status record (command 73): 20 named fields.
#[derive(Debug, Clone, Copy, PartialEq, Eq, Structural)]
pub struct AllStatus {
    pub timertick: u32,
    pub errors: u32,
    pub temp1: i16,
    pub temp2: i16,
    pub main_batt: i16,
    pub logic_batt: i16,
    pub m1_pwm: i16,
    pub m2_pwm: i16,
    pub m1_current: i16,
    pub m2_current: i16,
    pub m1_encoder: i64,
    pub m2_encoder: i64,
    pub m1_speed: i32,
    pub m2_speed: i32,
    pub m1_ispeed: i32,
    pub m2_ispeed: i32,
    pub m1_speed_err: i16,
    pub m2_speed_err: i16,
    pub m1_pos_err: i16,
    pub m2_pos_err: i16,
}

/// Field layout of a 56-byte read-all-status reply.
pub open spec fn all_status_from_reply(s: Seq<u8>) -> AllStatus {
    AllStatus {
        timertick: crate::protocol::be_u32(s[0], s[1], s[2], s[3]),
        errors: crate::protocol::be_u32(s[4], s[5], s[6], s[7]),
        temp1: crate::protocol::be_i16(s[8], s[9]),
        temp2: crate::protocol::be_i16(s[10], s[11]),
        main_batt: crate::protocol::be_i16(s[12], s[13]),
        logic_batt: crate::protocol::be_i16(s[14], s[15]),
        m1_pwm: crate::protocol::be_i16(s[16], s[17]),
        m2_pwm: crate::protocol::be_i16(s[18], s[19]),
        m1_current: crate::protocol::be_i16(s[20], s[21]),
        m2_current: crate::protocol::be_i16(s[22], s[23]),
        m1_encoder: be_i32(s[24], s[25], s[26], s[27]) as i64,
        m2_encoder: be_i32(s[28], s[29], s[30], s[31]) as i64,
        m1_speed: be_i32(s[32], s[33], s[34], s[35]),
        m2_speed: be_i32(s[36], s[37], s[38], s[39]),
        m1_ispeed: be_i32(s[40], s[41], s[42], s[43]),
        m2_ispeed: be_i32(s[44], s[45], s[46], s[47]),
        m1_speed_err: crate::protocol::be_i16(s[48], s[49]),
        m2_speed_err: crate::protocol::be_i16(s[50], s[51]),
        m1_pos_err: crate::protocol::be_i16(s[52], s[53]),
        m2_pos_err: crate::protocol::be_i16(s[54], s[55]),
    }
}

/// Decode a read-all-status reply; fails when shorter than 56 bytes.
pub fn decode_all_status(payload: &[u8]) -> (r: Result<AllStatus, String>)
    ensures
        r is Ok <==> payload@.len() >= 56,
        r is Ok ==> r->Ok_0 == all_status_from_reply(payload@),
{
    if payload.len() < 56 {
        return Err("Invalid response length for Read All Status".to_owned());
    }
    Ok(
        AllStatus {
            timertick: crate::protocol::u32_from_be_quad(
                payload[0],
                payload[1],
                payload[2],
                payload[3],
            ),
            errors: crate::protocol::u32_from_be_quad(
                payload[4],
                payload[5],
                payload[6],
                payload[7],
            ),
            temp1: crate::protocol::i16_from_be_pair(payload[8], payload[9]),
            temp2: crate::protocol::i16_from_be_pair(payload[10], payload[11]),
            main_batt: crate::protocol::i16_from_be_pair(payload[12], payload[13]),
            logic_batt: crate::protocol::i16_from_be_pair(payload[14], payload[15]),
            m1_pwm: crate::protocol::i16_from_be_pair(payload[16], payload[17]),
            m2_pwm: crate::protocol::i16_from_be_pair(payload[18], payload[19]),
            m1_current: crate::protocol::i16_from_be_pair(payload[20], payload[21]),
            m2_current: crate::protocol::i16_from_be_pair(payload[22], payload[23]),
            m1_encoder: i32_from_be_quad(payload[24], payload[25], payload[26], payload[27])
                as i64,
            m2_encoder: i32_from_be_quad(payload[28], payload[29], payload[30], payload[31])
                as i64,
            m1_speed: i32_from_be_quad(payload[32], payload[33], payload[34], payload[35]),
            m2_speed: i32_from_be_quad(payload[36], payload[37], payload[38], payload[39]),
            m1_ispeed: i32_from_be_quad(payload[40], payload[41], payload[42], payload[43]),
            m2_ispeed: i32_from_be_quad(payload[44], payload[45], payload[46], payload[47]),
            m1_speed_err: crate::protocol::i16_from_be_pair(payload[48], payload[49]),
            m2_speed_err: crate::protocol::i16_from_be_pair(payload[50], payload[51]),
            m1_pos_err: crate::protocol::i16_from_be_pair(payload[52], payload[53]),
            m2_pos_err: crate::protocol::i16_from_be_pair(payload[54], payload[55]),
        },
    )
}

/// The status record the simulation reports: stored PWM, encoder counts and
/// rounded velocities; everything the simulation does not model is zero.
pub open spec fn spec_sim_status(s: SimState) -> AllStatus {
    AllStatus {
        timertick: 0,
        errors: 0,
        temp1: 0,
        temp2: 0,
        main_batt: 0,
        logic_batt: 0,
        m1_pwm: s.m1_pwm,
        m2_pwm: s.m2_pwm,
        m1_current: 0,
        m2_current: 0,
        m1_encoder: s.m1_encoder,
        m2_encoder: s.m2_encoder,
        m1_speed: spec_round_mpps(s.m1_vel as int) as i32,
        m2_speed: spec_round_mpps(s.m2_vel as int) as i32,
        m1_ispeed: 0,
        m2_ispeed: 0,
        m1_speed_err: 0,
        m2_speed_err: 0,
        m1_pos_err: 0,
        m2_pos_err: 0,
    }
}

/// Read the full status record (command 73). In simulated mode it is
/// derived from the lazily updated simulation state. The hardware request
/// is exactly `spec_read_all_status_request`.
pub fn read_all_status_sync(sys: &mut MotorSystem) -> (r: Result<AllStatus, String>)
    requires
        old(sys).wf(),
    ensures
        final(sys).wf(),
        config_unchanged(*old(sys), *final(sys)),
        old(sys).simulated ==> final(sys).controller == old(sys).controller,
        old(sys).simulated ==> r is Ok && sim_evolves(old(sys).sim, final(sys).sim) && r
            == Ok::<AllStatus, String>(spec_sim_status(final(sys).sim)),
        !old(sys).simulated ==> final(sys).sim == old(sys).sim,
        !old(sys).simulated && old(sys).controller.port is None ==> r is Err,
{
    if sys.simulated {
        sim_update(&mut sys.sim);
        let m1_speed: i32 = round_mpps_to_pps(sys.sim.m1_vel);
        let m2_speed: i32 = round_mpps_to_pps(sys.sim.m2_vel);
        return Ok(
            AllStatus {
                timertick: 0,
                errors: 0,
                temp1: 0,
                temp2: 0,
                main_batt: 0,
                logic_batt: 0,
                m1_pwm: sys.sim.m1_pwm,
                m2_pwm: sys.sim.m2_pwm,
                m1_current: 0,
                m2_current: 0,
                m1_encoder: sys.sim.m1_encoder,
                m2_encoder: sys.sim.m2_encoder,
                m1_speed,
                m2_speed,
                m1_ispeed: 0,
                m2_ispeed: 0,
                m1_speed_err: 0,
                m2_speed_err: 0,
                m1_pos_err: 0,
                m2_pos_err: 0,
            },
        );
    }
    let cmd: u8 = 73;
    let data: Vec<u8> = encode_read_all_status_request(sys.controller.addr);
    let response: Vec<u8> = match send_and_read(data.as_slice(), &mut sys.controller) {
        Ok(v) => v,
        Err(e) => {
            return Err(e);
        },
    };
    let addr: u8 = sys.controller.addr;
    match parse_response(response.as_slice(), addr, cmd) {
        Ok(payload) => decode_all_status(payload),
        Err(e) => Err(e),
    }
}

/// The simulated current draw of one motor: 15 units per pulse/s of speed.
pub open spec fn spec_sim_current(vel: int) -> int {
    clip(
        tdiv((if vel >= 0 {
            vel
        } else {
            -vel
        }) * 15, 1000),
        0,
        0xffff_ffff,
    )
}

/// Decode a read-currents reply: two big-endian 16-bit values.
pub fn decode_currents(payload: &[u8]) -> (r: Result<(u32, u32), String>)
    ensures
        r is Ok <==> payload@.len() >= 4,
        r is Ok ==> r->Ok_0.0 == be16(payload@[0], payload@[1]) as u32 && r->Ok_0.1 == be16(
            payload@[2],
            payload@[3],
        ) as u32,
{
    if payload.len() < 4 {
        return Err("Failed to parse".to_owned());
    }
    let m1: u32 = u16_from_be_pair(payload[0], payload[1]) as u32;
    let m2: u32 = u16_from_be_pair(payload[2], payload[3]) as u32;
    Ok((m1, m2))
}

/// Read both motors' current draw (command 49). The hardware request is
/// exactly `spec_read_currents_request`.
pub fn read_motor_currents_sync(sys: &mut MotorSystem) -> (r: Result<(u32, u32), String>)
    requires
        old(sys).wf(),
    ensures
        final(sys).wf(),
        config_unchanged(*old(sys), *final(sys)),
        old(sys).simulated ==> final(sys).controller == old(sys).controller,
        old(sys).simulated ==> r is Ok && sim_evolves(old(sys).sim, final(sys).sim)
            && r->Ok_0.0 as int == spec_sim_current(final(sys).sim.m1_vel as int)
            && r->Ok_0.1 as int == spec_sim_current(final(sys).sim.m2_vel as int),
        !old(sys).simulated ==> final(sys).sim == old(sys).sim,
        !old(sys).simulated && old(sys).controller.port is None ==> r is Err,
{
    if sys.simulated {
        sim_update(&mut sys.sim);
        let m1: u32 = sim_current_of(sys.sim.m1_vel);
        let m2: u32 = sim_current_of(sys.sim.m2_vel);
        return Ok((m1, m2));
    }
    let cmd: u8 = 49;
    let data: Vec<u8> = encode_read_currents_request(sys.controller.addr);
    let response: Vec<u8> = match send_and_read(data.as_slice(), &mut sys.controller) {
        Ok(v) => v,
        Err(e) => {
            return Err(e);
        },
    };
    let addr: u8 = sys.controller.addr;
    match parse_response(response.as_slice(), addr, cmd) {
        Ok(payload) => decode_currents(payload),
        Err(_) => Err("Failed to parse".to_owned()),
    }
}

fn sim_current_of(vel: i64) -> (r: u32)
    requires
        -crate::sim::VEL_LIMIT_MPPS <= vel <= crate::sim::VEL_LIMIT_MPPS,
    ensures
        r as int == spec_sim_current(vel as int),
{
    let a: i64 = if vel >= 0 {
        vel
    } else {
        -vel
    };
    proof {
        lemma_mul_bound(a as int, 15, crate::sim::VEL_LIMIT_MPPS as int, 15);
    }
    let scaled: i64 = a * 15 / 1000;
    if scaled > 0xffff_ffff {
        0xffff_ffff
    } else {
        scaled as u32
    }
}

/// The simulated PWM readback of one motor: the stored duty in PWM mode,
/// otherwise the velocity scaled as if 120 pulses/s were full duty.
pub open spec fn spec_sim_pwm_readback(mode_pwm: bool, pwm: i16, vel: int) -> int {
    if mode_pwm {
        pwm as int
    } else {
        clip(tdiv(vel * 32767, 120_000), -32767, 32767)
    }
}

/// Decode a PWM-readback reply: two big-endian signed 16-bit duties.
pub fn decode_pwm_readback(payload: &[u8]) -> (r: Result<(i32, i32), String>)
    ensures
        r is Ok <==> payload@.len() >= 4,
        r is Ok ==> r->Ok_0.0 == crate::protocol::be_i16(payload@[0], payload@[1]) as i32
            && r->Ok_0.1 == crate::protocol::be_i16(payload@[2], payload@[3]) as i32,
{
    if payload.len() < 4 {
        return Err("Failed to parse".to_owned());
    }
    let m1: i32 = crate::protocol::i16_from_be_pair(payload[0], payload[1]) as i32;
    let m2: i32 = crate::protocol::i16_from_be_pair(payload[2], payload[3]) as i32;
    Ok((m1, m2))
}

/// Read both motors' PWM duty readback (command 48). The hardware request
/// is exactly `spec_read_pwm_request`.
pub fn read_pwm_values_sync(sys: &mut MotorSystem) -> (r: Result<(i32, i32), String>)
    requires
        old(sys).wf(),
    ensures
        final(sys).wf(),
        config_unchanged(*old(sys), *final(sys)),
        old(sys).simulated ==> final(sys).controller == old(sys).controller,
        old(sys).simulated ==> r is Ok && sim_evolves(old(sys).sim, final(sys).sim)
            && r->Ok_0.0 as int == spec_sim_pwm_readback(
            final(sys).sim.m1_mode_pwm,
            final(sys).sim.m1_pwm,
            final(sys).sim.m1_vel as int,
        ) && r->Ok_0.1 as int == spec_sim_pwm_readback(
            final(sys).sim.m2_mode_pwm,
            final(sys).sim.m2_pwm,
            final(sys).sim.m2_vel as int,
        ),
        !old(sys).simulated ==> final(sys).sim == old(sys).sim,
        !old(sys).simulated && old(sys).controller.port is None ==> r is Err,
{
    if sys.simulated {
        sim_update(&mut sys.sim);
        let m1: i32 = sim_pwm_readback_of(sys.sim.m1_mode_pwm, sys.sim.m1_pwm, sys.sim.m1_vel);
        let m2: i32 = sim_pwm_readback_of(sys.sim.m2_mode_pwm, sys.sim.m2_pwm, sys.sim.m2_vel);
        return Ok((m1, m2));
    }
    let cmd: u8 = 48;
    let data: Vec<u8> = encode_read_pwm_request(sys.controller.addr);
    let response: Vec<u8> = match send_and_read(data.as_slice(), &mut sys.controller) {
        Ok(v) => v,
        Err(e) => {
            return Err(e);
        },
    };
    let addr: u8 = sys.controller.addr;
    match parse_response(response.as_slice(), addr, cmd) {
        Ok(payload) => decode_pwm_readback(payload),
        Err(e) => Err(e),
    }
}

fn sim_pwm_readback_of(mode_pwm: bool, pwm: i16, vel: i64) -> (r: i32)
    requires
        -crate::sim::VEL_LIMIT_MPPS <= vel <= crate::sim::VEL_LIMIT_MPPS,
    ensures
        r as int == spec_sim_pwm_readback(mode_pwm, pwm, vel as int),
{
    if mode_pwm {
        pwm as i32
    } else {
        proof {
            lemma_mul_bound(vel as int, 32767, crate::sim::VEL_LIMIT_MPPS as int, 32767);
            lemma_tdiv_bound(
                vel as int * 32767,
                120_000,
                crate::sim::VEL_LIMIT_MPPS as int * 32767,
            );
        }
        let scaled: i64 = vel * 32767 / 120_000;
        if scaled < -32767 {
            -32767
        } else if scaled > 32767 {
            32767
        } else {
            scaled as i32
        }
    }
}

/// Reset the encoders (command 20). In simulated mode the speed bytes
/// recenter, PWM clears, both modes leave PWM, velocities drop to rest,
/// and the cumulative encoder counts are zeroed, as the device-side reset
/// zeroes its counters. The hardware request is exactly
/// `spec_reset_encoder_request`.
pub fn reset_encoder_sync(sys: &mut MotorSystem) -> (r: Result<(), String>)
    requires
        old(sys).wf(),
    ensures
        final(sys).wf(),
        config_unchanged(*old(sys), *final(sys)),
        old(sys).simulated ==> final(sys).controller == old(sys).controller,
        old(sys).simulated ==> r is Ok && final(sys).sim == (SimState {
            m1_speed: 64,
            m2_speed: 64,
            m1_pwm: 0,
            m2_pwm: 0,
            m1_mode_pwm: false,
            m2_mode_pwm: false,
            m1_vel: 0,
            m2_vel: 0,
            m1_encoder: 0,
            m2_encoder: 0,
            ..old(sys).sim
        }),
        !old(sys).simulated ==> final(sys).sim == old(sys).sim,
        !old(sys).simulated && old(sys).controller.port is None ==> r is Err,
{
    if sys.simulated {
        sys.sim.m1_speed = 64;
        sys.sim.m2_speed = 64;
        sys.sim.m1_pwm = 0;
        sys.sim.m2_pwm = 0;
        sys.sim.m1_mode_pwm = false;
        sys.sim.m2_mode_pwm = false;
        sys.sim.m1_vel = 0;
        sys.sim.m2_vel = 0;
        sys.sim.m1_encoder = 0;
        sys.sim.m2_encoder = 0;
        return Ok(());
    }
    let cmd: u8 = 20;
    let data: Vec<u8> = encode_reset_encoder_request(sys.controller.addr);
    let response: Vec<u8> = match send_and_read(data.as_slice(), &mut sys.controller) {
        Ok(v) => v,
        Err(e) => {
            return Err(e);
        },
    };
    let addr: u8 = sys.controller.addr;
    let payload: Vec<u8> = match parse_response(response.as_slice(), addr, cmd) {
        Ok(p) => vstd::slice::slice_to_vec(p),
        Err(e) => {
            return Err(e);
        },
    };
    if ack_ok(&payload) {
        Ok(())
    } else {
        Err("Failed to reset encoder".to_owned())
    }
}

/// Read the velocity PID constants for a motor (command 55 or 56, sent
/// without a CRC as the protocol defines for these reads). In simulated
/// mode the stored parameter set is returned unchanged. The hardware
/// request is exactly `spec_read_velocity_pid_request`.
pub fn read_velocity_pid_sync(sys: &mut MotorSystem, motor_index: u8) -> (r: Result<
    VelocityPidParams,
    String,
>)
    requires
        old(sys).wf(),
    ensures
        final(sys).wf(),
        config_unchanged(*old(sys), *final(sys)),
        old(sys).simulated ==> *final(sys) == *old(sys) && r == Ok::<VelocityPidParams, String>(
            if motor_index == 1 {
                old(sys).sim.m1_velocity_pid
            } else {
                old(sys).sim.m2_velocity_pid
            },
        ),
        !old(sys).simulated ==> final(sys).sim == old(sys).sim,
        !old(sys).simulated && old(sys).controller.port is None ==> r is Err,
{
    if sys.simulated {
        if motor_index == 1 {
            return Ok(sys.sim.m1_velocity_pid);
        } else {
            return Ok(sys.sim.m2_velocity_pid);
        }
    }
    let cmd: u8 = if motor_index == 1 {
        55
    } else {
        56
    };
    let data: Vec<u8> = encode_read_velocity_pid_request(sys.controller.addr, motor_index);
    let response: Vec<u8> = match send_and_read(data.as_slice(), &mut sys.controller) {
        Ok(v) => v,
        Err(e) => {
            return Err(e);
        },
    };
    let addr: u8 = sys.controller.addr;
    match parse_response(response.as_slice(), addr, cmd) {
        Ok(payload) => parse_velocity_pid(payload),
        Err(e) => Err(e),
    }
}

/// Write the velocity PID constants for a motor (command 28 or 29; wire
/// order D, P, I, QPPS). In simulated mode the stored set is replaced.
/// The hardware request is exactly `spec_write_velocity_pid_request`.
pub fn set_velocity_pid_sync(sys: &mut MotorSystem, motor_index: u8, params: VelocityPidParams) -> (r:
    Result<(), String>)
    requires
        old(sys).wf(),
    ensures
        final(sys).wf(),
        config_unchanged(*old(sys), *final(sys)),
        old(sys).simulated ==> final(sys).controller == old(sys).controller,
        old(sys).simulated ==> r is Ok && final(sys).sim == (if motor_index == 1 {
            SimState { m1_velocity_pid: params, ..old(sys).sim }
        } else {
            SimState { m2_velocity_pid: params, ..old(sys).sim }
        }),
        !old(sys).simulated ==> final(sys).sim == old(sys).sim,
        !old(sys).simulated && old(sys).controller.port is None ==> r is Err,
{
    if sys.simulated {
        if motor_index == 1 {
            sys.sim.m1_velocity_pid = params;
        } else {
            sys.sim.m2_velocity_pid = params;
        }
        return Ok(());
    }
    let cmd: u8 = if motor_index == 1 {
        28
    } else {
        29
    };
    let data: Vec<u8> = encode_write_velocity_pid_request(sys.controller.addr, motor_index, &params);
    let response: Vec<u8> = match send_and_read(data.as_slice(), &mut sys.controller) {
        Ok(v) => v,
        Err(e) => {
            return Err(e);
        },
    };
    let addr: u8 = sys.controller.addr;
    let payload: Vec<u8> = match parse_response(response.as_slice(), addr, cmd) {
        Ok(p) => vstd::slice::slice_to_vec(p),
        Err(e) => {
            return Err(e);
        },
    };
    if ack_ok(&payload) {
        Ok(())
    } else {
        Err("Failed to set velocity PID".to_owned())
    }
}

/// Read the position PID constants for a motor (command 63 or 64, sent
/// without a CRC as the protocol defines for these reads). The hardware
/// request is exactly `spec_read_position_pid_request`.
pub fn read_position_pid_sync(sys: &mut MotorSystem, motor_index: u8) -> (r: Result<
    PositionPidParams,
    String,
>)
    requires
        old(sys).wf(),
    ensures
        final(sys).wf(),
        config_unchanged(*old(sys), *final(sys)),
        old(sys).simulated ==> *final(sys) == *old(sys) && r == Ok::<PositionPidParams, String>(
            if motor_index == 1 {
                old(sys).sim.m1_position_pid
            } else {
                old(sys).sim.m2_position_pid
            },
        ),
        !old(sys).simulated ==> final(sys).sim == old(sys).sim,
        !old(sys).simulated && old(sys).controller.port is None ==> r is Err,
{
    if sys.simulated {
        if motor_index == 1 {
            return Ok(sys.sim.m1_position_pid);
        } else {
            return Ok(sys.sim.m2_position_pid);
        }
    }
    let cmd: u8 = if motor_index == 1 {
        63
    } else {
        64
    };
    let data: Vec<u8> = encode_read_position_pid_request(sys.controller.addr, motor_index);
    let response: Vec<u8> = match send_and_read(data.as_slice(), &mut sys.controller) {
        Ok(v) => v,
        Err(e) => {
            return Err(e);
        },
    };
    let addr: u8 = sys.controller.addr;
    match parse_response(response.as_slice(), addr, cmd) {
        Ok(payload) => parse_position_pid(payload),
        Err(e) => Err(e),
    }
}

/// Write the position PID constants for a motor (command 61 or 62; wire
/// order D, P, I, MaxI, Deadzone, Min, Max). The hardware request is
/// exactly `spec_write_position_pid_request`.
pub fn set_position_pid_sync(sys: &mut MotorSystem, motor_index: u8, params: PositionPidParams) -> (r:
    Result<(), String>)
    requires
        old(sys).wf(),
    ensures
        final(sys).wf(),
        config_unchanged(*old(sys), *final(sys)),
        old(sys).simulated ==> final(sys).controller == old(sys).controller,
        old(sys).simulated ==> r is Ok && final(sys).sim == (if motor_index == 1 {
            SimState { m1_position_pid: params, ..old(sys).sim }
        } else {
            SimState { m2_position_pid: params, ..old(sys).sim }
        }),
        !old(sys).simulated ==> final(sys).sim == old(sys).sim,
        !old(sys).simulated && old(sys).controller.port is None ==> r is Err,
{
    if sys.simulated {
        if motor_index == 1 {
            sys.sim.m1_position_pid = params;
        } else {
            sys.sim.m2_position_pid = params;
        }
        return Ok(());
    }
    let cmd: u8 = if motor_index == 1 {
        61
    } else {
        62
    };
    let data: Vec<u8> = encode_write_position_pid_request(sys.controller.addr, motor_index, &params);
    let response: Vec<u8> = match send_and_read(data.as_slice(), &mut sys.controller) {
        Ok(v) => v,
        Err(e) => {
            return Err(e);
        },
    };
    let addr: u8 = sys.controller.addr;
    let payload: Vec<u8> = match parse_response(response.as_slice(), addr, cmd) {
        Ok(p) => vstd::slice::slice_to_vec(p),
        Err(e) => {
            return Err(e);
        },
    };
    if ack_ok(&payload) {
        Ok(())
    } else {
        Err("Failed to set PID".to_owned())
    }
}

} // verus!
