use vstd::prelude::*;

use crate::codec::{
    encode_frame, frame_bytes, verify_ack, ACK, ENQ, LETTER_C, LETTER_D, LETTER_F, LETTER_Q,
    LETTER_R, LETTER_S, SP,
};
use crate::device::Device;
use crate::duty::{decode_duty, decode_duty_spec, encode_duty, encode_duty_spec, DUTY_MAX_MILLI};
use crate::errors::ProtocolError;
use crate::handshake::{handshake_values, parse_handshake};
use crate::hex::{hex_repr, u32_to_hex};

verus! {

/// The fixed size of the response buffer: each command performs exactly one
/// read of at most this many bytes.
pub const RESPONSE_LEN: usize = 64;

/// Did the command fail at the transport or at the acknowledgment? These
/// are the only failures a single command can produce.
pub open spec fn is_command_error(e: ProtocolError) -> bool {
    e is IoError || e is ShortResponse || e is UnexpectedResponse
}

/// Send one framed command to the device and demand its acknowledgment.
///
/// Writes `STX || cmd || ETX`, performs exactly one blocking read into a
/// 64-byte buffer, and validates the leading acknowledgment byte. On
/// success the whole raw buffer is returned, trailing zero bytes included,
/// so that higher-level decoders can parse structured fields past the ACK.
pub fn send_command<T: Device>(port: &mut T, cmd: &[u8]) -> (r: Result<Vec<u8>, ProtocolError>)
    ensures
        r is Ok ==> final(port).written() == old(port).written().push(frame_bytes(cmd@)),
        r is Ok ==> r->Ok_0@.len() == RESPONSE_LEN && r->Ok_0@[0] == ACK,
        r is Err ==> is_command_error(r->Err_0),
{
    let framed = encode_frame(cmd);
    match port.write_all(framed.as_slice()) {
        Ok(_) => {},
        Err(detail) => {
            return Err(ProtocolError::IoError(detail));
        },
    }
    let mut input_buf: Vec<u8> = vec![0u8; RESPONSE_LEN];
    let bytes_read = match port.read(&mut input_buf) {
        Ok(n) => n,
        Err(detail) => {
            return Err(ProtocolError::IoError(detail));
        },
    };
    let response = vstd::slice::slice_subrange(input_buf.as_slice(), 0, bytes_read);
    match verify_ack(response) {
        Ok(_) => Ok(input_buf),
        Err(e) => Err(e),
    }
}

/// The payload of a duty-set command: `DCS` and the encoded duty in hex.
pub open spec fn dcs_payload(milli: int) -> Seq<u8> {
    seq![LETTER_D, LETTER_C, LETTER_S, SP] + hex_repr(encode_duty_spec(milli) as nat)
}

/// The payload of a frequency-set command: `FQS` and the frequency in hex.
pub open spec fn fqs_payload(freq_hz: int) -> Seq<u8> {
    seq![LETTER_F, LETTER_Q, LETTER_S, SP] + hex_repr(freq_hz as nat)
}

/// The payload of a duty-ramp command: `DCR`, the encoded start and end
/// duties, and the span in milliseconds, all in hex.
pub open spec fn dcr_payload(start_milli: int, end_milli: int, tspan_ms: int) -> Seq<u8> {
    seq![LETTER_D, LETTER_C, LETTER_R, SP] + hex_repr(encode_duty_spec(start_milli) as nat)
        + seq![SP] + hex_repr(encode_duty_spec(end_milli) as nat) + seq![SP] + hex_repr(
        tspan_ms as nat,
    )
}

/// Build the `DCS` payload for a duty cycle given in thousandths of a percent.
pub fn build_duty_payload(duty_milli: u32) -> (p: Vec<u8>)
    requires
        duty_milli <= DUTY_MAX_MILLI,
    ensures
        p@ == dcs_payload(duty_milli as int),
{
    let mut p: Vec<u8> = Vec::new();
    p.push(LETTER_D);
    p.push(LETTER_C);
    p.push(LETTER_S);
    p.push(SP);
    let mut digits = u32_to_hex(encode_duty(duty_milli));
    p.append(&mut digits);
    proof {
        assert(p@ =~= dcs_payload(duty_milli as int));
    }
    p
}

/// Build the `FQS` payload for a frequency in Hertz.
pub fn build_frequency_payload(freq_hz: u32) -> (p: Vec<u8>)
    ensures
        p@ == fqs_payload(freq_hz as int),
{
    let mut p: Vec<u8> = Vec::new();
    p.push(LETTER_F);
    p.push(LETTER_Q);
    p.push(LETTER_S);
    p.push(SP);
    let mut digits = u32_to_hex(freq_hz);
    p.append(&mut digits);
    proof {
        assert(p@ =~= fqs_payload(freq_hz as int));
    }
    p
}

/// Build the `DCR` payload for a ramp between two duty cycles over a span
/// of milliseconds.
pub fn build_ramp_payload(start_milli: u32, end_milli: u32, tspan_ms: u32) -> (p: Vec<u8>)
    requires
        start_milli <= DUTY_MAX_MILLI,
        end_milli <= DUTY_MAX_MILLI,
    ensures
        p@ == dcr_payload(start_milli as int, end_milli as int, tspan_ms as int),
{
    let mut p: Vec<u8> = Vec::new();
    p.push(LETTER_D);
    p.push(LETTER_C);
    p.push(LETTER_R);
    p.push(SP);
    let mut digits = u32_to_hex(encode_duty(start_milli));
    p.append(&mut digits);
    p.push(SP);
    let mut digits = u32_to_hex(encode_duty(end_milli));
    p.append(&mut digits);
    p.push(SP);
    let mut digits = u32_to_hex(tspan_ms);
    p.append(&mut digits);
    proof {
        assert(p@ =~= dcr_payload(start_milli as int, end_milli as int, tspan_ms as int));
    }
    p
}

/// Command the converter to the given duty cycle, in thousandths of a
/// percent. On success, exactly the framed `DCS` command went to the device.
pub fn set_duty<T: Device>(port: &mut T, duty_milli: u32) -> (r: Result<(), ProtocolError>)
    requires
        duty_milli <= DUTY_MAX_MILLI,
    ensures
        r is Ok ==> final(port).written() == old(port).written().push(
            frame_bytes(dcs_payload(duty_milli as int)),
        ),
        r is Err ==> is_command_error(r->Err_0),
{
    let payload = build_duty_payload(duty_milli);
    match send_command(port, payload.as_slice()) {
        Ok(_) => Ok(()),
        Err(e) => Err(e),
    }
}

/// Command the converter to the given switching frequency, in Hertz. The
/// 50-120 kHz operating range is the caller's to enforce, not the
/// protocol's. On success, exactly the framed `FQS` command went out.
pub fn set_frequency<T: Device>(port: &mut T, freq_hz: u32) -> (r: Result<(), ProtocolError>)
    ensures
        r is Ok ==> final(port).written() == old(port).written().push(
            frame_bytes(fqs_payload(freq_hz as int)),
        ),
        r is Err ==> is_command_error(r->Err_0),
{
    let payload = build_frequency_payload(freq_hz);
    match send_command(port, payload.as_slice()) {
        Ok(_) => Ok(()),
        Err(e) => Err(e),
    }
}

/// Ask the device itself to interpolate the duty cycle from `start_milli`
/// to `end_milli` over `tspan_ms` milliseconds, keeping ramp timing off the
/// caller's thread. On success, exactly the framed `DCR` command went out.
pub fn ramp_duty<T: Device>(
    port: &mut T,
    start_milli: u32,
    end_milli: u32,
    tspan_ms: u32,
) -> (r: Result<(), ProtocolError>)
    requires
        start_milli <= DUTY_MAX_MILLI,
        end_milli <= DUTY_MAX_MILLI,
    ensures
        r is Ok ==> final(port).written() == old(port).written().push(
            frame_bytes(dcr_payload(start_milli as int, end_milli as int, tspan_ms as int)),
        ),
        r is Err ==> is_command_error(r->Err_0),
{
    let payload = build_ramp_payload(start_milli, end_milli, tspan_ms);
    match send_command(port, payload.as_slice()) {
        Ok(_) => Ok(()),
        Err(e) => Err(e),
    }
}

/// Run the connection-time handshake: send the single-byte enquiry command
/// and decode the device's self-reported state from the rest of the
/// acknowledged response buffer.
///
/// On success the result is the reported frequency in Hertz and the duty
/// cycle in thousandths of a percent (the raw wire value put through the
/// duty decoding formula), and exactly the framed enquiry went to the
/// device. `(0, 0)` means no report was recognized — "state unknown", not
/// a genuine zero report. Every failure, whether transport,
/// acknowledgment, or a malformed hexadecimal field, comes wrapped as
/// `HandshakeFailure`: the caller must discard the device handle.
pub fn attempt_handshake<T: Device>(port: &mut T) -> (r: Result<(u32, u64), ProtocolError>)
    ensures
        r is Ok ==> final(port).written() == old(port).written().push(frame_bytes(seq![ENQ])),
        r is Ok ==> exists|resp: Seq<u8>|
            {
                &&& #[trigger] handshake_values(resp) matches Some(v)
                &&& resp.len() == RESPONSE_LEN
                &&& resp[0] == ACK
                &&& r->Ok_0.0 == v.0
                &&& r->Ok_0.1 == decode_duty_spec(v.1 as int)
            },
        r is Err ==> r->Err_0 is HandshakeFailure,
{
    let mut enq: Vec<u8> = Vec::new();
    enq.push(ENQ);
    proof {
        assert(enq@ =~= seq![ENQ]);
    }
    let response = match send_command(port, enq.as_slice()) {
        Ok(buf) => buf,
        Err(e) => {
            return Err(ProtocolError::HandshakeFailure(Box::new(e)));
        },
    };
    match parse_handshake(response.as_slice()) {
        Ok((freq, duty_raw)) => {
            let duty_milli = decode_duty(duty_raw);
            proof {
                assert(handshake_values(response@) matches Some(v) && freq == v.0 && duty_raw
                    == v.1);
            }
            Ok((freq, duty_milli))
        },
        Err(e) => Err(
            ProtocolError::HandshakeFailure(Box::new(ProtocolError::ParseError(e))),
        ),
    }
}

} // verus!
