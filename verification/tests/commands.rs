use sepic_control::device::MockDevice;
use sepic_control::errors::{ParseError, ProtocolError};
use sepic_control::handshake::parse_handshake;
use sepic_control::serialcomms::{
    attempt_handshake, ramp_duty, send_command, set_duty, set_frequency,
};

fn ack_device() -> MockDevice {
    MockDevice::new(vec![0x06])
}

#[test]
fn set_duty_issues_exact_frame() {
    // 1.000 % encodes to wire value 0x200.
    let mut device = ack_device();
    set_duty(&mut device, 1000).unwrap();
    assert_eq!(device.writes, vec![b"\x02DCS 200\x03".to_vec()]);
}

#[test]
fn set_duty_quarter_range() {
    let mut device = ack_device();
    set_duty(&mut device, 25_000).unwrap();
    assert_eq!(device.writes, vec![b"\x02DCS 3200\x03".to_vec()]);
}

#[test]
fn set_frequency_issues_exact_frame() {
    let mut device = ack_device();
    set_frequency(&mut device, 120_000).unwrap();
    assert_eq!(device.writes, vec![b"\x02FQS 1d4c0\x03".to_vec()]);
}

#[test]
fn ramp_duty_issues_exact_frame() {
    let mut device = ack_device();
    ramp_duty(&mut device, 1000, 25_000, 1000).unwrap();
    assert_eq!(device.writes, vec![b"\x02DCR 200 3200 3e8\x03".to_vec()]);
}

#[test]
fn send_command_returns_full_buffer() {
    let mut device = MockDevice::new(b"\x06extra".to_vec());
    let response = send_command(&mut device, b"DCS 0").unwrap();
    assert_eq!(response.len(), 64);
    assert_eq!(&response[..6], b"\x06extra");
    assert!(response[6..].iter().all(|&b| b == 0));
}

#[test]
fn send_command_rejects_nack_head() {
    let mut device = MockDevice::new(vec![0x15]);
    assert_eq!(
        send_command(&mut device, b"DCS 0"),
        Err(ProtocolError::UnexpectedResponse)
    );
}

#[test]
fn send_command_propagates_transport_failure() {
    let mut device = ack_device();
    device.write_fault = Some("wire cut".to_owned());
    assert_eq!(
        send_command(&mut device, b"DCS 0"),
        Err(ProtocolError::IoError("wire cut".to_owned()))
    );
    assert!(device.writes.is_empty());
}

#[test]
fn send_command_rejects_empty_read() {
    let mut device = MockDevice::new(Vec::new());
    assert_eq!(
        send_command(&mut device, b"DCS 0"),
        Err(ProtocolError::ShortResponse)
    );
}

#[test]
fn handshake_decodes_frequency_and_duty() {
    // 0x1D4C0 Hz and 0x100 * 2^-9 = 0.5 % duty.
    let mut device = MockDevice::new(b"\x06\x02FRQ 1D4C0\x03\x02DTY 100\x03".to_vec());
    let (freq, duty_milli) = attempt_handshake(&mut device).unwrap();
    assert_eq!(freq, 120_000);
    assert_eq!(duty_milli, 500);
    assert_eq!(device.writes, vec![b"\x02\x05\x03".to_vec()]);
}

#[test]
fn handshake_ignores_unknown_tags() {
    let mut device = MockDevice::new(b"\x06\x02ABC 77\x03\x02FRQ 1D4C0\x03\x02DTY 100\x03".to_vec());
    let (freq, duty_milli) = attempt_handshake(&mut device).unwrap();
    assert_eq!(freq, 120_000);
    assert_eq!(duty_milli, 500);
}

#[test]
fn handshake_without_tags_yields_unknown_sentinel() {
    // (0, 0) is the documented "state unknown" sentinel, not a zero report.
    let mut device = MockDevice::new(vec![0x06]);
    assert_eq!(attempt_handshake(&mut device), Ok((0, 0)));
}

#[test]
fn handshake_fails_on_malformed_hex() {
    let mut device = MockDevice::new(b"\x06\x02FRQ zz\x03".to_vec());
    let err = attempt_handshake(&mut device).unwrap_err();
    assert!(matches!(
        err,
        ProtocolError::HandshakeFailure(inner)
            if *inner == ProtocolError::ParseError(ParseError::InvalidHex)
    ));
}

#[test]
fn handshake_fails_on_missing_field() {
    let mut device = MockDevice::new(b"\x06\x02FRQ\x03".to_vec());
    assert!(matches!(
        attempt_handshake(&mut device),
        Err(ProtocolError::HandshakeFailure(_))
    ));
}

#[test]
fn handshake_fails_without_ack() {
    let mut device = MockDevice::new(b"\x02FRQ 1D4C0\x03".to_vec());
    let err = attempt_handshake(&mut device).unwrap_err();
    assert!(matches!(
        err,
        ProtocolError::HandshakeFailure(inner) if *inner == ProtocolError::UnexpectedResponse
    ));
}

#[test]
fn parse_handshake_later_report_overrides() {
    let response = b"\x06\x02FRQ 1\x03\x02FRQ 2\x03\x02DTY a\x03\x02DTY b\x03";
    assert_eq!(parse_handshake(response), Ok((2, 0xb)));
}

#[test]
fn parse_handshake_tag_prefix_counts() {
    // The scan mirrors a starts_with test: a longer tag beginning with FRQ
    // is still read as a frequency report.
    let response = b"\x06\x02FRQX 5\x03";
    assert_eq!(parse_handshake(response), Ok((5, 0)));
}

#[test]
fn parse_handshake_empty_pieces_are_skipped() {
    let response = b"\x06\x02\x03\x02\x03\x02DTY 100\x03";
    assert_eq!(parse_handshake(response), Ok((0, 0x100)));
}

#[test]
fn parse_handshake_extra_fields_are_ignored() {
    let response = b"\x06\x02FRQ 10 20\x03";
    assert_eq!(parse_handshake(response), Ok((0x10, 0)));
}

#[test]
fn parse_handshake_double_space_field_is_malformed() {
    // Two spaces leave an empty first field, as splitting on single spaces
    // would.
    let response = b"\x06\x02FRQ  10\x03";
    assert_eq!(parse_handshake(response), Err(ParseError::InvalidHex));
}
