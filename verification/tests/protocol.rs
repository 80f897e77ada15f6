use sepic_control::codec::{encode_frame, verify_ack, ACK, NACK};
use sepic_control::duty::{decode_duty, encode_duty};
use sepic_control::errors::ProtocolError;
use sepic_control::hex::{parse_hex_u32, u32_to_hex};

#[test]
fn frame_encode_wraps_payload() {
    assert_eq!(encode_frame(b"DCS 200"), b"\x02DCS 200\x03".to_vec());
    assert_eq!(encode_frame(b""), vec![0x02, 0x03]);
}

#[test]
fn verify_ack_empty_response_fails() {
    assert_eq!(verify_ack(&[]), Err(ProtocolError::ShortResponse));
}

#[test]
fn verify_ack_wrong_leading_byte_fails() {
    assert_eq!(verify_ack(&[NACK]), Err(ProtocolError::UnexpectedResponse));
    assert_eq!(verify_ack(&[0x00, ACK]), Err(ProtocolError::UnexpectedResponse));
    assert_eq!(verify_ack(b"x\x06"), Err(ProtocolError::UnexpectedResponse));
}

#[test]
fn verify_ack_accepts_ack_head() {
    assert_eq!(verify_ack(&[ACK]), Ok(()));
    assert_eq!(verify_ack(&[ACK, 0x02, 0x41, 0x03]), Ok(()));
}

#[test]
fn hex_parse_reads_both_cases() {
    assert_eq!(parse_hex_u32(b"1D4C0"), Some(120_000));
    assert_eq!(parse_hex_u32(b"1d4c0"), Some(120_000));
    assert_eq!(parse_hex_u32(b"0"), Some(0));
    assert_eq!(parse_hex_u32(b"ffffffff"), Some(u32::MAX));
    assert_eq!(parse_hex_u32(b"0ffffffff"), Some(u32::MAX));
}

#[test]
fn hex_parse_accepts_leading_plus() {
    assert_eq!(parse_hex_u32(b"+1a"), Some(26));
    assert_eq!(parse_hex_u32(b"+"), None);
}

#[test]
fn hex_parse_rejects_junk_and_overflow() {
    assert_eq!(parse_hex_u32(b""), None);
    assert_eq!(parse_hex_u32(b"zz"), None);
    assert_eq!(parse_hex_u32(b"12 3"), None);
    assert_eq!(parse_hex_u32(b"100000000"), None);
    assert_eq!(parse_hex_u32(b"-1"), None);
}

#[test]
fn hex_render_is_lowercase_without_prefix() {
    assert_eq!(u32_to_hex(0), b"0".to_vec());
    assert_eq!(u32_to_hex(512), b"200".to_vec());
    assert_eq!(u32_to_hex(120_000), b"1d4c0".to_vec());
    assert_eq!(u32_to_hex(0xdead_beef), b"deadbeef".to_vec());
}

#[test]
fn hex_render_parses_back() {
    for n in [0u32, 1, 15, 16, 511, 512, 75_000 * 512, u32::MAX] {
        assert_eq!(parse_hex_u32(&u32_to_hex(n)), Some(n));
    }
}

#[test]
fn duty_encoding_examples() {
    // 1.000 % -> 512 steps of 2^-9 percent; 0.5 % comes back from 0x100.
    assert_eq!(encode_duty(1000), 0x200);
    assert_eq!(encode_duty(25_000), 0x3200);
    assert_eq!(decode_duty(0x100), 500);
    assert_eq!(decode_duty(0), 0);
    assert_eq!(encode_duty(0), 0);
}

#[test]
fn duty_round_trip_integer_grid() {
    for milli in 0..=75_000u32 {
        let back = decode_duty(encode_duty(milli)) as i64;
        assert!((back - milli as i64).abs() <= 1, "milli={milli} back={back}");
    }
}

#[test]
fn duty_round_trip_percent_within_wire_quantum() {
    // The round trip stays within 2^-9 percent of the requested duty.
    let quantum = (2.0f64).powi(-9);
    for k in 0..=7500u32 {
        let duty_pct = k as f64 / 100.0;
        let milli = (duty_pct * 1000.0).round() as u32;
        let back_pct = decode_duty(encode_duty(milli)) as f64 / 1000.0;
        assert!(
            (back_pct - duty_pct).abs() <= quantum,
            "duty={duty_pct} back={back_pct}"
        );
    }
}
