use sepic_control::errors::{AppError, ParseError, ProtocolError};
use sepic_control::tabs::{LogConsole, PlotWindow};
use sepic_control::threading::{parse_datagram, ControlAction, MessagingThread, ThreadMessage};

#[test]
fn bridge_start_connection_establishes_once() {
    let mut bridge = MessagingThread::new();
    assert!(!bridge.is_connected());

    let action = bridge.apply_control(ThreadMessage::StartConnection {
        address: "127.0.0.1".to_owned(),
        port: 4444,
    });
    assert_eq!(
        action,
        ControlAction::Connect { address: "127.0.0.1".to_owned(), port: 4444 }
    );
    // Connected only once the runner reports the bind succeeded.
    assert!(!bridge.is_connected());

    let report = bridge.connection_opened("127.0.0.1".to_owned(), 4444);
    assert_eq!(report, ThreadMessage::ConnectionEstablished);
    assert!(bridge.is_connected());
}

#[test]
fn bridge_disconnect_is_idempotent() {
    let mut bridge = MessagingThread::new();
    bridge.apply_control(ThreadMessage::StartConnection {
        address: "127.0.0.1".to_owned(),
        port: 4444,
    });
    bridge.connection_opened("127.0.0.1".to_owned(), 4444);
    assert!(bridge.is_connected());

    assert_eq!(bridge.apply_control(ThreadMessage::Disconnect), ControlAction::Close);
    assert!(!bridge.is_connected());

    // A second Disconnect while Idle is a safe no-op.
    assert_eq!(bridge.apply_control(ThreadMessage::Disconnect), ControlAction::Close);
    assert!(!bridge.is_connected());
}

#[test]
fn bridge_ignores_other_messages() {
    let mut bridge = MessagingThread::new();
    assert_eq!(bridge.apply_control(ThreadMessage::Noop), ControlAction::Keep);
    assert_eq!(
        bridge.apply_control(ThreadMessage::ConnectionEstablished),
        ControlAction::Keep
    );
    assert!(!bridge.is_connected());
}

#[test]
fn datagram_parses_into_data_message() {
    let mut buf = [0u8; 1024];
    let line = b"2024-01-01T00:00:00+00:00 12.5";
    buf[..line.len()].copy_from_slice(line);
    let msg = parse_datagram(&buf, line.len()).unwrap();
    match msg {
        ThreadMessage::Data(m) => {
            assert_eq!(m.timestamp_micros, 1_704_067_200_000_000);
            assert_eq!(m.value, "12.5");
        }
        other => panic!("expected Data, got {other:?}"),
    }
}

#[test]
fn datagram_with_trailing_zeros_fails_to_parse() {
    // Reading the whole buffer instead of the received length would glue
    // NUL bytes onto the value; only the received bytes are decoded.
    let mut buf = [0u8; 64];
    let line = b"2024-01-01T00:00:00+00:00 12.5";
    buf[..line.len()].copy_from_slice(line);
    assert_eq!(parse_datagram(&buf, 64), Err(ParseError::InvalidValue));
}

#[test]
fn datagram_invalid_utf8_fails() {
    let buf = [0xff, 0xfe, 0x20];
    assert_eq!(parse_datagram(&buf, 3), Err(ParseError::InvalidUtf8));
}

#[test]
fn error_descriptions_carry_port_and_source() {
    let e = AppError::connection("COM3", &ProtocolError::ShortResponse);
    assert_eq!(e.description, "could not open port `COM3`");
    assert_eq!(e.source_description, "the response is shorter than an acknowledgment");

    let e = AppError::handshake("/dev/ttyUSB0", &ProtocolError::UnexpectedResponse);
    assert_eq!(e.description, "device on port `/dev/ttyUSB0` was not recognized");
    assert_eq!(
        e.source_description,
        "the response does not start with an acknowledgment"
    );

    let e = AppError::setting(
        "duty cycle",
        &ProtocolError::IoError("timed out".to_owned()),
    );
    assert_eq!(e.description, "a problem occurred while adjusting duty cycle");
    assert_eq!(e.source_description, "I/O error: timed out");
}

#[test]
fn every_error_has_a_description() {
    assert_eq!(
        ProtocolError::ChannelClosed.message(),
        "the channel counterpart was dropped"
    );
    assert_eq!(
        ParseError::InvalidUtf8.message(),
        "the bytes are not valid UTF-8"
    );
    assert_eq!(
        ParseError::MissingSeparator.message(),
        "the line has no space separator"
    );
    assert_eq!(ParseError::InvalidTimestamp.message(), "the timestamp does not parse");
    assert_eq!(
        ParseError::InvalidValue.message(),
        "the value does not parse as a float"
    );
}

#[test]
fn nested_errors_describe_their_cause() {
    let e = ProtocolError::HandshakeFailure(Box::new(ProtocolError::ParseError(
        ParseError::InvalidHex,
    )));
    assert_eq!(
        e.message(),
        "handshake failed: parse error: a value field is not a 32-bit hexadecimal integer"
    );
}

#[test]
fn tab_identifiers_are_stable() {
    assert_eq!(PlotWindow::id(), "pwm_plot_window");
    assert_eq!(LogConsole::id(), "log_console");
}
