use vstd::prelude::*;
use vstd::string::StringExecFns;

verus! {

/// Why a piece of text could not be decoded: a malformed measurement line,
/// malformed bytes from the telemetry socket, or a malformed hexadecimal
/// field inside a handshake response.
#[derive(Debug, Clone, PartialEq, Eq)]
pub enum ParseError {
    /// The measurement line has no space separating timestamp and value.
    MissingSeparator,
    /// The text before the first space does not parse as a date-time.
    InvalidTimestamp,
    /// The text after the first space does not parse as a 64-bit float.
    InvalidValue,
    /// The received bytes are not valid UTF-8 text.
    InvalidUtf8,
    /// A recognized handshake tag is not followed by a hexadecimal integer
    /// that fits 32 bits.
    InvalidHex,
}

/// The failure taxonomy of the device protocol.
#[derive(Debug, PartialEq, Eq)]
pub enum ProtocolError {
    /// The underlying transport failed; carries the transport's own description.
    IoError(String),
    /// The device replied with fewer bytes than an acknowledgment.
    ShortResponse,
    /// The device replied, but not with an acknowledgment at the head.
    UnexpectedResponse,
    /// The connection-time handshake failed; the device handle must be
    /// discarded. Wraps the underlying error.
    HandshakeFailure(Box<ProtocolError>),
    /// A text field could not be decoded.
    ParseError(ParseError),
    /// The counterpart of a message channel was dropped; fatal to the
    /// bridge's run loop.
    ChannelClosed,
}

impl ParseError {
    /// The description of this error, as a sequence of characters.
    pub open spec fn message_spec(&self) -> Seq<char> {
        match self {
            ParseError::MissingSeparator => "the line has no space separator"@,
            ParseError::InvalidTimestamp => "the timestamp does not parse"@,
            ParseError::InvalidValue => "the value does not parse as a float"@,
            ParseError::InvalidUtf8 => "the bytes are not valid UTF-8"@,
            ParseError::InvalidHex => "a value field is not a 32-bit hexadecimal integer"@,
        }
    }

    /// A human-readable description of this error.
    pub fn message(&self) -> (m: String)
        ensures
            m@ == self.message_spec(),
    {
        match self {
            ParseError::MissingSeparator => "the line has no space separator".to_owned(),
            ParseError::InvalidTimestamp => "the timestamp does not parse".to_owned(),
            ParseError::InvalidValue => "the value does not parse as a float".to_owned(),
            ParseError::InvalidUtf8 => "the bytes are not valid UTF-8".to_owned(),
            ParseError::InvalidHex => "a value field is not a 32-bit hexadecimal integer".to_owned(),
        }
    }
}

impl ProtocolError {
    /// The description of this error, as a sequence of characters.
    pub open spec fn message_spec(&self) -> Seq<char>
        decreases self,
    {
        match self {
            ProtocolError::IoError(d) => "I/O error: "@ + d@,
            ProtocolError::ShortResponse => "the response is shorter than an acknowledgment"@,
            ProtocolError::UnexpectedResponse => "the response does not start with an acknowledgment"@,
            ProtocolError::HandshakeFailure(e) => "handshake failed: "@ + e.message_spec(),
            ProtocolError::ParseError(p) => "parse error: "@ + p.message_spec(),
            ProtocolError::ChannelClosed => "the channel counterpart was dropped"@,
        }
    }

    /// A human-readable description of this error.
    pub fn message(&self) -> (m: String)
        ensures
            m@ == self.message_spec(),
        decreases self,
    {
        match self {
            ProtocolError::IoError(d) => {
                let mut m = "I/O error: ".to_owned();
                m.append(d.as_str());
                m
            },
            ProtocolError::ShortResponse => "the response is shorter than an acknowledgment".to_owned(),
            ProtocolError::UnexpectedResponse => "the response does not start with an acknowledgment".to_owned(),
            ProtocolError::HandshakeFailure(e) => {
                let mut m = "handshake failed: ".to_owned();
                let inner = e.message();
                m.append(inner.as_str());
                m
            },
            ProtocolError::ParseError(p) => {
                let mut m = "parse error: ".to_owned();
                let inner = p.message();
                m.append(inner.as_str());
                m
            },
            ProtocolError::ChannelClosed => "the channel counterpart was dropped".to_owned(),
        }
    }
}

/// A failure as shown to the user: a short description of what went wrong,
/// plus the underlying error's own detail for the log.
#[derive(Debug, Clone)]
pub struct AppError {
    pub description: String,
    pub source_description: String,
}

impl AppError {
    /// A failure to open the named serial port.
    pub fn connection(port: &str, error: &ProtocolError) -> (e: AppError)
        ensures
            e.description@ == "could not open port `"@ + port@ + "`"@,
            e.source_description@ == error.message_spec(),
    {
        let mut description = "could not open port `".to_owned();
        description.append(port);
        description.append("`");
        AppError { description, source_description: error.message() }
    }

    /// A failed handshake: the device on the named port is not recognized.
    pub fn handshake(port: &str, error: &ProtocolError) -> (e: AppError)
        ensures
            e.description@ == "device on port `"@ + port@ + "` was not recognized"@,
            e.source_description@ == error.message_spec(),
    {
        let mut description = "device on port `".to_owned();
        description.append(port);
        description.append("` was not recognized");
        AppError { description, source_description: error.message() }
    }

    /// A failure to adjust the named setting.
    pub fn setting(var: &str, error: &ProtocolError) -> (e: AppError)
        ensures
            e.description@ == "a problem occurred while adjusting "@ + var@,
            e.source_description@ == error.message_spec(),
    {
        let mut description = "a problem occurred while adjusting ".to_owned();
        description.append(var);
        AppError { description, source_description: error.message() }
    }
}

} // verus!
