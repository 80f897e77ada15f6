use vstd::prelude::*;
use vstd::utf8::{decode_utf8, valid_utf8};

use crate::errors::ParseError;
use crate::measurement::{
    first_space_char, line_timestamp, line_value, parsed_datetime_micros, Measurement,
};
use crate::value_text::is_float_literal;

verus! {

/// The closed message set exchanged between the foreground and the
/// monitoring bridge. Each message owns its payload; sending one transfers
/// that ownership to the receiver.
#[derive(Debug, PartialEq, Eq)]
pub enum ThreadMessage {
    /// Foreground request: bind a socket for this endpoint, ask the remote
    /// end to start streaming, and enter the Connected state.
    StartConnection { address: String, port: u16 },
    /// Foreground request: drop the connection. Idempotent: while Idle it
    /// is a safe no-op.
    Disconnect,
    /// Bridge report: one decoded telemetry sample.
    Data(Measurement),
    /// Bridge report: the requested connection is up; emitted exactly once
    /// per successful start.
    ConnectionEstablished,
    /// Nothing was pending on a poll.
    Noop,
}

/// The endpoint a connected bridge holds on to: the remote address text
/// and the port its socket was bound for. The socket itself lives with the
/// runner that drives the bridge.
#[derive(Debug, PartialEq, Eq)]
pub struct Connection {
    pub address: String,
    pub port: u16,
}

impl Connection {
    /// A record of the endpoint a socket was just bound for.
    pub fn new(address: String, port: u16) -> (c: Connection)
        ensures
            c == (Connection { address, port }),
    {
        Connection { address, port }
    }
}

/// What the bridge asks its runner to do with the outside world after one
/// control message.
#[derive(Debug, PartialEq, Eq)]
pub enum ControlAction {
    /// Bind a local socket for this endpoint and send the `START` datagram
    /// to it; report success back through `connection_opened`.
    Connect { address: String, port: u16 },
    /// Drop the socket: the bridge has returned to Idle.
    Close,
    /// Nothing to do.
    Keep,
}

/// The monitoring bridge's own state: Idle or Connected, made explicit as
/// an optional owned connection so no illegal state is representable.
///
/// The bridge decides here; its socket, its two channels and the awaiting
/// live in the runner around it, which performs each [`ControlAction`] and
/// hands events back. Each polling iteration interleaves one socket-read
/// attempt (through [`parse_datagram`]) and one control-message attempt
/// (through [`MessagingThread::apply_control`]), so neither starves the
/// other.
pub struct MessagingThread {
    /// The connection while Connected; nothing while Idle.
    pub connection: Option<Connection>,
}

impl MessagingThread {
    /// Whether the bridge is in the Connected state.
    pub open spec fn is_connected_spec(&self) -> bool {
        self.connection is Some
    }

    /// A bridge that starts out Idle, with no connection.
    pub fn new() -> (t: MessagingThread)
        ensures
            !t.is_connected_spec(),
    {
        MessagingThread { connection: None }
    }

    /// Whether the bridge currently owns a connection.
    pub fn is_connected(&self) -> (b: bool)
        ensures
            b == self.is_connected_spec(),
    {
        match &self.connection {
            Option::Some(_) => true,
            Option::None => false,
        }
    }

    /// Apply one drained control message and say what the runner must do.
    ///
    /// `Disconnect` always yields Idle, whatever the prior state, so a
    /// repeated `Disconnect` is a safe no-op. `StartConnection` changes
    /// nothing yet — the bridge enters Connected only once the runner
    /// reports the bind succeeded — and any other message is ignored.
    pub fn apply_control(&mut self, msg: ThreadMessage) -> (a: ControlAction)
        ensures
            msg is Disconnect ==> !final(self).is_connected_spec() && a is Close,
            msg matches ThreadMessage::StartConnection { address, port } ==> *final(self) == *old(
                self,
            ) && a == (ControlAction::Connect { address, port }),
            !(msg is Disconnect) && !(msg is StartConnection) ==> *final(self) == *old(self)
                && a is Keep,
    {
        match msg {
            ThreadMessage::StartConnection { address, port } => ControlAction::Connect {
                address,
                port,
            },
            ThreadMessage::Disconnect => {
                self.connection = None;
                ControlAction::Close
            },
            _ => ControlAction::Keep,
        }
    }

    /// Record that the runner bound a socket for this endpoint and sent the
    /// `START` datagram: the bridge enters Connected, replacing any prior
    /// connection, and hands back the single `ConnectionEstablished` report
    /// to emit.
    pub fn connection_opened(&mut self, address: String, port: u16) -> (m: ThreadMessage)
        ensures
            final(self).connection == Some(Connection { address, port }),
            final(self).is_connected_spec(),
            m == ThreadMessage::ConnectionEstablished,
    {
        self.connection = Some(Connection::new(address, port));
        ThreadMessage::ConnectionEstablished
    }
}

/// Relies on `core::str::from_utf8`: it accepts exactly the valid UTF-8
/// byte strings, and returns the text those bytes encode.
#[verifier::external_body]
fn bytes_to_str<'a>(b: &'a [u8]) -> (r: Option<&'a str>)
    ensures
        r is Some <==> valid_utf8(b@),
        r is Some ==> r->0@ == decode_utf8(b@),
{
    core::str::from_utf8(b).ok()
}

/// The text of a datagram's first `n` bytes, when they are valid UTF-8.
pub open spec fn datagram_line(buf: Seq<u8>, n: int) -> Seq<char> {
    decode_utf8(buf.take(n))
}

/// Decode one received datagram of `n` bytes into the message to forward:
/// UTF-8 text, then one telemetry line. A failure here costs only this
/// sample; the connection stays up.
pub fn parse_datagram(buf: &[u8], n: usize) -> (r: Result<ThreadMessage, ParseError>)
    requires
        n <= buf@.len(),
    ensures
        !valid_utf8(buf@.take(n as int)) ==> r == Err::<ThreadMessage, ParseError>(
            ParseError::InvalidUtf8,
        ),
        valid_utf8(buf@.take(n as int)) && first_space_char(datagram_line(buf@, n as int))
            == datagram_line(buf@, n as int).len() ==> r == Err::<ThreadMessage, ParseError>(
            ParseError::MissingSeparator,
        ),
        valid_utf8(buf@.take(n as int)) && first_space_char(datagram_line(buf@, n as int))
            < datagram_line(buf@, n as int).len() && parsed_datetime_micros(
            line_timestamp(datagram_line(buf@, n as int)),
        ) is None ==> r == Err::<ThreadMessage, ParseError>(ParseError::InvalidTimestamp),
        valid_utf8(buf@.take(n as int)) && first_space_char(datagram_line(buf@, n as int))
            < datagram_line(buf@, n as int).len() && parsed_datetime_micros(
            line_timestamp(datagram_line(buf@, n as int)),
        ) is Some && !is_float_literal(line_value(datagram_line(buf@, n as int))) ==> r == Err::<
            ThreadMessage,
            ParseError,
        >(ParseError::InvalidValue),
        valid_utf8(buf@.take(n as int)) && first_space_char(datagram_line(buf@, n as int))
            < datagram_line(buf@, n as int).len() && parsed_datetime_micros(
            line_timestamp(datagram_line(buf@, n as int)),
        ) is Some && is_float_literal(line_value(datagram_line(buf@, n as int))) ==> (r matches Ok(
            msg,
        ) && msg matches ThreadMessage::Data(m) && m.timestamp_micros == parsed_datetime_micros(
            line_timestamp(datagram_line(buf@, n as int)),
        )->0 && m.value@ == line_value(datagram_line(buf@, n as int))),
{
    let data = vstd::slice::slice_subrange(buf, 0, n);
    match bytes_to_str(data) {
        Option::Some(text) => match Measurement::from_str(text) {
            Ok(m) => Ok(ThreadMessage::Data(m)),
            Err(e) => Err(e),
        },
        Option::None => Err(ParseError::InvalidUtf8),
    }
}

} // verus!
