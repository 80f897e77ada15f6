//! Verified core of a controller for a power converter driven over a serial
//! link, with telemetry arriving over a network socket.
//!
//! The crate holds the byte-exact command protocol (framing, acknowledgment
//! checking, hexadecimal payloads, the connection-time handshake), the
//! telemetry line parser, and the state machine of the background bridge
//! that owns the telemetry connection. I/O itself stays outside: commands
//! travel through the `Device` capability trait, and the bridge's socket
//! and channels are driven by a thin unverified runner.

pub mod codec;
pub mod device;
pub mod duty;
pub mod errors;
pub mod handshake;
pub mod hex;
pub mod measurement;
pub mod serialcomms;
pub mod tabs;
pub mod threading;
pub mod value_text;
