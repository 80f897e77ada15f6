use vstd::prelude::*;

use crate::errors::ProtocolError;

verus! {

/// Start-of-text: the byte that opens every command frame.
pub const STX: u8 = 0x02;

/// End-of-text: the byte that closes every command frame.
pub const ETX: u8 = 0x03;

/// Enquiry: the single-byte payload of the handshake command.
pub const ENQ: u8 = 0x05;

/// Positive acknowledgment: the expected leading byte of every response.
pub const ACK: u8 = 0x06;

/// Negative acknowledgment: defined in the protocol but never sent by the
/// device; kept so the taxonomy slot stays documented.
pub const NACK: u8 = 0x15;

/// ASCII space: separates a payload's tag from its hexadecimal fields.
pub const SP: u8 = 0x20;

/// ASCII `C`.
pub const LETTER_C: u8 = 0x43;

/// ASCII `D`.
pub const LETTER_D: u8 = 0x44;

/// ASCII `F`.
pub const LETTER_F: u8 = 0x46;

/// ASCII `Q`.
pub const LETTER_Q: u8 = 0x51;

/// ASCII `R`.
pub const LETTER_R: u8 = 0x52;

/// ASCII `S`.
pub const LETTER_S: u8 = 0x53;

/// ASCII `T`.
pub const LETTER_T: u8 = 0x54;

/// ASCII `Y`.
pub const LETTER_Y: u8 = 0x59;

/// The bytes of a framed command: STX, then the payload, then ETX.
pub open spec fn frame_bytes(payload: Seq<u8>) -> Seq<u8> {
    seq![STX] + payload + seq![ETX]
}

/// Wrap a command payload in the STX/ETX frame delimiters.
///
/// The protocol assumes the payload is clean ASCII text and never contains
/// the delimiter bytes themselves; the codec does not inspect it.
pub fn encode_frame(payload: &[u8]) -> (framed: Vec<u8>)
    ensures
        framed@ == frame_bytes(payload@),
{
    let mut framed: Vec<u8> = Vec::new();
    framed.push(STX);
    framed.extend_from_slice(payload);
    framed.push(ETX);
    proof {
        assert(framed@ =~= frame_bytes(payload@));
    }
    framed
}

/// Check the leading acknowledgment byte of a device response.
///
/// Fails with `ShortResponse` when fewer bytes than one acknowledgment were
/// received, and with `UnexpectedResponse` when the first byte is not ACK.
/// Any bytes past the first are the caller's to interpret.
pub fn verify_ack(response: &[u8]) -> (r: Result<(), ProtocolError>)
    ensures
        response@.len() == 0 ==> r == Err::<(), ProtocolError>(ProtocolError::ShortResponse),
        response@.len() > 0 && response@[0] != ACK ==> r == Err::<(), ProtocolError>(
            ProtocolError::UnexpectedResponse,
        ),
        response@.len() > 0 && response@[0] == ACK ==> r == Ok::<(), ProtocolError>(()),
{
    if response.len() == 0 {
        Err(ProtocolError::ShortResponse)
    } else if *vstd::slice::slice_index_get(response, 0) != ACK {
        Err(ProtocolError::UnexpectedResponse)
    } else {
        Ok(())
    }
}

} // verus!
