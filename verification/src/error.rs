//! The failures that reading and writing can report.

use vstd::prelude::*;

verus! {

/// The ways in which a peer, or a caller building frames by hand, can break the wire protocol.
#[derive(Debug, Clone, Copy, PartialEq, Eq, Structural)]
pub enum ProtocolError {
    /// A frame header carries a reserved bit that is set.
    NonZeroReservedBits,
    /// A frame header carries an opcode that the protocol does not define.
    InvalidOpcode(u8),
    /// A close, ping or pong frame carries more than 125 bytes.
    ControlFrameTooBig,
    /// A close, ping or pong frame is not final.
    FragmentedControlFrame,
    /// A server received a frame without a masking key and is not set up to tolerate that.
    UnmaskedFrameFromClient,
    /// A frame announces a payload beyond the read limit.
    FrameTooLarge,
    /// A frame on the encrypted path, outer or inner, is a fragment.
    FragmentedEncryptedFrame,
    /// A close frame carries a single byte, which cannot hold a status code.
    InvalidCloseFrame,
}

/// Everything that can go wrong in one read or write.
#[derive(Debug, Clone, Copy, PartialEq, Eq, Structural)]
pub enum Error {
    /// The underlying byte stream failed, or ended inside a frame.
    Io,
    /// The wire protocol was violated.
    Protocol(ProtocolError),
    /// A text payload is not valid UTF-8.
    Encoding,
    /// Encrypting or decrypting failed.
    Crypto,
    /// The envelope could not be encoded or decoded.
    Envelope,
    /// The decrypted bytes hold no complete inner frame.
    NestedFrameMissing,
}

} // verus!
