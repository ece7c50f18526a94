//! The typed failures of the engine.
//!
//! Malformed input from a peer is never fatal to the process: every layer
//! reports it as a value of one of these types.

use vstd::prelude::*;

verus! {

/// Data built by the caller does not fit the wire format.
#[derive(Clone, Copy, Debug, PartialEq, Eq, Structural)]
pub enum EncodingError {
    /// The user agent is longer than its one-byte length prefix can say.
    UserAgentTooLong,
    /// The command name is longer than the twelve bytes of its field.
    CommandTooLong,
    /// The command name holds a character outside ASCII.
    CommandNotAscii,
    /// The payload is longer than the four-byte length field can say.
    PayloadTooLong,
}

/// Bytes from the peer do not parse.
#[derive(Clone, Copy, Debug, PartialEq, Eq, Structural)]
pub enum DecodingError {
    /// The magic is not that of the configured network.
    BadMagic,
    /// The command field is not a NUL-padded ASCII name.
    BadCommand,
    /// Fewer bytes than the format needs.
    Truncated,
    /// The user agent is not UTF-8.
    BadUserAgent,
}

/// Reading a message from the stream failed.
#[derive(Clone, Copy, Debug, PartialEq, Eq, Structural)]
pub enum TransportError {
    /// The stream ended before a complete message was assembled.
    ConnectionClosed,
    /// The header parsed but the payload does not match its checksum.
    ChecksumMismatch,
    /// The deadline passed during a send or a receive.
    Timeout,
    /// The header's magic is not that of the configured network.
    BadMagic,
    /// The header's command field is malformed.
    BadCommand,
    /// The underlying read failed.
    ReadFailed,
    /// The underlying write failed.
    WriteFailed,
}

/// Why a handshake did not reach the connected state.
#[derive(Clone, Copy, Debug, PartialEq, Eq, Structural)]
pub enum HandshakeError {
    /// The local `version` message could not be encoded.
    Encoding(EncodingError),
    /// The peer's `version` payload could not be decoded.
    Decoding(DecodingError),
    /// The transport failed while sending or receiving.
    Transport(TransportError),
    /// The peer's first message was not `version`, or the session was told
    /// of an event that its state does not wait for.
    UnexpectedMessage,
    /// The deadline passed, or the peer sent too many other messages in place of `verack`.
    HandshakeTimeout,
}

} // verus!
