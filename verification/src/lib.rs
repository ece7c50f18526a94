//! Handshake engine for a Bitcoin-style peer-to-peer network.
//!
//! The crate frames and parses the wire envelope, checks the double-hash
//! checksum, reassembles messages from a chunked byte stream and drives the
//! `version` / `verack` exchange as an explicit state machine. Nothing here
//! performs I/O: callers feed bytes in and carry bytes out.

pub mod checksum;
pub mod endian;
pub mod envelope;
pub mod error;
pub mod handshake;
pub mod text;
pub mod transport;
pub mod version;
