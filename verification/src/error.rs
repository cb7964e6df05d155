//! Local failures of the codec.
//!
//! These are reported to the caller of [`crate::packet::Packet::decode`] and
//! never cross the wire; the wire-level error taxonomy is
//! [`crate::packet::Error`].

use vstd::prelude::*;

verus! {

/// `std::io::Error`, declared so that a value of it can be carried inside
/// [`Error::Io`]. The codec itself never constructs one; the surrounding
/// transport does.
#[verifier::external_type_specification]
#[verifier::external_body]
pub struct ExIoError(std::io::Error);

/// A failure to turn bytes into a packet, or a transport failure wrapped for
/// uniform reporting. Decoding itself only ever produces [`Error::InvalidMode`]
/// and [`Error::InvalidPacket`].
#[derive(Debug)]
pub enum Error {
    /// A request's transfer-mode text is not one of the known modes.
    InvalidMode,
    /// The bytes cannot be parsed as a packet: too short, unknown opcode, a
    /// missing terminator, or text that is not valid UTF-8.
    InvalidPacket,
    /// An I/O failure of the surrounding transport.
    Io(std::io::Error),
}

} // verus!
