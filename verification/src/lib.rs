//! Wire-format layer of a TFTP-style file-transfer protocol.
//!
//! The crate defines the protocol messages ([`packet::Packet`]), their binary
//! encoding and decoding, the negotiable option block ([`packet::Opts`]) and
//! the protocol error taxonomy ([`packet::Error`]). Every encoder and decoder
//! is verified against a mathematical description of the byte layout in
//! [`wire`], and the laws the codec obeys (round-tripping, order-independent
//! option parsing) are proved in [`laws`].

pub mod buffer;
pub mod convert;
pub mod error;
pub mod laws;
pub mod num;
pub mod packet;
pub mod parse;
pub mod wire;
