//! The output buffer the encoder appends to.
//!
//! The encoder writes into `bytes::BytesMut`, the growable byte buffer the
//! surrounding transport hands it. The buffer type is opaque here: its
//! contents are named by [`bytes_mut_data`] and [`bytes_data`], and each
//! method the encoder needs is a small trusted wrapper whose contract states
//! what the `bytes` crate's source shows.

use vstd::prelude::*;
use bytes::BufMut;
use crate::wire::be16_bytes;

verus! {

/// `bytes::BytesMut`, declared so that it can stand in signatures.
#[verifier::external_type_specification]
#[verifier::external_body]
pub struct ExBytesMut(bytes::BytesMut);

/// `bytes::Bytes`, declared so that it can stand in signatures.
#[verifier::external_type_specification]
#[verifier::external_body]
pub struct ExBytes(bytes::Bytes);

/// The byte contents of a `BytesMut`.
pub uninterp spec fn bytes_mut_data(b: bytes::BytesMut) -> Seq<u8>;

/// The byte contents of a `Bytes`.
pub uninterp spec fn bytes_data(b: bytes::Bytes) -> Seq<u8>;

/// Relies on `BytesMut::new`: a buffer of length zero.
#[verifier::external_body]
pub fn bytes_mut_new() -> (r: bytes::BytesMut)
    ensures
        bytes_mut_data(r) == Seq::<u8>::empty(),
{
    bytes::BytesMut::new()
}

/// Relies on `BufMut::put_u8` for `BytesMut`: appends the one byte.
#[verifier::external_body]
pub fn put_u8(buf: &mut bytes::BytesMut, v: u8)
    ensures
        bytes_mut_data(*final(buf)) == bytes_mut_data(*old(buf)).push(v),
{
    buf.put_u8(v);
}

/// Relies on `BufMut::put_u16` for `BytesMut`: appends the two big-endian
/// bytes of `v`.
#[verifier::external_body]
pub fn put_u16(buf: &mut bytes::BytesMut, v: u16)
    ensures
        bytes_mut_data(*final(buf)) == bytes_mut_data(*old(buf)) + be16_bytes(v),
{
    buf.put_u16(v);
}

/// Relies on `BufMut::put_slice` for `BytesMut`: appends a copy of the
/// slice.
#[verifier::external_body]
pub fn put_slice(buf: &mut bytes::BytesMut, s: &[u8])
    ensures
        bytes_mut_data(*final(buf)) == bytes_mut_data(*old(buf)) + s@,
{
    buf.put_slice(s);
}

/// Relies on `BytesMut::freeze`: the frozen buffer holds the same bytes.
#[verifier::external_body]
pub fn freeze(buf: bytes::BytesMut) -> (r: bytes::Bytes)
    ensures
        bytes_data(r) == bytes_mut_data(buf),
{
    buf.freeze()
}

} // verus!
