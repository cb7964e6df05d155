//! Conversions from local failures into the wire error taxonomy, so that
//! any failure of the surrounding system can be turned into a well-formed
//! Error message for the peer. The mappings are total: unmapped cases fall
//! back to [`Error::UnknownError`] rather than failing.

use vstd::prelude::*;
use vstd::string::StringExecFns;
use vstd::string::StringSliceAdditionalSpecFns;
use vstd::utf8::decode_utf8;
use vstd::utf8::encode_utf8;
use vstd::utf8::encode_utf8_decode_utf8;
use vstd::utf8::encode_utf8_valid_utf8;
use vstd::utf8::is_ascii_chars;
use vstd::utf8::is_ascii_chars_encode_utf8;
use vstd::utf8::valid_utf8;
use crate::num::dec_bytes;
use crate::num::is_digit;
use crate::num::lemma_dec_bytes_val;
use crate::num::push_dec_u64;
use crate::packet::Error;
use crate::wire::ErrorView;

verus! {

/// What the error mapping reads of a local I/O failure: the kind class it
/// tells apart, with every other kind as `Other`.
#[derive(Debug, Clone, Copy, PartialEq, Eq, Structural)]
pub enum IoKind {
    NotFound,
    PermissionDenied,
    WriteZero,
    AlreadyExists,
    Other,
}

/// Relies on `std::io::Error::kind`: names the error's kind; which one
/// comes back depends on the failure, so nothing more is promised.
#[verifier::external_body]
fn io_error_kind_class(e: &std::io::Error) -> IoKind {
    match e.kind() {
        std::io::ErrorKind::NotFound => IoKind::NotFound,
        std::io::ErrorKind::PermissionDenied => IoKind::PermissionDenied,
        std::io::ErrorKind::WriteZero => IoKind::WriteZero,
        std::io::ErrorKind::AlreadyExists => IoKind::AlreadyExists,
        _ => IoKind::Other,
    }
}

/// Relies on `std::io::Error::raw_os_error`: the OS status code, when the
/// error carries one; which one comes back depends on the failure.
#[verifier::external_body]
fn io_error_raw_code(e: &std::io::Error) -> Option<i32> {
    e.raw_os_error()
}

/// The decimal digit characters of `v`.
pub open spec fn dec_chars(v: nat) -> Seq<char> {
    dec_bytes(v).map_values(|b: u8| b as char)
}

/// The signed decimal text of `rc`.
pub open spec fn int_dec_chars(rc: int) -> Seq<char> {
    if rc < 0 {
        seq!['-'] + dec_chars((0 - rc) as nat)
    } else {
        dec_chars(rc as nat)
    }
}

/// The text an otherwise-unmapped I/O failure with status code `rc` is
/// reported with.
pub open spec fn io_msg_chars(rc: int) -> Seq<char> {
    "IO error: "@ + int_dec_chars(rc)
}

/// The error a classified I/O failure maps to.
pub open spec fn spec_from_io_parts(kind: IoKind, raw_code: Option<i32>) -> ErrorView {
    match kind {
        IoKind::NotFound => ErrorView::FileNotFound,
        IoKind::PermissionDenied => ErrorView::PermissionDenied,
        IoKind::WriteZero => ErrorView::DiskFull,
        IoKind::AlreadyExists => ErrorView::FileAlreadyExists,
        IoKind::Other => match raw_code {
            Some(rc) => ErrorView::Msg(io_msg_chars(rc as int)),
            None => ErrorView::UnknownError,
        },
    }
}

/// A byte sequence of ASCII values is valid UTF-8 and decodes to the same
/// values as characters.
pub proof fn lemma_ascii_bytes_utf8(b: Seq<u8>)
    requires
        forall|i: int| 0 <= i < b.len() ==> b[i] < 128,
    ensures
        valid_utf8(b),
        decode_utf8(b) == b.map_values(|x: u8| x as char),
{
    let chars = b.map_values(|x: u8| x as char);
    assert(chars.len() == b.len());
    assert forall|i: int| 0 <= i < chars.len() implies '\0' <= #[trigger] chars[i] <= '\u{7f}' by {
        assert(chars[i] == b[i] as char);
    }
    assert(is_ascii_chars(chars));
    is_ascii_chars_encode_utf8(chars);
    assert forall|i: int| 0 <= i < chars.len() implies #[trigger] encode_utf8(chars)[i] == b[i] by {
        assert(chars[i] as u8 == encode_utf8(chars)[i]);
        assert(chars[i] == b[i] as char);
    }
    assert(encode_utf8(chars) =~= b);
    encode_utf8_valid_utf8(chars);
    encode_utf8_decode_utf8(chars);
}

/// The signed decimal text of `v`, as a string.
fn fmt_i32(v: i32) -> (s: String)
    ensures
        s@ == int_dec_chars(v as int),
{
    let mag: u64 = if v < 0 {
        (-(v as i64)) as u64
    } else {
        v as u64
    };
    let mut digits: Vec<u8> = Vec::new();
    push_dec_u64(mag, &mut digits);
    proof {
        lemma_dec_bytes_val(mag as nat);
        assert forall|i: int| 0 <= i < digits@.len() implies digits@[i] < 128 by {
            assert(is_digit(digits@[i]));
        }
        lemma_ascii_bytes_utf8(digits@);
    }
    let tail = match crate::parse::try_str_from_bytes(digits.as_slice()) {
        Some(t) => t,
        None => {
            proof {
                assert(false);
            }
            ""
        },
    };
    proof {
        encode_utf8_decode_utf8(tail@);
        assert(tail@ == dec_chars(mag as nat));
    }
    let mut s = if v < 0 {
        let r = String::from_str("-");
        proof {
            reveal_strlit("-");
            assert(r@ =~= seq!['-']);
        }
        r
    } else {
        String::new()
    };
    s.append(tail);
    proof {
        assert(s@ =~= int_dec_chars(v as int));
    }
    s
}

impl Error {
    /// The error a classified local I/O failure maps to: the four kinds the
    /// taxonomy names go to their fixed variant; anything else becomes a
    /// `Msg` carrying the OS status code, or `UnknownError` without one.
    pub fn from_io_parts(kind: IoKind, raw_code: Option<i32>) -> (r: Error)
        ensures
            r@ == spec_from_io_parts(kind, raw_code),
    {
        match kind {
            IoKind::NotFound => Error::FileNotFound,
            IoKind::PermissionDenied => Error::PermissionDenied,
            IoKind::WriteZero => Error::DiskFull,
            IoKind::AlreadyExists => Error::FileAlreadyExists,
            IoKind::Other => match raw_code {
                Some(rc) => {
                    let mut s = String::from_str("IO error: ");
                    let tail = fmt_i32(rc);
                    s.append(tail.as_str());
                    Error::Msg(s)
                },
                None => Error::UnknownError,
            },
        }
    }

    /// The error a local I/O failure maps to. What `kind` and
    /// `raw_os_error` return depends on the failure, so only the shape of
    /// the result is promised; the mapping itself is
    /// [`Error::from_io_parts`].
    pub fn from_io(e: &std::io::Error) -> (r: Error)
        ensures
            exists|k: IoKind, c: Option<i32>| r@ == spec_from_io_parts(k, c),
    {
        let kind = io_error_kind_class(e);
        let raw_code = io_error_raw_code(e);
        let r = Error::from_io_parts(kind, raw_code);
        proof {
            assert(r@ == spec_from_io_parts(kind, raw_code));
        }
        r
    }
}

/// A failure of the surrounding transfer session, as handed to
/// [`Error::from_transfer`] so that it can always be answered with a
/// well-formed Error packet.
#[derive(Debug)]
pub enum TransferError {
    /// A protocol error already decoded from, or destined for, the wire.
    Packet(Error),
    /// A local I/O failure.
    Io(std::io::Error),
    /// A malformed packet was seen mid-session.
    InvalidPacket,
    /// A request named an unknown transfer mode.
    InvalidMode,
    /// The retransmission limit was reached.
    MaxSendRetriesReached,
}

impl Error {
    /// The wire error a session failure maps to; total, with
    /// `UnknownError` for what has no closer image.
    pub fn from_transfer(e: TransferError) -> (r: Error)
        ensures
            match e {
                TransferError::Packet(pe) => r@ == pe@,
                TransferError::Io(_) => exists|k: IoKind, c: Option<i32>|
                    r@ == spec_from_io_parts(k, c),
                TransferError::InvalidPacket => r@ == ErrorView::IllegalOperation,
                TransferError::InvalidMode => r@ == ErrorView::UnknownError,
                TransferError::MaxSendRetriesReached => r@ == ErrorView::Msg(
                    "Max retries reached"@,
                ),
            },
    {
        match e {
            TransferError::Packet(pe) => pe,
            TransferError::Io(ioe) => Error::from_io(&ioe),
            TransferError::InvalidPacket => Error::IllegalOperation,
            TransferError::InvalidMode => Error::UnknownError,
            TransferError::MaxSendRetriesReached => Error::Msg(
                String::from_str("Max retries reached"),
            ),
        }
    }
}

} // verus!
