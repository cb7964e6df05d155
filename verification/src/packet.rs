//! Packet definitions: the protocol messages, their in-memory form, and the
//! total encoder. The fallible decoder lives in [`crate::parse`].

use vstd::prelude::*;
use vstd::string::StringSliceAdditionalSpecFns;
use vstd::utf8::is_ascii_chars;
use bytes::Bytes;
use bytes::BytesMut;
use crate::buffer::bytes_data;
use crate::buffer::bytes_mut_data;
use crate::buffer::bytes_mut_new;
use crate::buffer::freeze;
use crate::buffer::put_slice;
use crate::buffer::put_u16;
use crate::buffer::put_u8;
use crate::num::dec_bytes;
use crate::num::push_dec_u64;
use crate::wire::ErrorView;
use crate::wire::PacketView;
use crate::wire::ReqView;
use crate::wire::be16_bytes;
use crate::wire::blksize_key;
use crate::wire::key_blksize;
use crate::wire::key_timeout;
use crate::wire::key_tsize;
use crate::wire::key_windowsize;
use crate::wire::lemma_pairs_bytes_concat;
use crate::wire::lemma_pairs_bytes_singleton;
use crate::wire::mode_wire;
use crate::wire::opts_pairs;
use crate::wire::pairs_bytes;
use crate::wire::spec_encode;
use crate::wire::spec_encode_opts;
use crate::wire::spec_packet_type;
use crate::wire::timeout_key;
use crate::wire::tsize_key;
use crate::wire::windowsize_key;

verus! {

/// Length of the fixed `opcode + block number` header of a Data packet.
pub const PACKET_DATA_HEADER_LEN: usize = 4;

/// The six wire opcodes.
#[derive(Debug, Clone, Copy, PartialEq, Eq, Structural)]
pub enum PacketType {
    Rrq,
    Wrq,
    Data,
    Ack,
    Error,
    OAck,
}

/// TFTP protocol error: the taxonomy that is itself transmitted to the peer
/// inside an Error packet. Not to be confused with [`crate::error::Error`],
/// which reports local decode failures.
#[derive(Debug, Clone, PartialEq)]
pub enum Error {
    Msg(String),
    UnknownError,
    FileNotFound,
    PermissionDenied,
    DiskFull,
    IllegalOperation,
    UnknownTransferId,
    FileAlreadyExists,
    NoSuchUser,
    OptionsNegotiationFailed,
}

/// A protocol message. A `Data` payload borrows the buffer the packet was
/// decoded from (or the caller's buffer when encoding): the codec never
/// copies it.
#[derive(Debug, PartialEq)]
pub enum Packet<'a> {
    Rrq(RwReq),
    Wrq(RwReq),
    Data(u16, &'a [u8]),
    Ack(u16),
    Error(Error),
    OAck(Opts),
}

/// The transfer mode of a request, each with a canonical lowercase wire text.
#[derive(Debug, Clone, Copy, PartialEq, Eq, Structural)]
pub enum Mode {
    Netascii,
    Octet,
    Mail,
}

/// A read or write request: a resource name, a transfer mode, and the
/// proposed option set.
#[derive(Debug, PartialEq)]
pub struct RwReq {
    pub filename: String,
    pub mode: Mode,
    pub opts: Opts,
}

/// The negotiable options of a request or option-acknowledgement. A `None`
/// field was not proposed (or did not parse, options being advisory).
#[derive(Debug, Clone, PartialEq)]
pub struct Opts {
    pub block_size: Option<u16>,
    pub timeout: Option<u8>,
    pub transfer_size: Option<u64>,
    pub window_size: Option<u64>,
}

impl Default for Opts {
    /// The empty option set: nothing proposed.
    fn default() -> (r: Opts)
        ensures
            r == (Opts {
                block_size: None::<u16>,
                timeout: None::<u8>,
                transfer_size: None::<u64>,
                window_size: None::<u64>,
            }),
    {
        Opts { block_size: None, timeout: None, transfer_size: None, window_size: None }
    }
}

impl View for RwReq {
    type V = ReqView;

    open spec fn view(&self) -> ReqView {
        ReqView { filename: self.filename@, mode: self.mode, opts: self.opts }
    }
}

impl View for Error {
    type V = ErrorView;

    open spec fn view(&self) -> ErrorView {
        match self {
            Error::Msg(s) => ErrorView::Msg(s@),
            Error::UnknownError => ErrorView::UnknownError,
            Error::FileNotFound => ErrorView::FileNotFound,
            Error::PermissionDenied => ErrorView::PermissionDenied,
            Error::DiskFull => ErrorView::DiskFull,
            Error::IllegalOperation => ErrorView::IllegalOperation,
            Error::UnknownTransferId => ErrorView::UnknownTransferId,
            Error::FileAlreadyExists => ErrorView::FileAlreadyExists,
            Error::NoSuchUser => ErrorView::NoSuchUser,
            Error::OptionsNegotiationFailed => ErrorView::OptionsNegotiationFailed,
        }
    }
}

impl View for Packet<'_> {
    type V = PacketView;

    open spec fn view(&self) -> PacketView {
        match self {
            Packet::Rrq(req) => PacketView::Rrq(req@),
            Packet::Wrq(req) => PacketView::Wrq(req@),
            Packet::Data(block, data) => PacketView::Data(*block, data@),
            Packet::Ack(block) => PacketView::Ack(*block),
            Packet::Error(e) => PacketView::Error(e@),
            Packet::OAck(opts) => PacketView::OAck(*opts),
        }
    }
}

/// Appends the decimal text of `v` to the buffer.
fn put_dec(buf: &mut BytesMut, v: u64)
    ensures
        bytes_mut_data(*final(buf)) == bytes_mut_data(*old(buf)) + dec_bytes(v as nat),
{
    let mut digits: Vec<u8> = Vec::new();
    push_dec_u64(v, &mut digits);
    put_slice(buf, digits.as_slice());
    assert(bytes_mut_data(*buf) =~= bytes_mut_data(*old(buf)) + dec_bytes(v as nat));
}

/// Appends one option: its key and its decimal value, each terminated.
fn put_opt(buf: &mut BytesMut, key: &[u8], v: u64)
    ensures
        bytes_mut_data(*final(buf)) == bytes_mut_data(*old(buf)) + pairs_bytes(
            seq![(key@, dec_bytes(v as nat))],
        ),
{
    put_slice(buf, key);
    put_u8(buf, 0);
    put_dec(buf, v);
    put_u8(buf, 0);
    proof {
        lemma_pairs_bytes_singleton(key@, dec_bytes(v as nat));
        assert(bytes_mut_data(*buf) =~= bytes_mut_data(*old(buf)) + pairs_bytes(
            seq![(key@, dec_bytes(v as nat))],
        ));
    }
}

impl Opts {
    /// Appends the option block: each present option as `key NUL value NUL`,
    /// in the fixed wire order (block size, timeout, window size, transfer
    /// size).
    #[verifier::rlimit(50)]
    pub fn encode(&self, buf: &mut BytesMut)
        ensures
            bytes_mut_data(*final(buf)) == bytes_mut_data(*old(buf)) + spec_encode_opts(*self),
    {
        let ghost start = bytes_mut_data(*buf);
        let ghost p1: Seq<(Seq<u8>, Seq<u8>)> = match self.block_size {
            Some(v) => seq![(blksize_key(), dec_bytes(v as nat))],
            None => Seq::empty(),
        };
        let ghost p2: Seq<(Seq<u8>, Seq<u8>)> = match self.timeout {
            Some(v) => seq![(timeout_key(), dec_bytes(v as nat))],
            None => Seq::empty(),
        };
        let ghost p3: Seq<(Seq<u8>, Seq<u8>)> = match self.window_size {
            Some(v) => seq![(windowsize_key(), dec_bytes(v as nat))],
            None => Seq::empty(),
        };
        let ghost p4: Seq<(Seq<u8>, Seq<u8>)> = match self.transfer_size {
            Some(v) => seq![(tsize_key(), dec_bytes(v as nat))],
            None => Seq::empty(),
        };
        if let Some(v) = self.block_size {
            let key = key_blksize();
            put_opt(buf, key.as_slice(), v as u64);
        }
        assert(bytes_mut_data(*buf) =~= start + pairs_bytes(p1));
        if let Some(v) = self.timeout {
            let key = key_timeout();
            put_opt(buf, key.as_slice(), v as u64);
        }
        assert(bytes_mut_data(*buf) =~= start + pairs_bytes(p1) + pairs_bytes(p2));
        if let Some(v) = self.window_size {
            let key = key_windowsize();
            put_opt(buf, key.as_slice(), v);
        }
        assert(bytes_mut_data(*buf) =~= start + pairs_bytes(p1) + pairs_bytes(p2) + pairs_bytes(
            p3,
        ));
        if let Some(v) = self.transfer_size {
            let key = key_tsize();
            put_opt(buf, key.as_slice(), v);
        }
        proof {
            lemma_pairs_bytes_concat(p1, p2);
            lemma_pairs_bytes_concat(p1 + p2, p3);
            lemma_pairs_bytes_concat(p1 + p2 + p3, p4);
            assert(opts_pairs(*self) == p1 + p2 + p3 + p4);
            assert(bytes_mut_data(*buf) =~= start + pairs_bytes(p1 + p2 + p3 + p4));
        }
    }
}

/// Appends a request body: filename, terminator, mode text, terminator,
/// option block.
fn encode_req_body(req: &RwReq, buf: &mut BytesMut)
    ensures
        bytes_mut_data(*final(buf)) == bytes_mut_data(*old(buf)) + crate::wire::spec_encode_req(
            req@,
        ),
{
    put_slice(buf, req.filename.as_str().as_bytes());
    put_u8(buf, 0);
    put_slice(buf, req.mode.to_str().as_bytes());
    put_u8(buf, 0);
    req.opts.encode(buf);
    assert(bytes_mut_data(*buf) =~= bytes_mut_data(*old(buf)) + crate::wire::spec_encode_req(
        req@,
    ));
}

impl<'a> Packet<'a> {
    /// Appends this message's exact wire bytes to the buffer. Total: it
    /// cannot fail, whatever the message holds.
    pub fn encode(&self, buf: &mut BytesMut)
        ensures
            bytes_mut_data(*final(buf)) == bytes_mut_data(*old(buf)) + spec_encode(self@),
    {
        match self {
            Packet::Rrq(req) => {
                put_u16(buf, 1);
                encode_req_body(req, buf);
                assert(be16_bytes(1) =~= seq![0u8, 1u8]);
                assert(bytes_mut_data(*buf) =~= bytes_mut_data(*old(buf)) + spec_encode(self@));
            },
            Packet::Wrq(req) => {
                put_u16(buf, 2);
                encode_req_body(req, buf);
                assert(be16_bytes(2) =~= seq![0u8, 2u8]);
                assert(bytes_mut_data(*buf) =~= bytes_mut_data(*old(buf)) + spec_encode(self@));
            },
            Packet::Data(block, data) => {
                put_u16(buf, 3);
                put_u16(buf, *block);
                put_slice(buf, data);
                assert(bytes_mut_data(*buf) =~= bytes_mut_data(*old(buf)) + spec_encode(self@));
            },
            Packet::Ack(block) => {
                put_u16(buf, 4);
                put_u16(buf, *block);
                assert(bytes_mut_data(*buf) =~= bytes_mut_data(*old(buf)) + spec_encode(self@));
            },
            Packet::Error(e) => {
                put_u16(buf, 5);
                let code = e.code();
                put_u16(buf, code);
                put_slice(buf, e.msg().as_bytes());
                put_u8(buf, 0);
                assert(bytes_mut_data(*buf) =~= bytes_mut_data(*old(buf)) + spec_encode(self@));
            },
            Packet::OAck(opts) => {
                put_u16(buf, 6);
                opts.encode(buf);
                assert(bytes_mut_data(*buf) =~= bytes_mut_data(*old(buf)) + spec_encode(self@));
            },
        }
    }

    /// Appends only the `opcode + block number` prefix of a Data packet, so
    /// that a caller can follow it with a payload it does not want copied
    /// through an intermediate message value.
    pub fn encode_data_head(block_id: u16, buf: &mut BytesMut)
        ensures
            bytes_mut_data(*final(buf)) == bytes_mut_data(*old(buf)) + seq![0u8, 3u8]
                + be16_bytes(block_id),
    {
        put_u16(buf, 3);
        put_u16(buf, block_id);
        assert(bytes_mut_data(*buf) =~= bytes_mut_data(*old(buf)) + seq![0u8, 3u8] + be16_bytes(
            block_id,
        ));
    }

    /// This message's wire bytes in a fresh buffer.
    pub fn to_bytes(&self) -> (r: Bytes)
        ensures
            bytes_data(r) == spec_encode(self@),
    {
        let mut buf = bytes_mut_new();
        self.encode(&mut buf);
        assert(bytes_mut_data(buf) =~= spec_encode(self@));
        freeze(buf)
    }
}

impl From<PacketType> for u16 {
    /// The wire opcode of a packet type.
    fn from(value: PacketType) -> (r: u16) {
        value.to_u16()
    }
}

impl vstd::std_specs::convert::FromSpecImpl<PacketType> for u16 {
    open spec fn obeys_from_spec() -> bool {
        true
    }

    open spec fn from_spec(t: PacketType) -> u16 {
        match t {
            PacketType::Rrq => 1,
            PacketType::Wrq => 2,
            PacketType::Data => 3,
            PacketType::Ack => 4,
            PacketType::Error => 5,
            PacketType::OAck => 6,
        }
    }
}

impl<'a> From<Error> for Packet<'a> {
    /// Wraps a wire error as the message that carries it.
    fn from(inner: Error) -> (r: Self) {
        Packet::Error(inner)
    }
}

impl<'a> vstd::std_specs::convert::FromSpecImpl<Error> for Packet<'a> {
    open spec fn obeys_from_spec() -> bool {
        true
    }

    open spec fn from_spec(t: Error) -> Self {
        Packet::Error(t)
    }
}

impl PacketType {
    /// The packet type a wire opcode names, if any.
    pub fn from_u16(n: u16) -> (r: Option<PacketType>)
        ensures
            r == spec_packet_type(n),
    {
        match n {
            1u16 => Some(PacketType::Rrq),
            2u16 => Some(PacketType::Wrq),
            3u16 => Some(PacketType::Data),
            4u16 => Some(PacketType::Ack),
            5u16 => Some(PacketType::Error),
            6u16 => Some(PacketType::OAck),
            _ => None,
        }
    }

    /// The wire opcode of this packet type.
    pub fn to_u16(self) -> (r: u16)
        ensures
            spec_packet_type(r) == Some(self),
    {
        match self {
            PacketType::Rrq => 1,
            PacketType::Wrq => 2,
            PacketType::Data => 3,
            PacketType::Ack => 4,
            PacketType::Error => 5,
            PacketType::OAck => 6,
        }
    }
}

impl Mode {
    /// The canonical wire text of this mode.
    pub fn to_str(&self) -> (r: &'static str)
        ensures
            r.spec_bytes() == mode_wire(*self),
    {
        match self {
            Mode::Netascii => {
                proof {
                    reveal_strlit("netascii");
                    assert(is_ascii_chars("netascii"@));
                    vstd::utf8::is_ascii_chars_encode_utf8("netascii"@);
                    assert("netascii".spec_bytes() =~= mode_wire(Mode::Netascii));
                }
                "netascii"
            },
            Mode::Octet => {
                proof {
                    reveal_strlit("octet");
                    assert(is_ascii_chars("octet"@));
                    vstd::utf8::is_ascii_chars_encode_utf8("octet"@);
                    assert("octet".spec_bytes() =~= mode_wire(Mode::Octet));
                }
                "octet"
            },
            Mode::Mail => {
                proof {
                    reveal_strlit("mail");
                    assert(is_ascii_chars("mail"@));
                    vstd::utf8::is_ascii_chars_encode_utf8("mail"@);
                    assert("mail".spec_bytes() =~= mode_wire(Mode::Mail));
                }
                "mail"
            },
        }
    }
}

impl Error {
    /// The variant a wire error code and message text decode to. Codes 1
    /// through 8 name a fixed variant and discard the text; any other code
    /// keeps the text as [`Error::Msg`], or is [`Error::UnknownError`]
    /// without text.
    pub fn from_code(code: u16, msg: Option<&str>) -> (r: Error)
        ensures
            r@ == ErrorView::of_code(code, crate::wire::str_opt_view(msg)),
    {
        match code {
            1u16 => Error::FileNotFound,
            2u16 => Error::PermissionDenied,
            3u16 => Error::DiskFull,
            4u16 => Error::IllegalOperation,
            5u16 => Error::UnknownTransferId,
            6u16 => Error::FileAlreadyExists,
            7u16 => Error::NoSuchUser,
            8u16 => Error::OptionsNegotiationFailed,
            _ => match msg {
                Some(m) => Error::Msg(m.to_owned()),
                None => Error::UnknownError,
            },
        }
    }

    /// The wire code of this error. `Msg` and `UnknownError` share code 0:
    /// the wire cannot tell them apart, by design.
    pub fn code(&self) -> (r: u16)
        ensures
            r == self@.code(),
    {
        match self {
            Error::Msg(..) => 0,
            Error::UnknownError => 0,
            Error::FileNotFound => 1,
            Error::PermissionDenied => 2,
            Error::DiskFull => 3,
            Error::IllegalOperation => 4,
            Error::UnknownTransferId => 5,
            Error::FileAlreadyExists => 6,
            Error::NoSuchUser => 7,
            Error::OptionsNegotiationFailed => 8,
        }
    }

    /// The message text of this error: the stored text for `Msg`, a fixed
    /// canonical text for every other variant.
    pub fn msg(&self) -> (r: &str)
        ensures
            r@ == self@.msg(),
    {
        match self {
            Error::Msg(m) => m.as_str(),
            Error::UnknownError => "Unknown error",
            Error::FileNotFound => "File not found",
            Error::PermissionDenied => "Permission denied",
            Error::DiskFull => "Disk is full",
            Error::IllegalOperation => "Illegal operation",
            Error::UnknownTransferId => "Unknown transfer ID",
            Error::FileAlreadyExists => "File already exists",
            Error::NoSuchUser => "No such user",
            Error::OptionsNegotiationFailed => "Options negotiation failed",
        }
    }
}

} // verus!
