//! The mathematical model of the wire format.
//!
//! [`spec_encode`] gives the exact byte sequence of every message;
//! [`spec_decode`] gives the exact outcome of decoding every byte sequence.
//! The executable codec in [`crate::packet`] and [`crate::parse`] is verified
//! against these two functions, and the laws in [`crate::laws`] are stated
//! over them.

use vstd::prelude::*;
use vstd::utf8::decode_utf8;
use vstd::utf8::encode_utf8;
use vstd::utf8::valid_utf8;
use crate::error::Error as DecodeError;
use crate::num::dec_bytes;
use crate::num::parse_u16_dec;
use crate::num::parse_u64_dec;
use crate::num::parse_u8_dec;
use crate::packet::Mode;
use crate::packet::Opts;

verus! {

/// Ghost form of a request: the filename as its character sequence.
pub struct ReqView {
    pub filename: Seq<char>,
    pub mode: Mode,
    pub opts: Opts,
}

/// Ghost form of the wire error taxonomy.
pub enum ErrorView {
    Msg(Seq<char>),
    UnknownError,
    FileNotFound,
    PermissionDenied,
    DiskFull,
    IllegalOperation,
    UnknownTransferId,
    FileAlreadyExists,
    NoSuchUser,
    OptionsNegotiationFailed,
}

/// Ghost form of a protocol message.
pub enum PacketView {
    Rrq(ReqView),
    Wrq(ReqView),
    Data(u16, Seq<u8>),
    Ack(u16),
    Error(ErrorView),
    OAck(Opts),
}

impl ErrorView {
    /// The wire code of each variant; `Msg` and `UnknownError` share 0.
    pub open spec fn code(self) -> u16 {
        match self {
            ErrorView::Msg(_) => 0,
            ErrorView::UnknownError => 0,
            ErrorView::FileNotFound => 1,
            ErrorView::PermissionDenied => 2,
            ErrorView::DiskFull => 3,
            ErrorView::IllegalOperation => 4,
            ErrorView::UnknownTransferId => 5,
            ErrorView::FileAlreadyExists => 6,
            ErrorView::NoSuchUser => 7,
            ErrorView::OptionsNegotiationFailed => 8,
        }
    }

    /// The message text of each variant.
    pub open spec fn msg(self) -> Seq<char> {
        match self {
            ErrorView::Msg(m) => m,
            ErrorView::UnknownError => "Unknown error"@,
            ErrorView::FileNotFound => "File not found"@,
            ErrorView::PermissionDenied => "Permission denied"@,
            ErrorView::DiskFull => "Disk is full"@,
            ErrorView::IllegalOperation => "Illegal operation"@,
            ErrorView::UnknownTransferId => "Unknown transfer ID"@,
            ErrorView::FileAlreadyExists => "File already exists"@,
            ErrorView::NoSuchUser => "No such user"@,
            ErrorView::OptionsNegotiationFailed => "Options negotiation failed"@,
        }
    }

    /// The variant a wire code and optional message text decode to. Codes 1
    /// through 8 discard the text; every other code keeps it, or falls back
    /// to `UnknownError` when there is none.
    pub open spec fn of_code(code: u16, msg: Option<Seq<char>>) -> ErrorView {
        if code == 1 {
            ErrorView::FileNotFound
        } else if code == 2 {
            ErrorView::PermissionDenied
        } else if code == 3 {
            ErrorView::DiskFull
        } else if code == 4 {
            ErrorView::IllegalOperation
        } else if code == 5 {
            ErrorView::UnknownTransferId
        } else if code == 6 {
            ErrorView::FileAlreadyExists
        } else if code == 7 {
            ErrorView::NoSuchUser
        } else if code == 8 {
            ErrorView::OptionsNegotiationFailed
        } else {
            match msg {
                Some(m) => ErrorView::Msg(m),
                None => ErrorView::UnknownError,
            }
        }
    }
}

/// The view of an optional borrowed string.
pub open spec fn str_opt_view(m: Option<&str>) -> Option<Seq<char>> {
    match m {
        Some(s) => Some(s@),
        None => None,
    }
}

/// The packet type a wire opcode names.
pub open spec fn spec_packet_type(n: u16) -> Option<crate::packet::PacketType> {
    if n == 1 {
        Some(crate::packet::PacketType::Rrq)
    } else if n == 2 {
        Some(crate::packet::PacketType::Wrq)
    } else if n == 3 {
        Some(crate::packet::PacketType::Data)
    } else if n == 4 {
        Some(crate::packet::PacketType::Ack)
    } else if n == 5 {
        Some(crate::packet::PacketType::Error)
    } else if n == 6 {
        Some(crate::packet::PacketType::OAck)
    } else {
        None
    }
}

/// The value of a big-endian 16-bit field.
pub open spec fn be16_val(hi: u8, lo: u8) -> u16 {
    (hi * 256 + lo) as u16
}

/// The two big-endian bytes of a 16-bit value.
pub open spec fn be16_bytes(v: u16) -> Seq<u8> {
    seq![(v / 256) as u8, (v % 256) as u8]
}

/// True when `s` holds no null byte (the wire's field terminator).
pub open spec fn no_nul(s: Seq<u8>) -> bool {
    forall|i: int| 0 <= i < s.len() ==> s[i] != 0
}

/// The index of the first null byte of `s`, if any.
pub open spec fn find_nul(s: Seq<u8>) -> Option<int>
    decreases s.len(),
{
    if s.len() == 0 {
        None
    } else if s[0] == 0 {
        Some(0)
    } else {
        match find_nul(s.drop_first()) {
            Some(i) => Some(i + 1),
            None => None,
        }
    }
}

/// The option block split into key/value pairs: alternating
/// null-terminated fields. `None` when a key or value misses its terminator.
pub open spec fn split_pairs(b: Seq<u8>) -> Option<Seq<(Seq<u8>, Seq<u8>)>>
    decreases b.len(),
    via split_pairs_decreases
{
    if b.len() == 0 {
        Some(Seq::empty())
    } else {
        match find_nul(b) {
            None => None,
            Some(i) => {
                let key = b.take(i);
                let rest = b.skip(i + 1);
                match find_nul(rest) {
                    None => None,
                    Some(j) => {
                        let val = rest.take(j);
                        match split_pairs(rest.skip(j + 1)) {
                            None => None,
                            Some(ps) => Some(seq![(key, val)] + ps),
                        }
                    },
                }
            },
        }
    }
}

#[via_fn]
proof fn split_pairs_decreases(b: Seq<u8>) {
    if b.len() > 0 {
        lemma_find_nul(b);
        match find_nul(b) {
            Some(i) => {
                lemma_find_nul(b.skip(i + 1));
            },
            None => {},
        }
    }
}

/// The value of the first pair whose key is `key`.
pub open spec fn find_value(ps: Seq<(Seq<u8>, Seq<u8>)>, key: Seq<u8>) -> Option<Seq<u8>>
    decreases ps.len(),
{
    if ps.len() == 0 {
        None
    } else if ps[0].0 == key {
        Some(ps[0].1)
    } else {
        find_value(ps.drop_first(), key)
    }
}

/// The bytes of the option key `blksize`.
pub open spec fn blksize_key() -> Seq<u8> {
    seq![98u8, 108u8, 107u8, 115u8, 105u8, 122u8, 101u8]
}

/// The bytes of the option key `timeout`.
pub open spec fn timeout_key() -> Seq<u8> {
    seq![116u8, 105u8, 109u8, 101u8, 111u8, 117u8, 116u8]
}

/// The bytes of the option key `windowsize`.
pub open spec fn windowsize_key() -> Seq<u8> {
    seq![119u8, 105u8, 110u8, 100u8, 111u8, 119u8, 115u8, 105u8, 122u8, 101u8]
}

/// The bytes of the option key `tsize`.
pub open spec fn tsize_key() -> Seq<u8> {
    seq![116u8, 115u8, 105u8, 122u8, 101u8]
}

/// True for the four option keys this crate knows.
pub open spec fn is_known_key(k: Seq<u8>) -> bool {
    k == blksize_key() || k == timeout_key() || k == windowsize_key() || k == tsize_key()
}

/// The options a pair list parses to: for each known key, the value of its
/// first occurrence, if that value parses as the expected integer; unknown
/// keys and malformed values leave the field absent.
pub open spec fn opts_of_pairs(ps: Seq<(Seq<u8>, Seq<u8>)>) -> Opts {
    Opts {
        block_size: match find_value(ps, blksize_key()) {
            Some(v) => parse_u16_dec(v),
            None => None,
        },
        timeout: match find_value(ps, timeout_key()) {
            Some(v) => parse_u8_dec(v),
            None => None,
        },
        transfer_size: match find_value(ps, tsize_key()) {
            Some(v) => parse_u64_dec(v),
            None => None,
        },
        window_size: match find_value(ps, windowsize_key()) {
            Some(v) => parse_u64_dec(v),
            None => None,
        },
    }
}

/// The key/value pairs a message's option set is written as, in the fixed
/// wire order: block size, timeout, window size, transfer size.
pub open spec fn opts_pairs(o: Opts) -> Seq<(Seq<u8>, Seq<u8>)> {
    (match o.block_size {
        Some(v) => seq![(blksize_key(), dec_bytes(v as nat))],
        None => Seq::empty(),
    }) + (match o.timeout {
        Some(v) => seq![(timeout_key(), dec_bytes(v as nat))],
        None => Seq::empty(),
    }) + (match o.window_size {
        Some(v) => seq![(windowsize_key(), dec_bytes(v as nat))],
        None => Seq::empty(),
    }) + (match o.transfer_size {
        Some(v) => seq![(tsize_key(), dec_bytes(v as nat))],
        None => Seq::empty(),
    })
}

/// The bytes of a pair list: each key and each value with its terminator.
pub open spec fn pairs_bytes(ps: Seq<(Seq<u8>, Seq<u8>)>) -> Seq<u8>
    decreases ps.len(),
{
    if ps.len() == 0 {
        Seq::empty()
    } else {
        ps[0].0 + seq![0u8] + ps[0].1 + seq![0u8] + pairs_bytes(ps.drop_first())
    }
}

/// The bytes of a message's option block.
pub open spec fn spec_encode_opts(o: Opts) -> Seq<u8> {
    pairs_bytes(opts_pairs(o))
}

/// A one-pair list writes its key and value, each terminated.
pub proof fn lemma_pairs_bytes_singleton(k: Seq<u8>, v: Seq<u8>)
    ensures
        pairs_bytes(seq![(k, v)]) == k + seq![0u8] + v + seq![0u8],
{
    let s = seq![(k, v)];
    let e: Seq<(Seq<u8>, Seq<u8>)> = Seq::empty();
    assert(s.drop_first() =~= e);
    assert(pairs_bytes(e) == Seq::<u8>::empty());
    assert(pairs_bytes(s) == s[0].0 + seq![0u8] + s[0].1 + seq![0u8] + pairs_bytes(s.drop_first()));
    assert(s[0].0 == k && s[0].1 == v);
    assert(pairs_bytes(s) =~= k + seq![0u8] + v + seq![0u8]);
}

/// Writing a concatenation of pair lists concatenates their bytes.
pub proof fn lemma_pairs_bytes_concat(a: Seq<(Seq<u8>, Seq<u8>)>, b: Seq<(Seq<u8>, Seq<u8>)>)
    ensures
        pairs_bytes(a + b) == pairs_bytes(a) + pairs_bytes(b),
    decreases a.len(),
{
    if a.len() == 0 {
        assert(a + b =~= b);
        assert(pairs_bytes(a) + pairs_bytes(b) =~= pairs_bytes(b));
    } else {
        lemma_pairs_bytes_concat(a.drop_first(), b);
        assert((a + b).drop_first() =~= a.drop_first() + b);
        assert((a + b)[0] == a[0]);
        assert(pairs_bytes(a + b) =~= pairs_bytes(a) + pairs_bytes(b));
    }
}

/// The key `blksize` as a vector.
pub fn key_blksize() -> (r: Vec<u8>)
    ensures
        r@ == blksize_key(),
{
    let r: Vec<u8> = vec![98u8, 108u8, 107u8, 115u8, 105u8, 122u8, 101u8];
    proof {
        assert(r@ =~= blksize_key());
    }
    r
}

/// The key `timeout` as a vector.
pub fn key_timeout() -> (r: Vec<u8>)
    ensures
        r@ == timeout_key(),
{
    let r: Vec<u8> = vec![116u8, 105u8, 109u8, 101u8, 111u8, 117u8, 116u8];
    proof {
        assert(r@ =~= timeout_key());
    }
    r
}

/// The key `windowsize` as a vector.
pub fn key_windowsize() -> (r: Vec<u8>)
    ensures
        r@ == windowsize_key(),
{
    let r: Vec<u8> = vec![119u8, 105u8, 110u8, 100u8, 111u8, 119u8, 115u8, 105u8, 122u8, 101u8];
    proof {
        assert(r@ =~= windowsize_key());
    }
    r
}

/// The key `tsize` as a vector.
pub fn key_tsize() -> (r: Vec<u8>)
    ensures
        r@ == tsize_key(),
{
    let r: Vec<u8> = vec![116u8, 115u8, 105u8, 122u8, 101u8];
    proof {
        assert(r@ =~= tsize_key());
    }
    r
}

/// The lowercase wire text of a transfer mode.
pub open spec fn mode_wire(m: Mode) -> Seq<u8> {
    match m {
        Mode::Netascii => seq![110u8, 101u8, 116u8, 97u8, 115u8, 99u8, 105u8, 105u8],
        Mode::Octet => seq![111u8, 99u8, 116u8, 101u8, 116u8],
        Mode::Mail => seq![109u8, 97u8, 105u8, 108u8],
    }
}

/// ASCII lowercasing of one byte.
pub open spec fn to_lower(b: u8) -> u8 {
    if 65 <= b <= 90 {
        (b + 32) as u8
    } else {
        b
    }
}

/// ASCII lowercasing of a byte string.
pub open spec fn lower_bytes(s: Seq<u8>) -> Seq<u8> {
    Seq::new(s.len(), |i: int| to_lower(s[i]))
}

/// The mode a request's mode field names, compared case-insensitively.
pub open spec fn mode_of_bytes(s: Seq<u8>) -> Option<Mode> {
    if lower_bytes(s) == mode_wire(Mode::Netascii) {
        Some(Mode::Netascii)
    } else if lower_bytes(s) == mode_wire(Mode::Octet) {
        Some(Mode::Octet)
    } else if lower_bytes(s) == mode_wire(Mode::Mail) {
        Some(Mode::Mail)
    } else {
        None
    }
}

/// The exact byte sequence a message encodes to.
pub open spec fn spec_encode(p: PacketView) -> Seq<u8> {
    match p {
        PacketView::Rrq(req) => seq![0u8, 1u8] + spec_encode_req(req),
        PacketView::Wrq(req) => seq![0u8, 2u8] + spec_encode_req(req),
        PacketView::Data(block, payload) => seq![0u8, 3u8] + be16_bytes(block) + payload,
        PacketView::Ack(block) => seq![0u8, 4u8] + be16_bytes(block),
        PacketView::Error(e) => seq![0u8, 5u8] + be16_bytes(e.code()) + encode_utf8(e.msg())
            + seq![0u8],
        PacketView::OAck(opts) => seq![0u8, 6u8] + spec_encode_opts(opts),
    }
}

/// The body of a request: filename, terminator, mode text, terminator,
/// option block.
pub open spec fn spec_encode_req(req: ReqView) -> Seq<u8> {
    encode_utf8(req.filename) + seq![0u8] + mode_wire(req.mode) + seq![0u8] + spec_encode_opts(
        req.opts,
    )
}

/// The exact outcome of decoding any byte sequence.
pub open spec fn spec_decode(b: Seq<u8>) -> Result<PacketView, DecodeError> {
    if b.len() < 2 {
        Err(DecodeError::InvalidPacket)
    } else {
        let op = be16_val(b[0], b[1]);
        if op == 1 {
            spec_decode_req(b.skip(2), true)
        } else if op == 2 {
            spec_decode_req(b.skip(2), false)
        } else if op == 3 {
            if b.len() < 4 {
                Err(DecodeError::InvalidPacket)
            } else {
                Ok(PacketView::Data(be16_val(b[2], b[3]), b.skip(4)))
            }
        } else if op == 4 {
            if b.len() < 4 {
                Err(DecodeError::InvalidPacket)
            } else {
                Ok(PacketView::Ack(be16_val(b[2], b[3])))
            }
        } else if op == 5 {
            spec_decode_error(b)
        } else if op == 6 {
            match split_pairs(b.skip(2)) {
                Some(ps) => Ok(PacketView::OAck(opts_of_pairs(ps))),
                None => Err(DecodeError::InvalidPacket),
            }
        } else {
            Err(DecodeError::InvalidPacket)
        }
    }
}

/// Decoding of a request body (the bytes after the opcode).
pub open spec fn spec_decode_req(b: Seq<u8>, read: bool) -> Result<PacketView, DecodeError> {
    match find_nul(b) {
        None => Err(DecodeError::InvalidPacket),
        Some(i) => {
            let fname = b.take(i);
            let rest = b.skip(i + 1);
            match find_nul(rest) {
                None => Err(DecodeError::InvalidPacket),
                Some(j) => {
                    let mode_text = rest.take(j);
                    let opt_block = rest.skip(j + 1);
                    if !valid_utf8(fname) {
                        Err(DecodeError::InvalidPacket)
                    } else {
                        match mode_of_bytes(mode_text) {
                            None => Err(DecodeError::InvalidMode),
                            Some(m) => match split_pairs(opt_block) {
                                None => Err(DecodeError::InvalidPacket),
                                Some(ps) => {
                                    let req = ReqView {
                                        filename: decode_utf8(fname),
                                        mode: m,
                                        opts: opts_of_pairs(ps),
                                    };
                                    Ok(
                                        if read {
                                            PacketView::Rrq(req)
                                        } else {
                                            PacketView::Wrq(req)
                                        },
                                    )
                                },
                            },
                        }
                    }
                },
            }
        },
    }
}

/// Decoding of an Error packet: code, then message text up to the first
/// terminator; bytes past the terminator are ignored.
pub open spec fn spec_decode_error(b: Seq<u8>) -> Result<PacketView, DecodeError> {
    if b.len() < 4 {
        Err(DecodeError::InvalidPacket)
    } else {
        let code = be16_val(b[2], b[3]);
        match find_nul(b.skip(4)) {
            None => Err(DecodeError::InvalidPacket),
            Some(i) => {
                let msg = b.skip(4).take(i);
                if valid_utf8(msg) {
                    Ok(PacketView::Error(ErrorView::of_code(code, Some(decode_utf8(msg)))))
                } else {
                    Err(DecodeError::InvalidPacket)
                }
            },
        }
    }
}

/// What [`find_nul`] returns: the first null byte's index, or nothing when
/// there is none.
pub proof fn lemma_find_nul(s: Seq<u8>)
    ensures
        match find_nul(s) {
            Some(i) => 0 <= i < s.len() && s[i] == 0 && (forall|j: int| 0 <= j < i ==> s[j] != 0),
            None => no_nul(s),
        },
    decreases s.len(),
{
    if s.len() > 0 && s[0] != 0 {
        let t = s.drop_first();
        lemma_find_nul(t);
        match find_nul(t) {
            Some(i) => {
                assert(s[i + 1] == t[i]);
                assert forall|j: int| 0 <= j < i + 1 implies s[j] != 0 by {
                    if j >= 1 {
                        assert(s[j] == t[j - 1]);
                    }
                }
            },
            None => {
                assert forall|j: int| 0 <= j < s.len() implies s[j] != 0 by {
                    if j >= 1 {
                        assert(s[j] == t[j - 1]);
                    }
                }
            },
        }
    }
}

/// A null byte with none before it is exactly what [`find_nul`] finds.
pub proof fn lemma_find_nul_exact(s: Seq<u8>, i: int)
    requires
        0 <= i < s.len(),
        s[i] == 0,
        forall|j: int| 0 <= j < i ==> s[j] != 0,
    ensures
        find_nul(s) == Some(i),
{
    lemma_find_nul(s);
    match find_nul(s) {
        Some(k) => {
            assert(k == i);
        },
        None => {
            assert(!no_nul(s));
        },
    }
}

/// A null-free string has no null to find.
pub proof fn lemma_find_nul_none(s: Seq<u8>)
    requires
        no_nul(s),
    ensures
        find_nul(s) is None,
{
    lemma_find_nul(s);
    match find_nul(s) {
        Some(k) => {
            assert(s[k] != 0);
        },
        None => {},
    }
}

/// A null-free prefix followed by a terminator is found exactly at the
/// terminator.
pub proof fn lemma_find_nul_concat(a: Seq<u8>, rest: Seq<u8>)
    requires
        no_nul(a),
    ensures
        find_nul(a + seq![0u8] + rest) == Some(a.len() as int),
{
    let s = a + seq![0u8] + rest;
    lemma_find_nul(s);
    assert(s[a.len() as int] == 0);
    match find_nul(s) {
        Some(i) => {
            if i < a.len() {
                assert(s[i] == a[i]);
            }
            assert(i == a.len());
        },
        None => {
            assert(!no_nul(s));
        },
    }
}

/// Splitting a well-terminated pair peels it off the front of the block.
pub proof fn lemma_split_pairs_cons(key: Seq<u8>, val: Seq<u8>, tail: Seq<u8>)
    requires
        no_nul(key),
        no_nul(val),
    ensures
        split_pairs(key + seq![0u8] + val + seq![0u8] + tail) == (match split_pairs(tail) {
            Some(ps) => Some(seq![(key, val)] + ps),
            None => None,
        }),
{
    let b = key + seq![0u8] + val + seq![0u8] + tail;
    assert(b =~= key + seq![0u8] + (val + seq![0u8] + tail));
    lemma_find_nul_concat(key, val + seq![0u8] + tail);
    assert(find_nul(b) == Some(key.len() as int));
    assert(b.take(key.len() as int) =~= key);
    let rest = b.skip(key.len() as int + 1);
    assert(rest =~= val + seq![0u8] + tail);
    lemma_find_nul_concat(val, tail);
    assert(find_nul(rest) == Some(val.len() as int));
    assert(rest.take(val.len() as int) =~= val);
    assert(rest.skip(val.len() as int + 1) =~= tail);
    assert(b.len() > 0);
}

} // verus!
