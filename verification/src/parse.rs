//! The decoder: from an arbitrary byte sequence to a packet, or a safe
//! failure. Verified to return exactly what [`crate::wire::spec_decode`]
//! says, for every input; in particular it never panics and never reads
//! outside the given buffer.

use vstd::prelude::*;
use vstd::slice::slice_subrange;
use vstd::slice::slice_to_vec;
use vstd::string::StringSliceAdditionalSpecFns;
use vstd::utf8::encode_utf8_decode_utf8;
use vstd::utf8::encode_utf8_valid_utf8;
use vstd::utf8::valid_utf8;
use crate::error::Error;
use crate::packet::Mode;
use crate::packet::Opts;
use crate::packet::Packet;
use crate::packet::RwReq;
use crate::wire::PacketView;
use crate::wire::be16_val;
use crate::wire::find_nul;
use crate::wire::find_value;
use crate::wire::key_blksize;
use crate::wire::key_timeout;
use crate::wire::key_tsize;
use crate::wire::key_windowsize;
use crate::wire::lemma_find_nul_exact;
use crate::wire::lemma_find_nul_none;
use crate::wire::lower_bytes;
use crate::wire::mode_of_bytes;
use crate::wire::mode_wire;
use crate::wire::opts_of_pairs;
use crate::wire::spec_decode;
use crate::wire::spec_decode_error;
use crate::wire::spec_decode_req;
use crate::wire::split_pairs;

verus! {

/// The ghost pair list of a vector of parsed key/value pairs.
pub open spec fn pairs_view(ps: Seq<(Vec<u8>, Vec<u8>)>) -> Seq<(Seq<u8>, Seq<u8>)> {
    Seq::new(ps.len(), |i: int| (ps[i].0@, ps[i].1@))
}

/// Relies on `core::str::from_utf8`: succeeds exactly on valid UTF-8, and
/// the returned string views the same bytes.
#[verifier::external_body]
pub(crate) fn try_str_from_bytes(v: &[u8]) -> (r: Option<&str>)
    ensures
        r is Some <==> valid_utf8(v@),
        r matches Some(s) ==> s.spec_bytes() == v@,
{
    core::str::from_utf8(v).ok()
}

/// The index of the first null byte at or after `start`, if any.
fn find_zero(b: &[u8], start: usize) -> (r: Option<usize>)
    requires
        start <= b@.len(),
    ensures
        match r {
            Some(i) => start <= i < b@.len() && find_nul(b@.skip(start as int)) == Some(
                i - start as int,
            ),
            None => find_nul(b@.skip(start as int)) is None,
        },
{
    let ghost s = b@.skip(start as int);
    let mut i: usize = start;
    while i < b.len()
        invariant
            start <= i <= b@.len(),
            s == b@.skip(start as int),
            forall|j: int| start <= j < i ==> b@[j] != 0,
        decreases b@.len() - i,
    {
        if b[i] == 0 {
            proof {
                assert(s[i - start as int] == b@[i as int]);
                assert forall|j: int| 0 <= j < i - start as int implies s[j] != 0 by {
                    assert(s[j] == b@[j + start]);
                }
                lemma_find_nul_exact(s, i - start as int);
            }
            return Some(i);
        }
        i = i + 1;
    }
    proof {
        assert forall|j: int| 0 <= j < s.len() implies s[j] != 0 by {
            assert(s[j] == b@[j + start]);
        }
        lemma_find_nul_none(s);
    }
    None
}

/// True exactly when the two slices hold the same bytes.
fn bytes_eq(a: &[u8], b: &[u8]) -> (r: bool)
    ensures
        r == (a@ == b@),
{
    if a.len() != b.len() {
        return false;
    }
    let mut i: usize = 0;
    while i < a.len()
        invariant
            i <= a@.len(),
            a@.len() == b@.len(),
            forall|j: int| 0 <= j < i ==> a@[j] == b@[j],
        decreases a@.len() - i,
    {
        if a[i] != b[i] {
            return false;
        }
        i = i + 1;
    }
    proof {
        assert(a@ =~= b@);
    }
    true
}

/// The ASCII lowercasing of a byte slice.
fn to_lower_vec(b: &[u8]) -> (r: Vec<u8>)
    ensures
        r@ == lower_bytes(b@),
{
    let mut r: Vec<u8> = Vec::new();
    let mut i: usize = 0;
    while i < b.len()
        invariant
            i <= b@.len(),
            r@.len() == i,
            forall|j: int| 0 <= j < i ==> r@[j] == crate::wire::to_lower(b@[j]),
        decreases b@.len() - i,
    {
        let c = b[i];
        if c >= 65 && c <= 90 {
            r.push(c + 32);
        } else {
            r.push(c);
        }
        i = i + 1;
    }
    proof {
        assert(r@ =~= lower_bytes(b@));
    }
    r
}

/// The transfer mode a mode field names, compared case-insensitively.
fn mode_of(m: &[u8]) -> (r: Option<Mode>)
    ensures
        r == mode_of_bytes(m@),
{
    let low = to_lower_vec(m);
    let net: Vec<u8> = vec![110u8, 101u8, 116u8, 97u8, 115u8, 99u8, 105u8, 105u8];
    proof {
        assert(net@ =~= mode_wire(Mode::Netascii));
    }
    if bytes_eq(low.as_slice(), net.as_slice()) {
        return Some(Mode::Netascii);
    }
    let oct: Vec<u8> = vec![111u8, 99u8, 116u8, 101u8, 116u8];
    proof {
        assert(oct@ =~= mode_wire(Mode::Octet));
    }
    if bytes_eq(low.as_slice(), oct.as_slice()) {
        return Some(Mode::Octet);
    }
    let mail: Vec<u8> = vec![109u8, 97u8, 105u8, 108u8];
    proof {
        assert(mail@ =~= mode_wire(Mode::Mail));
    }
    if bytes_eq(low.as_slice(), mail.as_slice()) {
        return Some(Mode::Mail);
    }
    None
}

/// Splits the option block beginning at `start` into key/value pairs, or
/// fails when a key or value misses its terminator.
fn parse_opt_block(b: &[u8], start: usize) -> (r: Option<Vec<(Vec<u8>, Vec<u8>)>>)
    requires
        start <= b@.len(),
    ensures
        match r {
            Some(ps) => split_pairs(b@.skip(start as int)) == Some(pairs_view(ps@)),
            None => split_pairs(b@.skip(start as int)) is None,
        },
{
    let mut ps: Vec<(Vec<u8>, Vec<u8>)> = Vec::new();
    let mut cur: usize = start;
    loop
        invariant
            start <= cur <= b@.len(),
            match split_pairs(b@.skip(cur as int)) {
                Some(tail) => split_pairs(b@.skip(start as int)) == Some(pairs_view(ps@) + tail),
                None => split_pairs(b@.skip(start as int)) is None,
            },
        decreases b@.len() - cur,
    {
        if cur >= b.len() {
            proof {
                assert(b@.skip(cur as int) =~= Seq::<u8>::empty());
                assert(split_pairs(b@.skip(cur as int)) == Some(Seq::<(Seq<u8>, Seq<u8>)>::empty()));
                assert(pairs_view(ps@) + Seq::<(Seq<u8>, Seq<u8>)>::empty() =~= pairs_view(ps@));
            }
            return Some(ps);
        }
        let ghost block = b@.skip(cur as int);
        let i = match find_zero(b, cur) {
            Some(i) => i,
            None => {
                proof {
                    assert(block.len() > 0);
                }
                return None;
            },
        };
        let ghost rest = block.skip(i - cur as int + 1);
        proof {
            assert(rest =~= b@.skip(i as int + 1));
        }
        let j = match find_zero(b, i + 1) {
            Some(j) => j,
            None => {
                proof {
                    assert(block.len() > 0);
                }
                return None;
            },
        };
        let key = slice_to_vec(slice_subrange(b, cur, i));
        let val = slice_to_vec(slice_subrange(b, i + 1, j));
        proof {
            assert(block.take(i - cur as int) =~= b@.subrange(cur as int, i as int));
            assert(rest.take(j - (i as int + 1)) =~= b@.subrange(i as int + 1, j as int));
            assert(rest.skip(j - (i as int + 1) + 1) =~= b@.skip(j as int + 1));
            assert(block.len() > 0);
        }
        let ghost old_ps = ps@;
        ps.push((key, val));
        proof {
            assert(pairs_view(ps@) =~= pairs_view(old_ps) + seq![(key@, val@)]);
            match split_pairs(b@.skip(j as int + 1)) {
                Some(tail2) => {
                    assert(split_pairs(block) == Some(seq![(key@, val@)] + tail2));
                    assert(pairs_view(old_ps) + (seq![(key@, val@)] + tail2) =~= pairs_view(ps@)
                        + tail2);
                },
                None => {
                    assert(split_pairs(block) is None);
                },
            }
        }
        cur = j + 1;
    }
}

/// The value of the first pair carrying `key`, if any.
fn lookup<'p>(ps: &'p Vec<(Vec<u8>, Vec<u8>)>, key: &[u8]) -> (r: Option<&'p Vec<u8>>)
    ensures
        match r {
            Some(v) => find_value(pairs_view(ps@), key@) == Some(v@),
            None => find_value(pairs_view(ps@), key@) is None,
        },
{
    let ghost full = pairs_view(ps@);
    proof {
        assert(full.skip(0) =~= full);
    }
    let mut i: usize = 0;
    while i < ps.len()
        invariant
            i <= ps@.len(),
            full == pairs_view(ps@),
            find_value(full, key@) == find_value(full.skip(i as int), key@),
        decreases ps@.len() - i,
    {
        let pair = &ps[i];
        proof {
            assert(full.skip(i as int)[0] == (ps@[i as int].0@, ps@[i as int].1@));
        }
        if bytes_eq(pair.0.as_slice(), key) {
            return Some(&pair.1);
        }
        proof {
            assert(full.skip(i as int).drop_first() =~= full.skip(i as int + 1));
        }
        i = i + 1;
    }
    proof {
        assert(full.skip(ps@.len() as int) =~= Seq::<(Seq<u8>, Seq<u8>)>::empty());
    }
    None
}

/// The options a parsed pair list carries: known keys only, first
/// occurrence, malformed values left absent.
fn opts_from_pairs(ps: &Vec<(Vec<u8>, Vec<u8>)>) -> (r: Opts)
    ensures
        r == opts_of_pairs(pairs_view(ps@)),
{
    let kb = key_blksize();
    let block_size = match lookup(ps, kb.as_slice()) {
        Some(v) => crate::num::parse_u16(v.as_slice()),
        None => None,
    };
    let kt = key_timeout();
    let timeout = match lookup(ps, kt.as_slice()) {
        Some(v) => crate::num::parse_u8(v.as_slice()),
        None => None,
    };
    let ks = key_tsize();
    let transfer_size = match lookup(ps, ks.as_slice()) {
        Some(v) => crate::num::parse_u64(v.as_slice()),
        None => None,
    };
    let kw = key_windowsize();
    let window_size = match lookup(ps, kw.as_slice()) {
        Some(v) => crate::num::parse_u64(v.as_slice()),
        None => None,
    };
    Opts { block_size, timeout, transfer_size, window_size }
}

/// Decodes a request body (opcode already read): filename, mode, options.
fn decode_req<'a>(data: &'a [u8], read: bool) -> (r: Result<Packet<'a>, Error>)
    requires
        data@.len() >= 2,
    ensures
        match r {
            Ok(p) => spec_decode_req(data@.skip(2), read) == Ok::<PacketView, Error>(p@),
            Err(e) => spec_decode_req(data@.skip(2), read) == Err::<PacketView, Error>(e),
        },
{
    // The exec length bounds the view's length by usize, which the index
    // arithmetic below needs.
    let n: usize = data.len();
    assert(data@.len() == n);
    let ghost body = data@.skip(2);
    let i = match find_zero(data, 2) {
        Some(i) => i,
        None => {
            return Err(Error::InvalidPacket);
        },
    };
    proof {
        assert(body.take(i - 2) =~= data@.subrange(2, i as int));
        assert(body.skip(i - 2 + 1) =~= data@.skip(i as int + 1));
    }
    let ghost rest = data@.skip(i as int + 1);
    let j = match find_zero(data, i + 1) {
        Some(j) => j,
        None => {
            return Err(Error::InvalidPacket);
        },
    };
    proof {
        assert(rest.take(j - (i as int + 1)) =~= data@.subrange(i as int + 1, j as int));
        assert(rest.skip(j - (i as int + 1) + 1) =~= data@.skip(j as int + 1));
    }
    let fname_b = slice_subrange(data, 2, i);
    let mode_b = slice_subrange(data, i + 1, j);
    let fname_s = match try_str_from_bytes(fname_b) {
        Some(s) => s,
        None => {
            return Err(Error::InvalidPacket);
        },
    };
    proof {
        encode_utf8_valid_utf8(fname_s@);
        encode_utf8_decode_utf8(fname_s@);
    }
    let mode = match mode_of(mode_b) {
        Some(m) => m,
        None => {
            return Err(Error::InvalidMode);
        },
    };
    let ps = match parse_opt_block(data, j + 1) {
        Some(ps) => ps,
        None => {
            return Err(Error::InvalidPacket);
        },
    };
    let opts = opts_from_pairs(&ps);
    let req = RwReq { filename: fname_s.to_owned(), mode, opts };
    if read {
        Ok(Packet::Rrq(req))
    } else {
        Ok(Packet::Wrq(req))
    }
}

/// Decodes an Error packet: code, then message up to its terminator.
fn decode_error<'a>(data: &'a [u8]) -> (r: Result<Packet<'a>, Error>)
    requires
        data@.len() >= 2,
    ensures
        match r {
            Ok(p) => spec_decode_error(data@) == Ok::<PacketView, Error>(p@),
            Err(e) => spec_decode_error(data@) == Err::<PacketView, Error>(e),
        },
{
    if data.len() < 4 {
        return Err(Error::InvalidPacket);
    }
    let code: u16 = (data[2] as u16) * 256 + (data[3] as u16);
    let i = match find_zero(data, 4) {
        Some(i) => i,
        None => {
            return Err(Error::InvalidPacket);
        },
    };
    proof {
        assert(data@.skip(4).take(i - 4) =~= data@.subrange(4, i as int));
    }
    let msg_b = slice_subrange(data, 4, i);
    let msg_s = match try_str_from_bytes(msg_b) {
        Some(s) => s,
        None => {
            return Err(Error::InvalidPacket);
        },
    };
    proof {
        encode_utf8_valid_utf8(msg_s@);
        encode_utf8_decode_utf8(msg_s@);
    }
    let err = crate::packet::Error::from_code(code, Some(msg_s));
    Ok(Packet::Error(err))
}

impl<'a> Packet<'a> {
    /// Decodes a datagram. Returns exactly what [`spec_decode`] gives for
    /// these bytes: the message, or `InvalidMode` for a request with an
    /// unknown transfer mode, or `InvalidPacket` for anything else
    /// malformed. A `Data` payload borrows `data`; nothing past `data` is
    /// ever read.
    pub fn decode(data: &'a [u8]) -> (r: Result<Packet<'a>, Error>)
        ensures
            match r {
                Ok(p) => spec_decode(data@) == Ok::<PacketView, Error>(p@),
                Err(e) => spec_decode(data@) == Err::<PacketView, Error>(e),
            },
    {
        if data.len() < 2 {
            return Err(Error::InvalidPacket);
        }
        let op: u16 = (data[0] as u16) * 256 + (data[1] as u16);
        proof {
            assert(op == be16_val(data@[0], data@[1]));
        }
        if op == 1 {
            decode_req(data, true)
        } else if op == 2 {
            decode_req(data, false)
        } else if op == 3 {
            if data.len() < 4 {
                return Err(Error::InvalidPacket);
            }
            let block: u16 = (data[2] as u16) * 256 + (data[3] as u16);
            let payload = slice_subrange(data, 4, data.len());
            proof {
                assert(payload@ =~= data@.skip(4));
            }
            Ok(Packet::Data(block, payload))
        } else if op == 4 {
            if data.len() < 4 {
                return Err(Error::InvalidPacket);
            }
            let block: u16 = (data[2] as u16) * 256 + (data[3] as u16);
            Ok(Packet::Ack(block))
        } else if op == 5 {
            decode_error(data)
        } else if op == 6 {
            match parse_opt_block(data, 2) {
                Some(ps) => {
                    let o = opts_from_pairs(&ps);
                    Ok(Packet::OAck(o))
                },
                None => Err(Error::InvalidPacket),
            }
        } else {
            Err(Error::InvalidPacket)
        }
    }
}

} // verus!
