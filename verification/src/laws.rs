//! The laws the codec obeys, proved over the wire model: encoding
//! round-trips through decoding, the error taxonomy's code mapping is its
//! own inverse away from code 0, decoding rejects what it must, option
//! parsing is order-independent, and unknown option keys are ignored.

use vstd::prelude::*;
use vstd::utf8::decode_utf8;
use vstd::utf8::encode_utf8;
use vstd::utf8::encode_utf8_decode_utf8;
use vstd::utf8::encode_utf8_valid_utf8;
use vstd::utf8::is_ascii_chars;
use vstd::utf8::is_ascii_chars_encode_utf8;
use vstd::utf8::valid_utf8;
use crate::error::Error as DecodeError;
use crate::num::dec_bytes;
use crate::num::lemma_dec_bytes_val;
use crate::packet::Mode;
use crate::packet::Opts;
use crate::wire::ErrorView;
use crate::wire::PacketView;
use crate::wire::ReqView;
use crate::wire::be16_bytes;
use crate::wire::be16_val;
use crate::wire::blksize_key;
use crate::wire::find_nul;
use crate::wire::find_value;
use crate::wire::is_known_key;
use crate::wire::lemma_find_nul_concat;
use crate::wire::lemma_split_pairs_cons;
use crate::wire::lower_bytes;
use crate::wire::mode_of_bytes;
use crate::wire::mode_wire;
use crate::wire::no_nul;
use crate::wire::opts_of_pairs;
use crate::wire::opts_pairs;
use crate::wire::pairs_bytes;
use crate::wire::spec_decode;
use crate::wire::spec_decode_error;
use crate::wire::spec_decode_req;
use crate::wire::spec_encode;
use crate::wire::spec_encode_opts;
use crate::wire::spec_encode_req;
use crate::wire::spec_packet_type;
use crate::wire::split_pairs;
use crate::wire::timeout_key;
use crate::wire::tsize_key;
use crate::wire::windowsize_key;

verus! {

/// Every key and value of the pair list is free of null bytes, so each
/// field keeps its terminator.
pub open spec fn pairs_wf(ps: Seq<(Seq<u8>, Seq<u8>)>) -> bool {
    forall|i: int|
        0 <= i < ps.len() ==> no_nul((#[trigger] ps[i]).0) && no_nul(ps[i].1)
}

proof fn lemma_pairs_wf_concat(a: Seq<(Seq<u8>, Seq<u8>)>, b: Seq<(Seq<u8>, Seq<u8>)>)
    requires
        pairs_wf(a),
        pairs_wf(b),
    ensures
        pairs_wf(a + b),
{
    assert forall|i: int|
        0 <= i < (a + b).len() implies no_nul((#[trigger] (a + b)[i]).0) && no_nul(
        (a + b)[i].1,
    ) by {
        if i < a.len() {
            assert((a + b)[i] == a[i]);
        } else {
            assert((a + b)[i] == b[i - a.len()]);
        }
    }
}

/// Splitting the bytes of a well-formed pair list gives that list back.
proof fn lemma_split_pairs_bytes(ps: Seq<(Seq<u8>, Seq<u8>)>)
    requires
        pairs_wf(ps),
    ensures
        split_pairs(pairs_bytes(ps)) == Some(ps),
    decreases ps.len(),
{
    if ps.len() == 0 {
        assert(pairs_bytes(ps) =~= Seq::<u8>::empty());
    } else {
        let rest = ps.drop_first();
        assert forall|i: int|
            0 <= i < rest.len() implies no_nul((#[trigger] rest[i]).0) && no_nul(rest[i].1) by {
            assert(rest[i] == ps[i + 1]);
        }
        lemma_split_pairs_bytes(rest);
        lemma_split_pairs_cons(ps[0].0, ps[0].1, pairs_bytes(rest));
        assert(seq![(ps[0].0, ps[0].1)] + rest =~= ps);
    }
}

/// The pair list an option set encodes to is well formed.
proof fn lemma_opts_pairs_wf(o: Opts)
    ensures
        pairs_wf(opts_pairs(o)),
{
    let p1: Seq<(Seq<u8>, Seq<u8>)> = match o.block_size {
        Some(v) => seq![(blksize_key(), dec_bytes(v as nat))],
        None => Seq::empty(),
    };
    let p2: Seq<(Seq<u8>, Seq<u8>)> = match o.timeout {
        Some(v) => seq![(timeout_key(), dec_bytes(v as nat))],
        None => Seq::empty(),
    };
    let p3: Seq<(Seq<u8>, Seq<u8>)> = match o.window_size {
        Some(v) => seq![(windowsize_key(), dec_bytes(v as nat))],
        None => Seq::empty(),
    };
    let p4: Seq<(Seq<u8>, Seq<u8>)> = match o.transfer_size {
        Some(v) => seq![(tsize_key(), dec_bytes(v as nat))],
        None => Seq::empty(),
    };
    if let Some(v) = o.block_size {
        lemma_dec_bytes_val(v as nat);
    }
    if let Some(v) = o.timeout {
        lemma_dec_bytes_val(v as nat);
    }
    if let Some(v) = o.window_size {
        lemma_dec_bytes_val(v as nat);
    }
    if let Some(v) = o.transfer_size {
        lemma_dec_bytes_val(v as nat);
    }
    assert(pairs_wf(p1));
    assert(pairs_wf(p2));
    assert(pairs_wf(p3));
    assert(pairs_wf(p4));
    lemma_pairs_wf_concat(p1, p2);
    lemma_pairs_wf_concat(p1 + p2, p3);
    lemma_pairs_wf_concat(p1 + p2 + p3, p4);
}

/// Splitting an encoded option block recovers its pair list.
proof fn lemma_opts_encode_split(o: Opts)
    ensures
        split_pairs(spec_encode_opts(o)) == Some(opts_pairs(o)),
{
    lemma_opts_pairs_wf(o);
    lemma_split_pairs_bytes(opts_pairs(o));
}

proof fn lemma_find_value_concat(a: Seq<(Seq<u8>, Seq<u8>)>, b: Seq<(Seq<u8>, Seq<u8>)>, k: Seq<u8>)
    ensures
        find_value(a + b, k) == (match find_value(a, k) {
            Some(v) => Some(v),
            None => find_value(b, k),
        }),
    decreases a.len(),
{
    if a.len() == 0 {
        assert(a + b =~= b);
    } else {
        assert((a + b)[0] == a[0]);
        assert((a + b).drop_first() =~= a.drop_first() + b);
        lemma_find_value_concat(a.drop_first(), b, k);
    }
}

proof fn lemma_find_value_singleton(k1: Seq<u8>, d: Seq<u8>, k: Seq<u8>)
    ensures
        find_value(seq![(k1, d)], k) == (if k1 == k {
            Some(d)
        } else {
            None::<Seq<u8>>
        }),
{
    let s = seq![(k1, d)];
    assert(s.len() == 1);
    assert(s[0] == (k1, d));
    assert(s.drop_first() =~= Seq::<(Seq<u8>, Seq<u8>)>::empty());
    if k1 == k {
        assert(find_value(s, k) == Some(d));
    } else {
        assert(find_value(s, k) == find_value(s.drop_first(), k));
        assert(find_value(Seq::<(Seq<u8>, Seq<u8>)>::empty(), k) is None);
    }
}

/// The four known keys differ pairwise.
proof fn lemma_keys_distinct()
    ensures
        blksize_key() != timeout_key(),
        blksize_key() != windowsize_key(),
        blksize_key() != tsize_key(),
        timeout_key() != windowsize_key(),
        timeout_key() != tsize_key(),
        windowsize_key() != tsize_key(),
{
    assert(blksize_key()[0] == 98 && timeout_key()[0] == 116 && windowsize_key()[0] == 119
        && tsize_key()[0] == 116);
    assert(timeout_key()[1] == 105 && tsize_key()[1] == 115);
    assert(blksize_key().len() == 7 && windowsize_key().len() == 10 && tsize_key().len() == 5);
}

/// Looking each known key up in an encoded option set finds exactly the
/// value that was written for it.
proof fn lemma_opts_pairs_lookup(o: Opts)
    ensures
        find_value(opts_pairs(o), blksize_key()) == (match o.block_size {
            Some(v) => Some(dec_bytes(v as nat)),
            None => None::<Seq<u8>>,
        }),
        find_value(opts_pairs(o), timeout_key()) == (match o.timeout {
            Some(v) => Some(dec_bytes(v as nat)),
            None => None::<Seq<u8>>,
        }),
        find_value(opts_pairs(o), windowsize_key()) == (match o.window_size {
            Some(v) => Some(dec_bytes(v as nat)),
            None => None::<Seq<u8>>,
        }),
        find_value(opts_pairs(o), tsize_key()) == (match o.transfer_size {
            Some(v) => Some(dec_bytes(v as nat)),
            None => None::<Seq<u8>>,
        }),
{
    lemma_keys_distinct();
    let p1: Seq<(Seq<u8>, Seq<u8>)> = match o.block_size {
        Some(v) => seq![(blksize_key(), dec_bytes(v as nat))],
        None => Seq::empty(),
    };
    let p2: Seq<(Seq<u8>, Seq<u8>)> = match o.timeout {
        Some(v) => seq![(timeout_key(), dec_bytes(v as nat))],
        None => Seq::empty(),
    };
    let p3: Seq<(Seq<u8>, Seq<u8>)> = match o.window_size {
        Some(v) => seq![(windowsize_key(), dec_bytes(v as nat))],
        None => Seq::empty(),
    };
    let p4: Seq<(Seq<u8>, Seq<u8>)> = match o.transfer_size {
        Some(v) => seq![(tsize_key(), dec_bytes(v as nat))],
        None => Seq::empty(),
    };
    lemma_find_value_concat(p1 + p2 + p3, p4, blksize_key());
    lemma_find_value_concat(p1 + p2, p3, blksize_key());
    lemma_find_value_concat(p1, p2, blksize_key());
    lemma_find_value_concat(p1 + p2 + p3, p4, timeout_key());
    lemma_find_value_concat(p1 + p2, p3, timeout_key());
    lemma_find_value_concat(p1, p2, timeout_key());
    lemma_find_value_concat(p1 + p2 + p3, p4, windowsize_key());
    lemma_find_value_concat(p1 + p2, p3, windowsize_key());
    lemma_find_value_concat(p1, p2, windowsize_key());
    lemma_find_value_concat(p1 + p2 + p3, p4, tsize_key());
    lemma_find_value_concat(p1 + p2, p3, tsize_key());
    lemma_find_value_concat(p1, p2, tsize_key());
    if let Some(v) = o.block_size {
        lemma_find_value_singleton(blksize_key(), dec_bytes(v as nat), blksize_key());
        lemma_find_value_singleton(blksize_key(), dec_bytes(v as nat), timeout_key());
        lemma_find_value_singleton(blksize_key(), dec_bytes(v as nat), windowsize_key());
        lemma_find_value_singleton(blksize_key(), dec_bytes(v as nat), tsize_key());
    }
    if let Some(v) = o.timeout {
        lemma_find_value_singleton(timeout_key(), dec_bytes(v as nat), blksize_key());
        lemma_find_value_singleton(timeout_key(), dec_bytes(v as nat), timeout_key());
        lemma_find_value_singleton(timeout_key(), dec_bytes(v as nat), windowsize_key());
        lemma_find_value_singleton(timeout_key(), dec_bytes(v as nat), tsize_key());
    }
    if let Some(v) = o.window_size {
        lemma_find_value_singleton(windowsize_key(), dec_bytes(v as nat), blksize_key());
        lemma_find_value_singleton(windowsize_key(), dec_bytes(v as nat), timeout_key());
        lemma_find_value_singleton(windowsize_key(), dec_bytes(v as nat), windowsize_key());
        lemma_find_value_singleton(windowsize_key(), dec_bytes(v as nat), tsize_key());
    }
    if let Some(v) = o.transfer_size {
        lemma_find_value_singleton(tsize_key(), dec_bytes(v as nat), blksize_key());
        lemma_find_value_singleton(tsize_key(), dec_bytes(v as nat), timeout_key());
        lemma_find_value_singleton(tsize_key(), dec_bytes(v as nat), windowsize_key());
        lemma_find_value_singleton(tsize_key(), dec_bytes(v as nat), tsize_key());
    }
}

/// Parsing back the pair list an option set was written as recovers the
/// option set exactly.
pub proof fn lemma_opts_roundtrip(o: Opts)
    ensures
        opts_of_pairs(opts_pairs(o)) == o,
{
    lemma_opts_pairs_lookup(o);
    if let Some(v) = o.block_size {
        lemma_dec_bytes_val(v as nat);
    }
    if let Some(v) = o.timeout {
        lemma_dec_bytes_val(v as nat);
    }
    if let Some(v) = o.window_size {
        lemma_dec_bytes_val(v as nat);
    }
    if let Some(v) = o.transfer_size {
        lemma_dec_bytes_val(v as nat);
    }
}

/// The mode texts hold no null byte.
proof fn lemma_mode_wire_no_nul(m: Mode)
    ensures
        no_nul(mode_wire(m)),
{
    match m {
        Mode::Netascii => {
            assert(no_nul(mode_wire(Mode::Netascii)));
        },
        Mode::Octet => {
            assert(no_nul(mode_wire(Mode::Octet)));
        },
        Mode::Mail => {
            assert(no_nul(mode_wire(Mode::Mail)));
        },
    }
}

/// The canonical mode texts decode to their mode, the comparison being
/// case-insensitive and the texts already lowercase.
proof fn lemma_mode_of_wire(m: Mode)
    ensures
        mode_of_bytes(mode_wire(m)) == Some(m),
{
    assert(lower_bytes(mode_wire(Mode::Netascii)) =~= mode_wire(Mode::Netascii));
    assert(lower_bytes(mode_wire(Mode::Octet)) =~= mode_wire(Mode::Octet));
    assert(lower_bytes(mode_wire(Mode::Mail)) =~= mode_wire(Mode::Mail));
    assert(mode_wire(Mode::Netascii).len() == 8 && mode_wire(Mode::Octet).len() == 5 && mode_wire(
        Mode::Mail,
    ).len() == 4);
}

/// ASCII text without the null character encodes to bytes without the null
/// byte.
proof fn lemma_ascii_text_no_nul(s: Seq<char>)
    requires
        is_ascii_chars(s),
        forall|i: int| 0 <= i < s.len() ==> s[i] != '\0',
    ensures
        no_nul(encode_utf8(s)),
{
    is_ascii_chars_encode_utf8(s);
    assert forall|i: int| 0 <= i < encode_utf8(s).len() implies encode_utf8(s)[i] != 0 by {
        assert(encode_utf8(s)[i] == s[i] as u8);
        assert('\0' < s[i] <= '\u{7f}');
    }
}

/// The fixed error messages hold no null byte.
#[verifier::rlimit(50)]
proof fn lemma_error_msg_no_nul(e: ErrorView)
    requires
        !(e matches ErrorView::Msg(_)),
    ensures
        no_nul(encode_utf8(e.msg())),
{
    match e {
        ErrorView::Msg(_) => {},
        ErrorView::UnknownError => {
            reveal_strlit("Unknown error");
            lemma_ascii_text_no_nul("Unknown error"@);
        },
        ErrorView::FileNotFound => {
            reveal_strlit("File not found");
            lemma_ascii_text_no_nul("File not found"@);
        },
        ErrorView::PermissionDenied => {
            reveal_strlit("Permission denied");
            lemma_ascii_text_no_nul("Permission denied"@);
        },
        ErrorView::DiskFull => {
            reveal_strlit("Disk is full");
            lemma_ascii_text_no_nul("Disk is full"@);
        },
        ErrorView::IllegalOperation => {
            reveal_strlit("Illegal operation");
            lemma_ascii_text_no_nul("Illegal operation"@);
        },
        ErrorView::UnknownTransferId => {
            reveal_strlit("Unknown transfer ID");
            lemma_ascii_text_no_nul("Unknown transfer ID"@);
        },
        ErrorView::FileAlreadyExists => {
            reveal_strlit("File already exists");
            lemma_ascii_text_no_nul("File already exists"@);
        },
        ErrorView::NoSuchUser => {
            reveal_strlit("No such user");
            lemma_ascii_text_no_nul("No such user"@);
        },
        ErrorView::OptionsNegotiationFailed => {
            reveal_strlit("Options negotiation failed");
            lemma_ascii_text_no_nul("Options negotiation failed"@);
        },
    }
}

/// A message is well formed when its free text encodes to bytes without a
/// null byte: the filename of a request, the text of a `Msg` error.
/// Everything else round-trips unconditionally.
pub open spec fn wf_packet(p: PacketView) -> bool {
    match p {
        PacketView::Rrq(req) => no_nul(encode_utf8(req.filename)),
        PacketView::Wrq(req) => no_nul(encode_utf8(req.filename)),
        PacketView::Error(e) => match e {
            ErrorView::Msg(s) => no_nul(encode_utf8(s)),
            _ => true,
        },
        _ => true,
    }
}

/// An encoded request body decodes to the request it came from.
proof fn lemma_roundtrip_req(req: ReqView, read: bool)
    requires
        no_nul(encode_utf8(req.filename)),
    ensures
        spec_decode_req(spec_encode_req(req), read) == Ok::<PacketView, DecodeError>(
            if read {
                PacketView::Rrq(req)
            } else {
                PacketView::Wrq(req)
            },
        ),
{
    let f = encode_utf8(req.filename);
    let m = mode_wire(req.mode);
    let ob = spec_encode_opts(req.opts);
    let body = spec_encode_req(req);
    lemma_find_nul_concat(f, m + seq![0u8] + ob);
    assert(body =~= f + seq![0u8] + (m + seq![0u8] + ob));
    assert(find_nul(body) == Some(f.len() as int));
    assert(body.take(f.len() as int) =~= f);
    let rest = body.skip(f.len() as int + 1);
    assert(rest =~= m + seq![0u8] + ob);
    lemma_mode_wire_no_nul(req.mode);
    lemma_find_nul_concat(m, ob);
    assert(find_nul(rest) == Some(m.len() as int));
    assert(rest.take(m.len() as int) =~= m);
    assert(rest.skip(m.len() as int + 1) =~= ob);
    encode_utf8_valid_utf8(req.filename);
    encode_utf8_decode_utf8(req.filename);
    lemma_mode_of_wire(req.mode);
    lemma_opts_encode_split(req.opts);
    lemma_opts_roundtrip(req.opts);
    assert((ReqView {
        filename: decode_utf8(f),
        mode: req.mode,
        opts: opts_of_pairs(opts_pairs(req.opts)),
    }) == req);
}

/// The two big-endian bytes of a value read back as that value.
proof fn lemma_be16_roundtrip(v: u16)
    ensures
        be16_val(be16_bytes(v)[0], be16_bytes(v)[1]) == v,
{
    assert(v / 256 < 256);
    assert((v / 256) * 256 + v % 256 == v) by (nonlinear_arith);
}

/// Round trip: decoding an encoded message gives the message back, for
/// every well-formed message. The one exception is `Error(UnknownError)`:
/// it shares wire code 0 with `Msg`, so its bytes decode to
/// `Error(Msg("Unknown error"))` — the lossiness of code 0 is part of the
/// wire format.
pub proof fn lemma_encode_decode(p: PacketView)
    requires
        wf_packet(p),
        !(p matches PacketView::Error(ErrorView::UnknownError)),
    ensures
        spec_decode(spec_encode(p)) == Ok::<PacketView, DecodeError>(p),
{
    let b = spec_encode(p);
    match p {
        PacketView::Rrq(req) => {
            assert(b[0] == 0 && b[1] == 1);
            assert(be16_val(0, 1) == 1);
            assert(b.skip(2) =~= spec_encode_req(req));
            lemma_roundtrip_req(req, true);
        },
        PacketView::Wrq(req) => {
            assert(b[0] == 0 && b[1] == 2);
            assert(be16_val(0, 2) == 2);
            assert(b.skip(2) =~= spec_encode_req(req));
            lemma_roundtrip_req(req, false);
        },
        PacketView::Data(block, payload) => {
            lemma_be16_roundtrip(block);
            assert(b[0] == 0 && b[1] == 3);
            assert(be16_val(0, 3) == 3);
            assert(b.len() >= 4);
            assert(b[2] == be16_bytes(block)[0] && b[3] == be16_bytes(block)[1]);
            assert(b.skip(4) =~= payload);
        },
        PacketView::Ack(block) => {
            lemma_be16_roundtrip(block);
            assert(b[0] == 0 && b[1] == 4);
            assert(be16_val(0, 4) == 4);
            assert(b.len() == 4);
            assert(b[2] == be16_bytes(block)[0] && b[3] == be16_bytes(block)[1]);
        },
        PacketView::Error(e) => {
            let msgb = encode_utf8(e.msg());
            lemma_be16_roundtrip(e.code());
            assert(b[0] == 0 && b[1] == 5);
            assert(be16_val(0, 5) == 5);
            assert(b.len() >= 4);
            assert(b[2] == be16_bytes(e.code())[0] && b[3] == be16_bytes(e.code())[1]);
            if e matches ErrorView::Msg(_) {
            } else {
                lemma_error_msg_no_nul(e);
            }
            assert(no_nul(msgb));
            assert(b.skip(4) =~= msgb + seq![0u8] + Seq::<u8>::empty());
            lemma_find_nul_concat(msgb, Seq::empty());
            assert(find_nul(b.skip(4)) == Some(msgb.len() as int));
            assert(b.skip(4).take(msgb.len() as int) =~= msgb);
            encode_utf8_valid_utf8(e.msg());
            encode_utf8_decode_utf8(e.msg());
            assert(spec_decode_error(b) == Ok::<PacketView, DecodeError>(
                PacketView::Error(ErrorView::of_code(e.code(), Some(e.msg()))),
            ));
            assert(ErrorView::of_code(e.code(), Some(e.msg())) == e);
        },
        PacketView::OAck(opts) => {
            assert(b[0] == 0 && b[1] == 6);
            assert(be16_val(0, 6) == 6);
            assert(b.skip(2) =~= spec_encode_opts(opts));
            lemma_opts_encode_split(opts);
            lemma_opts_roundtrip(opts);
        },
    }
}

/// The code mapping is its own inverse on the eight named variants: the
/// code a variant writes maps back to that variant, whatever text rides
/// along. (`Msg` and `UnknownError` share code 0 and are exempt: code 0 is
/// lossy by design.)
pub proof fn lemma_code_roundtrip(e: ErrorView)
    requires
        !(e matches ErrorView::Msg(_)),
        !(e matches ErrorView::UnknownError),
    ensures
        ErrorView::of_code(e.code(), Some(e.msg())) == e,
{
}

/// Decoding rejects, with `InvalidPacket`, every input shorter than two
/// bytes and every opcode outside the six known ones.
pub proof fn lemma_decode_rejects_unknown(b: Seq<u8>)
    requires
        b.len() < 2 || spec_packet_type(be16_val(b[0], b[1])) is None,
    ensures
        spec_decode(b) == Err::<PacketView, DecodeError>(DecodeError::InvalidPacket),
{
}

/// A request whose mode text is not one of the known modes (compared
/// case-insensitively) fails with `InvalidMode`.
pub proof fn lemma_decode_bad_mode(op: u16, fname: Seq<u8>, mode_text: Seq<u8>, tail: Seq<u8>)
    requires
        op == 1 || op == 2,
        no_nul(fname),
        valid_utf8(fname),
        no_nul(mode_text),
        mode_of_bytes(mode_text) is None,
    ensures
        spec_decode(seq![0u8, op as u8] + fname + seq![0u8] + mode_text + seq![0u8] + tail)
            == Err::<PacketView, DecodeError>(DecodeError::InvalidMode),
{
    let b = seq![0u8, op as u8] + fname + seq![0u8] + mode_text + seq![0u8] + tail;
    assert(b[0] == 0 && b[1] == op as u8);
    assert(be16_val(b[0], b[1]) == op);
    let body = b.skip(2);
    assert(body =~= fname + seq![0u8] + (mode_text + seq![0u8] + tail));
    lemma_find_nul_concat(fname, mode_text + seq![0u8] + tail);
    assert(find_nul(body) == Some(fname.len() as int));
    assert(body.take(fname.len() as int) =~= fname);
    let rest = body.skip(fname.len() as int + 1);
    assert(rest =~= mode_text + seq![0u8] + tail);
    lemma_find_nul_concat(mode_text, tail);
    assert(find_nul(rest) == Some(mode_text.len() as int));
    assert(rest.take(mode_text.len() as int) =~= mode_text);
}

/// Each known key occurs on at most one pair.
pub open spec fn known_keys_unique(ps: Seq<(Seq<u8>, Seq<u8>)>) -> bool {
    forall|i: int, j: int|
        0 <= i < ps.len() && 0 <= j < ps.len() && i != j && is_known_key((#[trigger] ps[i]).0)
            ==> (#[trigger] ps[j]).0 != ps[i].0
}

proof fn lemma_find_value_characterize(ps: Seq<(Seq<u8>, Seq<u8>)>, k: Seq<u8>)
    ensures
        match find_value(ps, k) {
            Some(v) => ps.contains((k, v)),
            None => forall|i: int| 0 <= i < ps.len() ==> (#[trigger] ps[i]).0 != k,
        },
    decreases ps.len(),
{
    if ps.len() > 0 {
        if ps[0].0 == k {
            assert(ps[0] =~= (k, ps[0].1));
            assert(ps.contains((k, ps[0].1)));
        } else {
            let rest = ps.drop_first();
            lemma_find_value_characterize(rest, k);
            match find_value(rest, k) {
                Some(v) => {
                    let i = choose|i: int| 0 <= i < rest.len() && rest[i] == (k, v);
                    assert(ps[i + 1] == rest[i]);
                    assert(ps.contains((k, v)));
                },
                None => {
                    assert forall|i: int| 0 <= i < ps.len() implies (#[trigger] ps[i]).0 != k by {
                        if i >= 1 {
                            assert(ps[i] == rest[i - 1]);
                        }
                    }
                },
            }
        }
    }
}

proof fn lemma_contains_find_some(ps: Seq<(Seq<u8>, Seq<u8>)>, k: Seq<u8>, v: Seq<u8>)
    requires
        ps.contains((k, v)),
    ensures
        find_value(ps, k) is Some,
    decreases ps.len(),
{
    if ps[0].0 == k {
    } else {
        let i = choose|i: int| 0 <= i < ps.len() && ps[i] == (k, v);
        assert(i != 0);
        let rest = ps.drop_first();
        assert(rest[i - 1] == ps[i]);
        assert(rest.contains((k, v)));
        lemma_contains_find_some(rest, k, v);
    }
}

/// Two pair lists that are permutations of one another, each with its known
/// keys occurring at most once, yield the same value for a known key.
proof fn lemma_find_value_permuted(
    ps1: Seq<(Seq<u8>, Seq<u8>)>,
    ps2: Seq<(Seq<u8>, Seq<u8>)>,
    k: Seq<u8>,
)
    requires
        ps1.to_multiset() == ps2.to_multiset(),
        known_keys_unique(ps1),
        known_keys_unique(ps2),
        is_known_key(k),
    ensures
        find_value(ps1, k) == find_value(ps2, k),
{
    broadcast use vstd::seq_lib::group_to_multiset_ensures;

    lemma_find_value_characterize(ps1, k);
    lemma_find_value_characterize(ps2, k);
    match find_value(ps1, k) {
        Some(v) => {
            assert(ps1.to_multiset().count((k, v)) > 0);
            assert(ps2.contains((k, v)));
            match find_value(ps2, k) {
                Some(v2) => {
                    if v2 != v {
                        let i = choose|i: int| 0 <= i < ps2.len() && ps2[i] == (k, v);
                        let j = choose|j: int| 0 <= j < ps2.len() && ps2[j] == (k, v2);
                        assert(ps2[i].0 == k && ps2[j].0 == k);
                        assert(i != j);
                        assert(false);
                    }
                },
                None => {
                    let i = choose|i: int| 0 <= i < ps2.len() && ps2[i] == (k, v);
                    assert(ps2[i].0 == k);
                    assert(false);
                },
            }
        },
        None => {
            match find_value(ps2, k) {
                Some(v2) => {
                    assert(ps2.to_multiset().count((k, v2)) > 0);
                    assert(ps1.contains((k, v2)));
                    let i = choose|i: int| 0 <= i < ps1.len() && ps1[i] == (k, v2);
                    assert(ps1[i].0 == k);
                    assert(false);
                },
                None => {},
            }
        },
    }
}

/// Order independence: permuting the key/value pairs of an option block in
/// which each known key occurs at most once does not change the parsed
/// option set.
pub proof fn lemma_opts_order_independent(ps1: Seq<(Seq<u8>, Seq<u8>)>, ps2: Seq<(Seq<u8>, Seq<u8>)>)
    requires
        ps1.to_multiset() == ps2.to_multiset(),
        known_keys_unique(ps1),
        known_keys_unique(ps2),
    ensures
        opts_of_pairs(ps1) == opts_of_pairs(ps2),
{
    lemma_find_value_permuted(ps1, ps2, blksize_key());
    lemma_find_value_permuted(ps1, ps2, timeout_key());
    lemma_find_value_permuted(ps1, ps2, windowsize_key());
    lemma_find_value_permuted(ps1, ps2, tsize_key());
}

/// The pair list with every unknown-key pair removed, order kept.
pub open spec fn known_pairs(ps: Seq<(Seq<u8>, Seq<u8>)>) -> Seq<(Seq<u8>, Seq<u8>)>
    decreases ps.len(),
{
    if ps.len() == 0 {
        Seq::empty()
    } else if is_known_key(ps[0].0) {
        seq![ps[0]] + known_pairs(ps.drop_first())
    } else {
        known_pairs(ps.drop_first())
    }
}

proof fn lemma_find_value_known(ps: Seq<(Seq<u8>, Seq<u8>)>, k: Seq<u8>)
    requires
        is_known_key(k),
    ensures
        find_value(known_pairs(ps), k) == find_value(ps, k),
    decreases ps.len(),
{
    if ps.len() > 0 {
        let rest = ps.drop_first();
        lemma_find_value_known(rest, k);
        if is_known_key(ps[0].0) {
            let kp = seq![ps[0]] + known_pairs(rest);
            assert(kp[0] == ps[0]);
            assert(kp.drop_first() =~= known_pairs(rest));
        } else {
            assert(ps[0].0 != k);
        }
    }
}

/// Unknown option keys are ignored: removing every unknown-key pair leaves
/// the parsed option set unchanged.
pub proof fn lemma_unknown_keys_ignored(ps: Seq<(Seq<u8>, Seq<u8>)>)
    ensures
        opts_of_pairs(known_pairs(ps)) == opts_of_pairs(ps),
{
    lemma_find_value_known(ps, blksize_key());
    lemma_find_value_known(ps, timeout_key());
    lemma_find_value_known(ps, windowsize_key());
    lemma_find_value_known(ps, tsize_key());
}

} // verus!
