use tftp_wire::error::Error as DecodeError;
use tftp_wire::packet::Mode;
use tftp_wire::packet::Opts;
use tftp_wire::packet::Packet;
use tftp_wire::packet::RwReq;

fn opts_none() -> Opts {
    Opts { block_size: None, timeout: None, transfer_size: None, window_size: None }
}

fn decode_rrq_opts(raw: &[u8]) -> Opts {
    match Packet::decode(raw).unwrap() {
        Packet::Rrq(req) => req.opts,
        other => panic!("expected Rrq, got {:?}", other),
    }
}

#[test]
fn option_order_is_irrelevant() {
    let a = decode_rrq_opts(b"\x00\x01f\x00octet\x00blksize\x00512\x00timeout\x005\x00tsize\x0042\x00");
    let b = decode_rrq_opts(b"\x00\x01f\x00octet\x00tsize\x0042\x00blksize\x00512\x00timeout\x005\x00");
    let c = decode_rrq_opts(b"\x00\x01f\x00octet\x00timeout\x005\x00tsize\x0042\x00blksize\x00512\x00");
    let expected = Opts {
        block_size: Some(512),
        timeout: Some(5),
        transfer_size: Some(42),
        window_size: None,
    };
    assert_eq!(a, expected);
    assert_eq!(b, expected);
    assert_eq!(c, expected);
}

#[test]
fn unknown_option_keys_are_ignored() {
    let opts = decode_rrq_opts(
        b"\x00\x01f\x00octet\x00multicast\x001\x00blksize\x001024\x00utimeout\x009\x00",
    );
    assert_eq!(opts, Opts { block_size: Some(1024), ..opts_none() });
}

#[test]
fn only_unknown_option_keys_give_empty_options() {
    let opts = decode_rrq_opts(b"\x00\x01f\x00octet\x00multicast\x001\x00");
    assert_eq!(opts, opts_none());
}

#[test]
fn malformed_option_values_are_treated_as_absent() {
    // Not a number.
    let opts = decode_rrq_opts(b"\x00\x01f\x00octet\x00blksize\x00abc\x00");
    assert_eq!(opts, opts_none());
    // Empty value.
    let opts = decode_rrq_opts(b"\x00\x01f\x00octet\x00timeout\x00\x00");
    assert_eq!(opts, opts_none());
    // Out of the field's range.
    let opts = decode_rrq_opts(b"\x00\x01f\x00octet\x00blksize\x0070000\x00timeout\x00256\x00");
    assert_eq!(opts, opts_none());
    // Far beyond 64 bits.
    let opts = decode_rrq_opts(b"\x00\x01f\x00octet\x00tsize\x0099999999999999999999999\x00");
    assert_eq!(opts, opts_none());
    // A malformed value does not disturb a well-formed neighbour.
    let opts = decode_rrq_opts(b"\x00\x01f\x00octet\x00blksize\x00x\x00windowsize\x008\x00");
    assert_eq!(opts, Opts { window_size: Some(8), ..opts_none() });
}

#[test]
fn option_value_boundaries_parse() {
    let opts = decode_rrq_opts(
        b"\x00\x01f\x00octet\x00blksize\x0065535\x00timeout\x00255\x00\
tsize\x0018446744073709551615\x00windowsize\x000\x00",
    );
    assert_eq!(
        opts,
        Opts {
            block_size: Some(65535),
            timeout: Some(255),
            transfer_size: Some(u64::MAX),
            window_size: Some(0),
        }
    );
}

#[test]
fn truncated_option_block_fails() {
    // Key without its terminator.
    assert!(matches!(
        Packet::decode(b"\x00\x01f\x00octet\x00blksize"),
        Err(DecodeError::InvalidPacket)
    ));
    // Value without its terminator.
    assert!(matches!(
        Packet::decode(b"\x00\x01f\x00octet\x00blksize\x00512"),
        Err(DecodeError::InvalidPacket)
    ));
    // Same in an option acknowledgement.
    assert!(matches!(
        Packet::decode(b"\x00\x06blksize\x00512"),
        Err(DecodeError::InvalidPacket)
    ));
}

#[test]
fn request_options_roundtrip_through_encode() {
    let packet = Packet::Rrq(RwReq {
        filename: "f".to_string(),
        mode: Mode::Mail,
        opts: Opts { timeout: Some(7), window_size: Some(4), ..opts_none() },
    });
    let bytes = packet.to_bytes();
    assert_eq!(&bytes[..], b"\x00\x01f\x00mail\x00timeout\x007\x00windowsize\x004\x00");
    assert_eq!(Packet::decode(&bytes[..]).unwrap(), packet);
}
