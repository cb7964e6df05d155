use bytes::BufMut;
use bytes::BytesMut;
use tftp_wire::error::Error as DecodeError;
use tftp_wire::packet::Error;
use tftp_wire::packet::Mode;
use tftp_wire::packet::Opts;
use tftp_wire::packet::Packet;
use tftp_wire::packet::PacketType;
use tftp_wire::packet::RwReq;
use tftp_wire::packet::PACKET_DATA_HEADER_LEN;

fn opts_none() -> Opts {
    Opts { block_size: None, timeout: None, transfer_size: None, window_size: None }
}

#[test]
fn rrq_roundtrip_with_blksize() {
    let packet = Packet::Rrq(RwReq {
        filename: "a.txt".to_string(),
        mode: Mode::Octet,
        opts: Opts { block_size: Some(1024), ..opts_none() },
    });
    let bytes = packet.to_bytes();
    assert_eq!(&bytes[..], b"\x00\x01a.txt\x00octet\x00blksize\x001024\x00");
    let decoded = Packet::decode(&bytes[..]).unwrap();
    assert_eq!(decoded, packet);
}

#[test]
fn wrq_roundtrip_all_options() {
    let packet = Packet::Wrq(RwReq {
        filename: "dir/file.bin".to_string(),
        mode: Mode::Netascii,
        opts: Opts {
            block_size: Some(8),
            timeout: Some(1),
            transfer_size: Some(987654321),
            window_size: Some(16),
        },
    });
    let bytes = packet.to_bytes();
    assert_eq!(
        &bytes[..],
        b"\x00\x02dir/file.bin\x00netascii\x00blksize\x008\x00timeout\x001\x00\
windowsize\x0016\x00tsize\x00987654321\x00"
            .as_slice()
    );
    let decoded = Packet::decode(&bytes[..]).unwrap();
    assert_eq!(decoded, packet);
}

#[test]
fn data_encode_and_head() {
    let payload: [u8; 2] = [0xAA, 0xBB];
    let packet = Packet::Data(5, &payload);
    let bytes = packet.to_bytes();
    assert_eq!(&bytes[..], b"\x00\x03\x00\x05\xAA\xBB");

    let mut buf = BytesMut::new();
    Packet::encode_data_head(5, &mut buf);
    assert_eq!(buf.len(), PACKET_DATA_HEADER_LEN);
    buf.put_slice(&payload);
    assert_eq!(&buf[..], &bytes[..]);

    let decoded = Packet::decode(&bytes[..]).unwrap();
    assert_eq!(decoded, packet);
}

#[test]
fn data_empty_payload_roundtrip() {
    let payload: [u8; 0] = [];
    let packet = Packet::Data(0, &payload);
    let bytes = packet.to_bytes();
    assert_eq!(&bytes[..], b"\x00\x03\x00\x00");
    assert_eq!(Packet::decode(&bytes[..]).unwrap(), packet);
}

#[test]
fn data_payload_is_borrowed_remainder() {
    let mut raw = vec![0x00u8, 0x03, 0x12, 0x34];
    raw.extend_from_slice(&[7u8; 600]);
    match Packet::decode(&raw).unwrap() {
        Packet::Data(block, payload) => {
            assert_eq!(block, 0x1234);
            assert_eq!(payload.len(), 600);
            assert!(payload.iter().all(|b| *b == 7));
        }
        other => panic!("expected Data, got {:?}", other),
    }
}

#[test]
fn ack_roundtrip() {
    let packet = Packet::Ack(65535);
    let bytes = packet.to_bytes();
    assert_eq!(&bytes[..], b"\x00\x04\xFF\xFF");
    assert_eq!(Packet::decode(&bytes[..]).unwrap(), packet);
}

#[test]
fn error_file_not_found_roundtrip() {
    let packet = Packet::Error(Error::FileNotFound);
    let bytes = packet.to_bytes();
    assert_eq!(&bytes[..], b"\x00\x05\x00\x01File not found\x00");
    assert_eq!(Packet::decode(&bytes[..]).unwrap(), packet);
}

#[test]
fn error_msg_roundtrip() {
    let packet = Packet::Error(Error::Msg("something odd".to_string()));
    let bytes = packet.to_bytes();
    assert_eq!(&bytes[..], b"\x00\x05\x00\x00something odd\x00");
    assert_eq!(Packet::decode(&bytes[..]).unwrap(), packet);
}

#[test]
fn error_unknown_error_decodes_as_msg() {
    // Code 0 is lossy by design: UnknownError and Msg share it, and decoding
    // code 0 with text always yields Msg.
    let bytes = Packet::Error(Error::UnknownError).to_bytes();
    assert_eq!(&bytes[..], b"\x00\x05\x00\x00Unknown error\x00");
    let decoded = Packet::decode(&bytes[..]).unwrap();
    assert_eq!(decoded, Packet::Error(Error::Msg("Unknown error".to_string())));
}

#[test]
fn error_empty_message_decodes_as_empty_msg() {
    let raw = b"\x00\x05\x00\x00\x00";
    let decoded = Packet::decode(raw).unwrap();
    assert_eq!(decoded, Packet::Error(Error::Msg(String::new())));
}

#[test]
fn oack_roundtrip() {
    let packet = Packet::OAck(Opts {
        block_size: Some(1432),
        timeout: Some(3),
        transfer_size: Some(0),
        window_size: None,
    });
    let bytes = packet.to_bytes();
    assert_eq!(&bytes[..], b"\x00\x06blksize\x001432\x00timeout\x003\x00tsize\x000\x00");
    assert_eq!(Packet::decode(&bytes[..]).unwrap(), packet);
}

#[test]
fn oack_no_options_roundtrip() {
    let packet = Packet::OAck(opts_none());
    let bytes = packet.to_bytes();
    assert_eq!(&bytes[..], b"\x00\x06");
    assert_eq!(Packet::decode(&bytes[..]).unwrap(), packet);
}

#[test]
fn decode_short_buffers_fail() {
    assert!(matches!(Packet::decode(&[]), Err(DecodeError::InvalidPacket)));
    assert!(matches!(Packet::decode(&[0x00]), Err(DecodeError::InvalidPacket)));
    assert!(matches!(Packet::decode(&[0x00, 0x03]), Err(DecodeError::InvalidPacket)));
    assert!(matches!(Packet::decode(&[0x00, 0x04, 0x00]), Err(DecodeError::InvalidPacket)));
    assert!(matches!(Packet::decode(&[0x00, 0x05, 0x00]), Err(DecodeError::InvalidPacket)));
}

#[test]
fn decode_unknown_opcode_fails() {
    assert!(matches!(Packet::decode(&[0x00, 0x00, 0x01]), Err(DecodeError::InvalidPacket)));
    assert!(matches!(Packet::decode(&[0x00, 0x07, 0x01]), Err(DecodeError::InvalidPacket)));
    assert!(matches!(Packet::decode(&[0x01, 0x01, 0x00]), Err(DecodeError::InvalidPacket)));
    assert!(matches!(Packet::decode(&[0xFF, 0xFF]), Err(DecodeError::InvalidPacket)));
}

#[test]
fn decode_request_missing_terminators_fails() {
    // No terminator at all after the filename.
    assert!(matches!(Packet::decode(b"\x00\x01a.txt"), Err(DecodeError::InvalidPacket)));
    // Missing the second (mode) terminator.
    assert!(matches!(Packet::decode(b"\x00\x01a.txt\x00octet"), Err(DecodeError::InvalidPacket)));
}

#[test]
fn decode_error_packet_missing_terminator_fails() {
    assert!(matches!(
        Packet::decode(b"\x00\x05\x00\x01File not found"),
        Err(DecodeError::InvalidPacket)
    ));
}

#[test]
fn decode_request_bad_mode_fails_with_invalid_mode() {
    assert!(matches!(Packet::decode(b"\x00\x01a.txt\x00carrier\x00"), Err(DecodeError::InvalidMode)));
    assert!(matches!(Packet::decode(b"\x00\x02a.txt\x00\x00"), Err(DecodeError::InvalidMode)));
}

#[test]
fn decode_request_mixed_case_mode() {
    let decoded = Packet::decode(b"\x00\x01a.txt\x00Octet\x00").unwrap();
    assert_eq!(
        decoded,
        Packet::Rrq(RwReq { filename: "a.txt".to_string(), mode: Mode::Octet, opts: opts_none() })
    );
    let decoded = Packet::decode(b"\x00\x02b\x00NETASCII\x00").unwrap();
    assert_eq!(
        decoded,
        Packet::Wrq(RwReq { filename: "b".to_string(), mode: Mode::Netascii, opts: opts_none() })
    );
    let decoded = Packet::decode(b"\x00\x01c\x00mAiL\x00").unwrap();
    assert_eq!(
        decoded,
        Packet::Rrq(RwReq { filename: "c".to_string(), mode: Mode::Mail, opts: opts_none() })
    );
}

#[test]
fn decode_request_bad_utf8_filename_fails() {
    assert!(matches!(Packet::decode(b"\x00\x01\xFF\xFE\x00octet\x00"), Err(DecodeError::InvalidPacket)));
}

#[test]
fn packet_type_from_u16_covers_opcodes() {
    assert_eq!(PacketType::from_u16(0), None);
    assert_eq!(PacketType::from_u16(1), Some(PacketType::Rrq));
    assert_eq!(PacketType::from_u16(2), Some(PacketType::Wrq));
    assert_eq!(PacketType::from_u16(3), Some(PacketType::Data));
    assert_eq!(PacketType::from_u16(4), Some(PacketType::Ack));
    assert_eq!(PacketType::from_u16(5), Some(PacketType::Error));
    assert_eq!(PacketType::from_u16(6), Some(PacketType::OAck));
    assert_eq!(PacketType::from_u16(7), None);
    for op in 1u16..=6 {
        assert_eq!(PacketType::from_u16(op).unwrap().to_u16(), op);
    }
}

#[test]
fn conversions_into_opcode_and_packet() {
    assert_eq!(u16::from(PacketType::Rrq), 1);
    assert_eq!(u16::from(PacketType::OAck), 6);
    let p = Packet::from(Error::DiskFull);
    assert_eq!(p, Packet::Error(Error::DiskFull));
}

#[test]
fn mode_to_str_is_canonical() {
    assert_eq!(Mode::Netascii.to_str(), "netascii");
    assert_eq!(Mode::Octet.to_str(), "octet");
    assert_eq!(Mode::Mail.to_str(), "mail");
}

#[test]
fn encode_appends_to_existing_buffer() {
    let mut buf = BytesMut::new();
    buf.put_slice(b"prefix");
    Packet::Ack(1).encode(&mut buf);
    assert_eq!(&buf[..], b"prefix\x00\x04\x00\x01");
}

#[test]
fn opts_default_is_empty() {
    assert_eq!(Opts::default(), opts_none());
}
