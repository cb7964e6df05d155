use std::io;
use tftp_wire::convert::IoKind;
use tftp_wire::convert::TransferError;
use tftp_wire::packet::Error;

#[test]
fn codes_and_messages_are_fixed() {
    let cases = [
        (Error::UnknownError, 0u16, "Unknown error"),
        (Error::FileNotFound, 1, "File not found"),
        (Error::PermissionDenied, 2, "Permission denied"),
        (Error::DiskFull, 3, "Disk is full"),
        (Error::IllegalOperation, 4, "Illegal operation"),
        (Error::UnknownTransferId, 5, "Unknown transfer ID"),
        (Error::FileAlreadyExists, 6, "File already exists"),
        (Error::NoSuchUser, 7, "No such user"),
        (Error::OptionsNegotiationFailed, 8, "Options negotiation failed"),
    ];
    for (e, code, msg) in cases {
        assert_eq!(e.code(), code);
        assert_eq!(e.msg(), msg);
    }
    let e = Error::Msg("free text".to_string());
    assert_eq!(e.code(), 0);
    assert_eq!(e.msg(), "free text");
}

#[test]
fn from_code_inverts_code_for_named_variants() {
    let named = [
        Error::FileNotFound,
        Error::PermissionDenied,
        Error::DiskFull,
        Error::IllegalOperation,
        Error::UnknownTransferId,
        Error::FileAlreadyExists,
        Error::NoSuchUser,
        Error::OptionsNegotiationFailed,
    ];
    for e in named {
        assert_eq!(Error::from_code(e.code(), Some(e.msg())), e);
        // The text is discarded for known codes.
        assert_eq!(Error::from_code(e.code(), Some("whatever")), e);
        assert_eq!(Error::from_code(e.code(), None), e);
    }
}

#[test]
fn from_code_unknown_codes() {
    assert_eq!(Error::from_code(9, Some("custom")), Error::Msg("custom".to_string()));
    assert_eq!(Error::from_code(9, None), Error::UnknownError);
    assert_eq!(Error::from_code(0, Some("oops")), Error::Msg("oops".to_string()));
    assert_eq!(Error::from_code(0, None), Error::UnknownError);
    assert_eq!(Error::from_code(65535, Some("x")), Error::Msg("x".to_string()));
}

#[test]
fn from_io_parts_maps_kinds() {
    assert_eq!(Error::from_io_parts(IoKind::NotFound, None), Error::FileNotFound);
    assert_eq!(Error::from_io_parts(IoKind::PermissionDenied, None), Error::PermissionDenied);
    assert_eq!(Error::from_io_parts(IoKind::WriteZero, None), Error::DiskFull);
    assert_eq!(Error::from_io_parts(IoKind::AlreadyExists, None), Error::FileAlreadyExists);
    assert_eq!(Error::from_io_parts(IoKind::Other, None), Error::UnknownError);
    assert_eq!(
        Error::from_io_parts(IoKind::Other, Some(28)),
        Error::Msg("IO error: 28".to_string())
    );
    assert_eq!(
        Error::from_io_parts(IoKind::Other, Some(-5)),
        Error::Msg("IO error: -5".to_string())
    );
    assert_eq!(
        Error::from_io_parts(IoKind::Other, Some(0)),
        Error::Msg("IO error: 0".to_string())
    );
}

#[test]
fn from_io_classifies_real_errors() {
    let e = io::Error::new(io::ErrorKind::NotFound, "gone");
    assert_eq!(Error::from_io(&e), Error::FileNotFound);
    let e = io::Error::new(io::ErrorKind::PermissionDenied, "no");
    assert_eq!(Error::from_io(&e), Error::PermissionDenied);
    let e = io::Error::new(io::ErrorKind::WriteZero, "full");
    assert_eq!(Error::from_io(&e), Error::DiskFull);
    let e = io::Error::new(io::ErrorKind::AlreadyExists, "there");
    assert_eq!(Error::from_io(&e), Error::FileAlreadyExists);
    // A constructed error carries no OS status code.
    let e = io::Error::new(io::ErrorKind::TimedOut, "slow");
    assert_eq!(Error::from_io(&e), Error::UnknownError);
    let e = io::Error::from_raw_os_error(28);
    assert_eq!(Error::from_io(&e), Error::Msg("IO error: 28".to_string()));
}

#[test]
fn from_transfer_maps_session_failures() {
    assert_eq!(
        Error::from_transfer(TransferError::Packet(Error::NoSuchUser)),
        Error::NoSuchUser
    );
    assert_eq!(
        Error::from_transfer(TransferError::InvalidPacket),
        Error::IllegalOperation
    );
    assert_eq!(Error::from_transfer(TransferError::InvalidMode), Error::UnknownError);
    assert_eq!(
        Error::from_transfer(TransferError::MaxSendRetriesReached),
        Error::Msg("Max retries reached".to_string())
    );
    let e = io::Error::new(io::ErrorKind::NotFound, "gone");
    assert_eq!(Error::from_transfer(TransferError::Io(e)), Error::FileNotFound);
}
