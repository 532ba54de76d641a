use tokimo_bus::codec::{encode_frame, frame_header, frame_len, read_frame_bytes, MAX_FRAME_BYTES};
use tokimo_bus::frame::{BusError, ProtocolVersion};

#[test]
fn frame_encoding_prefixes_big_endian_length() {
    let out = encode_frame(b"hello").unwrap();
    assert_eq!(out, vec![0, 0, 0, 5, b'h', b'e', b'l', b'l', b'o']);
}

#[test]
fn frame_roundtrip_with_trailing_bytes() {
    let payload: Vec<u8> = (0..300u32).map(|i| (i % 251) as u8).collect();
    let mut wire = encode_frame(&payload).unwrap();
    wire.extend_from_slice(&[9, 9, 9]);
    let (back, used) = read_frame_bytes(&wire).unwrap().unwrap();
    assert_eq!(back, payload);
    assert_eq!(used, 4 + payload.len());
}

#[test]
fn empty_payload_frame() {
    let wire = encode_frame(&[]).unwrap();
    assert_eq!(wire, vec![0, 0, 0, 0]);
    let (back, used) = read_frame_bytes(&wire).unwrap().unwrap();
    assert!(back.is_empty());
    assert_eq!(used, 4);
}

#[test]
fn clean_eof_before_header_is_none() {
    assert!(read_frame_bytes(&[]).unwrap().is_none());
    assert!(frame_header(&[]).unwrap().is_none());
}

#[test]
fn eof_inside_header_is_io_error() {
    for cut in [&[0u8][..], &[0, 0], &[0, 0, 0]] {
        match read_frame_bytes(cut).unwrap_err() {
            BusError::Io(msg) => assert_eq!(msg, "early eof"),
            other => panic!("unexpected error: {other:?}"),
        }
        assert!(matches!(frame_header(cut), Err(BusError::Io(_))));
    }
    assert_eq!(frame_header(&[0, 0, 1, 2, 99]).unwrap(), Some(258));
}

#[test]
fn eof_inside_payload_is_io_error() {
    let err = read_frame_bytes(&[0, 0, 0, 5, 1, 2]).unwrap_err();
    match err {
        BusError::Io(msg) => assert_eq!(msg, "early eof"),
        other => panic!("unexpected error: {other:?}"),
    }
}

#[test]
fn oversized_header_is_refused() {
    let too_big = MAX_FRAME_BYTES + 1;
    let header = too_big.to_be_bytes();
    match frame_len(&header).unwrap_err() {
        BusError::FrameTooLarge { size, max } => {
            assert_eq!(size, u64::from(too_big));
            assert_eq!(max, MAX_FRAME_BYTES);
        }
        other => panic!("unexpected error: {other:?}"),
    }
    assert_eq!(frame_len(&MAX_FRAME_BYTES.to_be_bytes()).unwrap(), MAX_FRAME_BYTES);
    assert!(matches!(read_frame_bytes(&header), Err(BusError::FrameTooLarge { .. })));
}

#[test]
fn oversized_payload_is_refused() {
    let payload = vec![0u8; MAX_FRAME_BYTES as usize + 1];
    match encode_frame(&payload).unwrap_err() {
        BusError::FrameTooLarge { size, max } => {
            assert_eq!(size, MAX_FRAME_BYTES as u64 + 1);
            assert_eq!(max, 33_554_432);
        }
        other => panic!("unexpected error: {other:?}"),
    }
}

#[test]
fn error_messages() {
    assert_eq!(BusError::ConnectionClosed.message(), "connection closed");
    assert_eq!(
        BusError::FrameTooLarge { size: 40, max: 32 }.message(),
        "frame too large: 40 bytes > 32"
    );
    assert_eq!(
        BusError::ServiceNotFound("video".into()).message(),
        "service `video` not registered"
    );
    assert_eq!(
        BusError::MethodNotFound { service: "a".into(), method: "b".into() }.message(),
        "method `a.b` not found"
    );
    assert_eq!(
        BusError::Unauthorized { service: "a".into(), method: "b".into() }.message(),
        "method `a.b` requires authentication"
    );
    assert_eq!(BusError::Timeout { ms: 30000 }.message(), "call timed out after 30000 ms");
    assert_eq!(BusError::InvalidAuthToken.message(), "invalid spawn token");
    assert_eq!(BusError::Io("x".into()).message(), "I/O error: x");
    assert_eq!(BusError::Codec("y".into()).message(), "codec: y");
    assert_eq!(BusError::BadRequest("z".into()).message(), "bad request: z");
    assert_eq!(BusError::Internal("z".into()).message(), "internal error: z");
    assert_eq!(BusError::App("z".into()).message(), "app error: z");
    let mismatch = BusError::ProtocolMismatch {
        broker: ProtocolVersion::current(),
        client: ProtocolVersion { major: 2, minor: 7 },
    };
    assert_eq!(
        mismatch.message(),
        "protocol mismatch: broker=ProtocolVersion { major: 1, minor: 0 }, client=ProtocolVersion { major: 2, minor: 7 }"
    );
}
