use regreet::wire::{decode_frame, decode_header, encode_frame, encode_header, FrameError};

#[test]
fn header_is_big_endian() {
    assert_eq!(encode_header(0x0102_0304), [1, 2, 3, 4]);
    assert_eq!(decode_header(&[0, 0, 1, 0]), 256);
    assert_eq!(decode_header(&[0xff, 0xff, 0xff, 0xff]), u32::MAX);
}

#[test]
fn frame_round_trip() {
    let body = br#"{"type":"create_session","username":"alice"}"#.to_vec();
    let frame = encode_frame(&body).unwrap();
    assert_eq!(&frame[..4], &[0, 0, 0, body.len() as u8]);
    assert_eq!(&frame[4..], &body[..]);
    assert_eq!(decode_frame(&frame), Ok(body));
}

#[test]
fn empty_frame_round_trip() {
    let frame = encode_frame(&[]).unwrap();
    assert_eq!(frame, vec![0, 0, 0, 0]);
    assert_eq!(decode_frame(&frame), Ok(vec![]));
}

#[test]
fn truncated_and_trailing_frames() {
    assert_eq!(decode_frame(&[0, 0]), Err(FrameError::Truncated));
    assert_eq!(decode_frame(&[0, 0, 0, 3, b'a']), Err(FrameError::Truncated));
    assert_eq!(decode_frame(&[0, 0, 0, 1, b'a', b'b']), Err(FrameError::TrailingBytes));
}
