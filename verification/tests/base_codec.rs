use bytes::BytesMut;
use soketto::base::{Codec, Frame, OpCode};
use soketto::codec::base::FrameCodec;

// Payload on control frame must be 125 bytes or less. 2nd byte must be 0xFD or less.
const CTRL_PAYLOAD_LEN: [u8; 9] = [0x89, 0xFE, 0x10, 0x00, 0x00, 0x00, 0x00, 0x00, 0x00];
// One byte of the 2 byte header is ok.
const PARTIAL_HEADER: [u8; 1] = [0x89];
// Between 0 and 2 bytes of a 2 byte length block is ok.
const PARTIAL_LENGTH_1: [u8; 3] = [0x89, 0xFE, 0x01];
// Between 0 and 8 bytes of an 8 byte length block is ok.
const PARTIAL_LENGTH_2: [u8; 6] = [0x89, 0xFF, 0x01, 0x02, 0x03, 0x04];
// Between 0 and 4 bytes of the 4 byte mask is ok.
const PARTIAL_MASK: [u8; 6] = [0x82, 0xFE, 0x01, 0x02, 0x00, 0x00];
// Between 0 and X bytes of the X byte payload is ok.
const PARTIAL_PAYLOAD: [u8; 8] = [0x82, 0x85, 0x01, 0x02, 0x03, 0x04, 0x00, 0x00];
// Good frame.
const PING_NO_DATA: [u8; 6] = [0x89, 0x80, 0x00, 0x00, 0x00, 0x01];
// Mask bit must be one. 2nd byte must be 0x80 or greater.
const NO_MASK: [u8; 2] = [0x89, 0x00];

fn decode(buf: &[u8]) -> Result<Option<Frame>, soketto::base::Error> {
    let mut eb = BytesMut::with_capacity(256);
    eb.extend_from_slice(buf);
    let mut fc = Codec::new();
    fc.decode(&mut eb)
}

fn decode_twist(buf: &[u8]) -> Result<Option<soketto::frame::base::Frame>, soketto::codec::base::Error> {
    let mut eb = BytesMut::with_capacity(256);
    eb.extend_from_slice(buf);
    let mut fc = FrameCodec::new();
    fc.set_client(false);
    fc.decode(&mut eb)
}

#[test]
fn base_decode_partial_header() {
    assert!(matches!(decode(&PARTIAL_HEADER), Ok(None)));
    assert!(matches!(decode_twist(&PARTIAL_HEADER), Ok(None)));
}

#[test]
fn base_decode_partial_len_1() {
    assert!(matches!(decode(&PARTIAL_LENGTH_1), Ok(None)));
    assert!(matches!(decode_twist(&PARTIAL_LENGTH_1), Ok(None)));
}

#[test]
fn base_decode_partial_len_2() {
    assert!(matches!(decode(&PARTIAL_LENGTH_2), Ok(None)));
    assert!(matches!(decode_twist(&PARTIAL_LENGTH_2), Ok(None)));
}

#[test]
fn base_decode_partial_mask() {
    assert!(matches!(decode(&PARTIAL_MASK), Ok(None)));
    assert!(matches!(decode_twist(&PARTIAL_MASK), Ok(None)));
}

#[test]
fn base_decode_partial_payload() {
    assert!(matches!(decode(&PARTIAL_PAYLOAD), Ok(None)));
    assert!(matches!(decode_twist(&PARTIAL_PAYLOAD), Ok(None)));
}

#[test]
fn base_decode_invalid_control_payload_len() {
    assert!(decode(&CTRL_PAYLOAD_LEN).is_err());
    assert!(decode_twist(&CTRL_PAYLOAD_LEN).is_err());
}

#[test]
fn base_decode_reserved() {
    // rsv1, rsv2, and rsv3.
    let reserved = [0x90, 0xa0, 0xc0];
    for res in &reserved {
        let buf = vec![*res, 0x00];
        assert!(decode(&buf).is_err(), "rsv should not be set: {}", res);
        assert!(decode_twist(&buf).is_err(), "rsv should not be set: {}", res);
    }
}

#[test]
fn base_decode_fragmented_control() {
    let second_bytes = [8, 9, 10];
    for sb in &second_bytes {
        let buf = vec![*sb, 0x00];
        assert!(decode(&buf).is_err(), "control frame {} is marked as fragment", sb);
        assert!(decode_twist(&buf).is_err(), "control frame {} is marked as fragment", sb);
    }
}

#[test]
fn base_decode_reserved_opcodes() {
    let reserved = [3, 4, 5, 6, 7, 11, 12, 13, 14, 15];
    for res in &reserved {
        let buf = vec![0x80 | *res, 0x00];
        assert!(decode(&buf).is_err(), "opcode {} should be reserved", res);
        assert!(decode_twist(&buf).is_err(), "opcode {} should be reserved", res);
    }
}

#[test]
fn base_decode_ping_no_data() {
    match decode(&PING_NO_DATA) {
        Ok(Some(frame)) => {
            assert!(frame.is_fin());
            assert!(!frame.is_rsv1());
            assert!(!frame.is_rsv2());
            assert!(!frame.is_rsv3());
            assert!(frame.opcode() == OpCode::Ping);
            assert!(frame.payload_data().is_none())
        }
        _ => panic!("a ping without data decodes"),
    }
    match decode_twist(&PING_NO_DATA) {
        Ok(Some(frame)) => {
            assert!(frame.header().is_fin());
            assert!(!frame.header().is_rsv1());
            assert!(!frame.header().is_rsv2());
            assert!(!frame.header().is_rsv3());
            assert!(frame.header().opcode() == soketto::frame::base::OpCode::Ping);
            assert!(frame.application_data().len() == 0);
            assert!(frame.extension_data().is_empty());
            assert!(frame.application_data().is_empty());
        }
        _ => panic!("a ping without data decodes"),
    }
}

#[test]
fn decode_no_mask() {
    assert!(decode_twist(&NO_MASK).is_err(), "decoded frames should always have a mask");
}

#[test]
fn base_encode_then_decode_gives_the_frame() {
    let mut f = Frame::new(OpCode::Binary);
    f.set_payload_data(Some(soketto::base::Data::Binary(BytesMut::from(&b"hello"[..]))));
    let mut codec = Codec::new();
    let mut buf = BytesMut::new();
    codec.encode(f, &mut buf).unwrap();
    assert_eq!(&buf[..], &[0x82, 0x05, b'h', b'e', b'l', b'l', b'o'][..]);
    let mut codec = Codec::new();
    let back = codec.decode(&mut buf).unwrap().unwrap();
    assert!(back.is_fin());
    assert!(back.opcode() == OpCode::Binary);
    assert_eq!(back.payload_data().unwrap().as_ref().as_ref(), b"hello");
    assert!(buf.is_empty());
}

#[test]
fn base_encode_extended_lengths() {
    for (len, header) in [(126usize, vec![0x82u8, 126, 0, 126]), (65536, vec![0x82, 127, 0, 0, 0, 0, 0, 1, 0, 0])] {
        let mut f = Frame::new(OpCode::Binary);
        f.set_payload_data(Some(soketto::base::Data::Binary(BytesMut::from(&vec![7u8; len][..]))));
        let mut codec = Codec::new();
        let mut buf = BytesMut::new();
        codec.encode(f, &mut buf).unwrap();
        assert_eq!(&buf[..header.len()], &header[..]);
        assert_eq!(buf.len(), header.len() + len);
    }
}

#[test]
fn base_decode_masked_payload_is_unmasked() {
    // "Hello" masked with 0x37fa213d, as in RFC 6455, section 5.7.
    let bytes = [0x81, 0x85, 0x37, 0xfa, 0x21, 0x3d, 0x7f, 0x9f, 0x4d, 0x51, 0x58];
    let frame = decode(&bytes).unwrap().unwrap();
    assert!(frame.opcode() == OpCode::Text);
    assert_eq!(frame.payload_data().unwrap().as_ref().as_ref(), b"Hello");
}

#[test]
fn base_reserved_opcode_configured_is_accepted() {
    let mut codec = Codec::new();
    codec.add_reserved_opcode(OpCode::Reserved3);
    assert!(codec.has_reserved_opcode(OpCode::Reserved3));
    assert!(!codec.has_reserved_opcode(OpCode::Reserved4));
    let mut eb = BytesMut::from(&[0x83u8, 0x00][..]);
    assert!(matches!(codec.decode(&mut eb), Ok(Some(_))));
}

#[test]
fn base_payload_too_large() {
    let mut codec = Codec::new();
    codec.set_max_data_size(4);
    let mut eb = BytesMut::from(&[0x82u8, 0x05, 1, 2, 3, 4, 5][..]);
    assert!(matches!(codec.decode(&mut eb), Err(soketto::base::Error::PayloadTooLarge { actual: 5, maximum: 4 })));
}

#[test]
fn apply_mask_twice_restores() {
    let mut data = b"some payload".to_vec();
    soketto::base::apply_mask(&mut data, 0x01020304);
    assert_ne!(&data[..], b"some payload");
    soketto::base::apply_mask(&mut data, 0x01020304);
    assert_eq!(&data[..], b"some payload");
}

#[test]
fn frame_codec_decodes_frames_in_turn() {
    // A masked empty ping, then a masked empty pong.
    let mut buf = BytesMut::from(&[0x89u8, 0x80, 0, 0, 0, 1, 0x8A, 0x80, 0, 0, 0, 1][..]);
    let mut fc = FrameCodec::new();
    let ping = fc.decode(&mut buf).unwrap().unwrap();
    assert!(ping.header().opcode() == soketto::frame::base::OpCode::Ping);
    let pong = fc.decode(&mut buf).unwrap().unwrap();
    assert!(pong.header().opcode() == soketto::frame::base::OpCode::Pong);
    assert!(buf.is_empty());
    assert!(matches!(fc.decode(&mut buf), Ok(None)));
}
