use bytes::BytesMut;
use soketto::frame::{FrameCodec, PipelineFrame, WebsocketFrame};
use soketto::opcode::OpCode;

fn short() -> Vec<u8> {
    vec![0x88, 0x81, 0x00, 0x00, 0x00, 0x01, 0x00]
}

fn mid() -> Vec<u8> {
    let mut v = vec![0x88, 0xFE, 0x00, 0x7E, 0x00, 0x00, 0x00, 0x01];
    v.extend([0u8; 126].iter());
    v
}

const LONG: [u8; 15] = [0x88, 0xFF, 0x00, 0x00, 0x00, 0x00, 0x00, 0x01, 0x00, 0x00, 0x00, 0x00, 0x00, 0x01, 0x00];
const CONT: [u8; 7] = [0x00, 0x81, 0x00, 0x00, 0x00, 0x01, 0x00];
const TEXT: [u8; 7] = [0x81, 0x81, 0x00, 0x00, 0x00, 0x01, 0x00];
const BINARY: [u8; 7] = [0x82, 0x81, 0x00, 0x00, 0x00, 0x01, 0x00];
const PING: [u8; 7] = [0x89, 0x81, 0x00, 0x00, 0x00, 0x01, 0x00];
const PONG: [u8; 7] = [0x8A, 0x81, 0x00, 0x00, 0x00, 0x01, 0x00];
const RES: [u8; 7] = [0x83, 0x81, 0x00, 0x00, 0x00, 0x01, 0x00];

fn decode_test(vec: Vec<u8>, opcode: OpCode, masked: bool, len: u64, mask: Option<u32>) {
    let mut eb = BytesMut::from(&vec[..]);
    let mut fc = if opcode == OpCode::Continue {
        FrameCodec { fragmented: true }
    } else {
        FrameCodec { fragmented: false }
    };
    match fc.decode(&mut eb) {
        Ok(Some(decoded)) => match decoded {
            PipelineFrame::Message { message, body } => {
                assert!(!body);
                assert!(message.fin);
                assert!(!message.rsv1);
                assert!(!message.rsv2);
                assert!(!message.rsv3);
                assert!(message.opcode == opcode);
                assert!(message.masked == masked);
                assert!(message.payload_length == len);
                assert!(message.mask_key == mask);
                assert!(message.extension_data.is_none());
                assert!(message.application_data.is_some());
            }
            PipelineFrame::Body { chunk, .. } => {
                if let Some(chunk) = chunk {
                    assert!(!chunk.fin);
                    assert!(chunk.opcode == opcode);
                } else {
                    assert!(false);
                }
            }
            _ => {
                assert!(false);
            }
        },
        _ => {
            assert!(false);
        }
    }
}

fn encode_test(cmp: Vec<u8>, opcode: OpCode, len: u64, masked: bool, mask: Option<u32>, app_data: Option<Vec<u8>>) {
    let mut fc = FrameCodec { fragmented: false };
    let mut frame: WebsocketFrame = Default::default();
    frame.opcode = opcode;
    if opcode == OpCode::Continue {
        frame.fin = false;
    }
    frame.payload_length = len;
    frame.masked = masked;
    frame.mask_key = mask;
    frame.application_data = app_data;
    let mut buf = vec![];
    let msg = PipelineFrame::Message { message: frame, body: false };
    if let Ok(()) = fc.encode(msg, &mut buf) {
        assert!(buf.len() == cmp.len());
        for (a, b) in buf.iter().zip(cmp.iter()) {
            assert!(a == b);
        }
    }
}

#[test]
fn frame_decode() {
    decode_test(short(), OpCode::Close, true, 1, Some(1));
    decode_test(mid(), OpCode::Close, true, 126, Some(1));
    decode_test(LONG.to_vec(), OpCode::Close, true, 65536, Some(1));
    decode_test(CONT.to_vec(), OpCode::Continue, true, 1, Some(1));
    decode_test(TEXT.to_vec(), OpCode::Text, true, 1, Some(1));
    decode_test(BINARY.to_vec(), OpCode::Binary, true, 1, Some(1));
    decode_test(PING.to_vec(), OpCode::Ping, true, 1, Some(1));
    decode_test(PONG.to_vec(), OpCode::Pong, true, 1, Some(1));
    decode_test(RES.to_vec(), OpCode::Reserved, true, 1, Some(1));
}

#[test]
fn frame_encode() {
    encode_test(short(), OpCode::Close, 1, true, Some(1), Some(vec![0]));
    encode_test(mid(), OpCode::Close, 126, true, Some(1), Some(vec![0; 126]));
    encode_test(LONG.to_vec(), OpCode::Close, 65536, true, Some(1), Some(vec![0]));
    encode_test(CONT.to_vec(), OpCode::Continue, 1, true, Some(1), Some(vec![0]));
    encode_test(TEXT.to_vec(), OpCode::Text, 1, true, Some(1), Some(vec![0]));
    encode_test(BINARY.to_vec(), OpCode::Binary, 1, true, Some(1), Some(vec![0]));
    encode_test(PING.to_vec(), OpCode::Ping, 1, true, Some(1), Some(vec![0]));
    encode_test(PONG.to_vec(), OpCode::Pong, 1, true, Some(1), Some(vec![0]));
    encode_test(RES.to_vec(), OpCode::Reserved, 1, true, Some(1), Some(vec![0]));
}

#[test]
fn frame_bad_opcode_is_refused() {
    let mut fc = FrameCodec { fragmented: false };
    let mut frame: WebsocketFrame = Default::default();
    frame.opcode = OpCode::Bad;
    let mut buf = vec![];
    let r = fc.encode(PipelineFrame::Message { message: frame, body: false }, &mut buf);
    assert!(matches!(r, Err(soketto::frame::Error::BadOpCode)));
    assert!(buf.is_empty());
}

#[test]
fn frame_fragments_flow_through_the_codec() {
    let mut fc = FrameCodec { fragmented: false };
    // A text frame without fin starts a fragmented message.
    let mut eb = BytesMut::from(&[0x01u8, 0x80, 0, 0, 0, 0][..]);
    assert!(matches!(fc.decode(&mut eb), Ok(Some(PipelineFrame::Message { body: true, .. }))));
    assert!(fc.fragmented);
    // A final continuation ends it.
    let mut eb = BytesMut::from(&[0x80u8, 0x80, 0, 0, 0, 0][..]);
    assert!(matches!(fc.decode(&mut eb), Ok(Some(PipelineFrame::Body { fin: true, .. }))));
    assert!(!fc.fragmented);
    // A continuation outside a fragmented message has no place.
    let mut eb = BytesMut::from(&[0x80u8, 0x80, 0, 0, 0, 0][..]);
    assert!(matches!(fc.decode(&mut eb), Err(soketto::frame::Error::UnknownFrameType { fin: true, opcode: OpCode::Continue })));
}

#[test]
fn decode_waits_for_a_whole_header() {
    let mut fc = FrameCodec { fragmented: false };
    // A 2-byte extended length is announced but only one byte of it is there.
    let mut buf = BytesMut::from(&[0x82u8, 0x7E, 0x00][..]);
    assert!(!FrameCodec::is_decodable(&buf));
    assert!(matches!(fc.decode_available(&mut buf), Ok(None)));
    assert_eq!(buf.len(), 3);
    // A masked frame announces four more header bytes.
    let partial = BytesMut::from(&[0x81u8, 0x81, 1, 2][..]);
    assert!(!FrameCodec::is_decodable(&partial));
    assert!(FrameCodec::is_decodable(&BytesMut::new()));
    // Once the header is whole the frame is decoded.
    let mut buf = BytesMut::from(&[0x82u8, 0x02, 7, 9][..]);
    assert!(FrameCodec::is_decodable(&buf));
    match fc.decode_available(&mut buf) {
        Ok(Some(PipelineFrame::Message { message, body: false })) => {
            assert_eq!(message.application_data.as_deref(), Some(&[7u8, 9][..]));
        }
        _ => panic!("a whole binary frame is a message"),
    }
    assert!(buf.is_empty());
}
