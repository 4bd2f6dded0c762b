use bytes::BytesMut;
use soketto::base::{Codec, Error as BaseError};
use soketto::codec::base::{Error as TwistError, FrameCodec};
use soketto::codec::http::{Error as HttpError, RequestHeaderCodec};
use soketto::frame::WebSocket;
use soketto::frame::base::{Frame as PipeFrame, Header, OpCode as PipeOpCode};
use soketto::next::error::Error as NextError;
use soketto::next::handshake::Codec as HandshakeCodec;
use soketto::proto::fragmented::{FragmentAction, FragmentError, Fragmented};

fn base(bytes: &[u8]) -> Result<Option<soketto::base::Frame>, BaseError> {
    let mut b = BytesMut::from(bytes);
    Codec::new().decode(&mut b)
}

fn twist(bytes: &[u8], client: bool) -> Result<Option<soketto::frame::base::Frame>, TwistError> {
    let mut b = BytesMut::from(bytes);
    let mut c = FrameCodec::new();
    c.set_client(client);
    c.decode(&mut b)
}

#[test]
fn base_codec_errors() {
    assert!(matches!(base(&[0x83, 0x00]), Err(BaseError::ReservedOpCode)));
    assert!(matches!(base(&[0x09, 0x00]), Err(BaseError::FragmentedControl)));
    assert!(matches!(base(&[0x89, 0x7E, 0x00, 0x7E]), Err(BaseError::InvalidControlFrameLen)));
    assert!(matches!(base(&[0xC1, 0x00]), Err(BaseError::InvalidReservedBit(1))));
    assert!(matches!(base(&[0xA1, 0x00]), Err(BaseError::InvalidReservedBit(2))));
    assert!(matches!(base(&[0x91, 0x00]), Err(BaseError::InvalidReservedBit(3))));
    // After an error the codec refuses to go on.
    let mut c = Codec::new();
    let mut b = BytesMut::from(&[0x83u8, 0x00][..]);
    assert!(c.decode(&mut b).is_err());
    let mut b = BytesMut::from(&[0x81u8, 0x00][..]);
    assert!(matches!(c.decode(&mut b), Err(BaseError::IllegalCodecState)));
}

#[test]
fn frame_codec_errors() {
    assert!(matches!(twist(&[0xC1, 0x80], true), Err(TwistError::InvalidRsv1)));
    assert!(matches!(twist(&[0xA1, 0x80], true), Err(TwistError::InvalidRsv2)));
    assert!(matches!(twist(&[0x91, 0x80], true), Err(TwistError::InvalidRsv3)));
    assert!(matches!(twist(&[0x09, 0x80], true), Err(TwistError::FragmentedControl)));
    assert!(matches!(twist(&[0x83, 0x80, 0, 0, 0, 1], false), Err(TwistError::InvalidOpCode)));
    assert!(matches!(twist(&[0x8B, 0x00], true), Err(TwistError::InvalidOpCode)));
    assert!(matches!(twist(&[0x81, 0x00], false), Err(TwistError::MissingMask)));
    assert!(matches!(twist(&[0x89, 0x7E, 0x00, 0x7E], true), Err(TwistError::InvalidControlFrame)));
    // The part of a text payload received so far is checked: here it is no UTF-8.
    assert!(matches!(twist(&[0x81, 0x03, 0xC3, 0x28], true), Err(TwistError::InvalidUtf8)));
    // A part that is UTF-8, or ends in a cut sequence, waits for more.
    assert!(matches!(twist(&[0x81, 0x03, 0xC3, 0xA9], true), Ok(None)));
    assert!(matches!(twist(&[0x81, 0x03, 0x61, 0xC3], true), Ok(None)));
    // A payload that arrives whole is handed out as it is.
    assert!(matches!(twist(&[0x81, 0x02, 0xC3, 0x28], true), Ok(Some(_))));
}

#[test]
fn http_head_errors() {
    assert!(matches!(RequestHeaderCodec::new().decode(b"GET / HTTP/1.0\r\n\r\n"), Ok(Some(_))));
    assert!(matches!(RequestHeaderCodec::new().decode(b"\x01\x02\r\n\r\n"), Err(HttpError::Parse)));
}

#[test]
fn handshake_codec_errors() {
    let mut c = HandshakeCodec::server();
    assert!(matches!(c.decode(&mut BytesMut::from(&b"\x01\x02 nonsense\r\n\r\n"[..])), Err(NextError::Http)));
    let bad_key = b"GET / HTTP/1.1\r\nHost: a\r\nUpgrade: websocket\r\nConnection: upgrade\r\nSec-WebSocket-Version: 13\r\nSec-WebSocket-Key: \xff\r\n\r\n";
    assert!(matches!(c.decode(&mut BytesMut::from(&bad_key[..])), Err(NextError::Utf8)));
}

fn pipe_frame(fin: bool, opcode: PipeOpCode, data: &[u8]) -> WebSocket {
    let mut header = Header::new(opcode);
    header.set_fin(fin);
    let mut f = PipeFrame::from(header);
    f.set_application_data(data.to_vec());
    WebSocket::Base(f)
}

#[test]
fn fragment_errors() {
    let mut m = Fragmented::new(());
    assert!(matches!(m.on_item(Some(pipe_frame(false, PipeOpCode::Continue, b"x"))), FragmentAction::Fail(FragmentError::InvalidFragment)));
    let mut m = Fragmented::new(());
    assert!(matches!(m.on_item(Some(pipe_frame(false, PipeOpCode::Text, b"a"))), FragmentAction::Absorbed));
    assert!(matches!(m.on_item(Some(pipe_frame(true, PipeOpCode::Text, b"b"))), FragmentAction::Fail(FragmentError::InvalidContinuation)));
    let mut m = Fragmented::new(());
    assert!(matches!(m.on_item(Some(pipe_frame(false, PipeOpCode::Text, &[0xC3]))), FragmentAction::Absorbed));
    assert!(matches!(m.on_item(Some(pipe_frame(true, PipeOpCode::Continue, &[0x28]))), FragmentAction::Fail(FragmentError::InvalidUtf8)));
}
