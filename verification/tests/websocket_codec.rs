use bytes::BytesMut;
use soketto::codec::WebSocketCodec;
use soketto::frame::WebSocket;
use soketto::frame::base::{Frame, Header, OpCode};
use soketto::frame::handshake::server::Response;
use soketto::Nonce;

fn short() -> Vec<u8> {
    vec![0x81, 0x81, 0x00, 0x00, 0x00, 0x01, 0x00]
}

fn mid() -> Vec<u8> {
    let mut v = vec![0x81, 0xFE, 0x00, 0x7E, 0x00, 0x00, 0x00, 0x01];
    v.extend([0u8; 126].iter());
    v
}

const CONT: [u8; 7] = [0x00, 0x81, 0x00, 0x00, 0x00, 0x01, 0x00];
const TEXT: [u8; 7] = [0x81, 0x81, 0x00, 0x00, 0x00, 0x01, 0x00];
const BINARY: [u8; 7] = [0x82, 0x81, 0x00, 0x00, 0x00, 0x01, 0x00];
const PING: [u8; 7] = [0x89, 0x81, 0x00, 0x00, 0x00, 0x01, 0x00];
const PONG: [u8; 7] = [0x8A, 0x81, 0x00, 0x00, 0x00, 0x01, 0x00];

fn long() -> Vec<u8> {
    let mut long = Vec::with_capacity(65550);
    long.extend(&[0x81, 0xFF, 0x00, 0x00, 0x00, 0x00, 0x00, 0x01, 0x00, 0x00, 0x00, 0x00, 0x00, 0x01]);
    long.extend([0; 65536].iter());
    long
}

/// A server codec whose handshake is complete: it has sent its response.
fn completed_server() -> WebSocketCodec {
    let mut fc = WebSocketCodec::server();
    let response = Response::accept(Nonce::wrap("dGhlIHNhbXBsZSBub25jZQ==".to_string())).finish().unwrap();
    let mut out = BytesMut::new();
    fc.encode(WebSocket::ServerResponse(response), &mut out).unwrap();
    fc
}

fn decode_test(vec: Vec<u8>, opcode: OpCode) {
    let mut eb = BytesMut::with_capacity(256);
    eb.extend_from_slice(&vec);
    let mut fc = completed_server();
    match fc.decode(&mut eb) {
        Ok(Some(decoded)) => {
            if let WebSocket::Base(base) = decoded {
                if base.header().opcode() == OpCode::Continue {
                    assert!(!base.header().is_fin());
                } else {
                    assert!(base.header().is_fin());
                }
                assert!(!base.header().is_rsv1());
                assert!(!base.header().is_rsv2());
                assert!(!base.header().is_rsv3());
                assert!(base.header().opcode() == opcode);
                assert!(base.extension_data().is_empty());
                assert!(!base.application_data().is_empty());
            } else {
                assert!(false);
            }
        }
        _ => {
            assert!(false);
        }
    }
}

fn encode_test(cmp: Vec<u8>, opcode: OpCode, app_data: Vec<u8>) {
    let mut fc = completed_server();
    let mut header = Header::new(opcode);
    if opcode == OpCode::Continue {
        header.set_fin(false);
    }
    let mut base = Frame::from(header);
    base.set_application_data(app_data);

    let mut buf = BytesMut::with_capacity(1024);
    if let Ok(()) = fc.encode(WebSocket::Base(base), &mut buf) {
        // There is no mask in encoded frames.
        assert!(buf.len() == (cmp.len() - 4));
    }
}

#[test]
fn mod_decode() {
    decode_test(short(), OpCode::Text);
    decode_test(mid(), OpCode::Text);
    decode_test(long(), OpCode::Text);
    decode_test(CONT.to_vec(), OpCode::Continue);
    decode_test(TEXT.to_vec(), OpCode::Text);
    decode_test(BINARY.to_vec(), OpCode::Binary);
    decode_test(PING.to_vec(), OpCode::Ping);
    decode_test(PONG.to_vec(), OpCode::Pong);
}

#[test]
fn mod_encode() {
    encode_test(short(), OpCode::Text, vec![0]);
    encode_test(mid(), OpCode::Text, vec![0; 126]);
    encode_test(long(), OpCode::Close, vec![0; 65536]);
    encode_test(CONT.to_vec(), OpCode::Continue, vec![0]);
    encode_test(TEXT.to_vec(), OpCode::Text, vec![0]);
    encode_test(BINARY.to_vec(), OpCode::Binary, vec![0]);
    encode_test(PING.to_vec(), OpCode::Ping, vec![0]);
    encode_test(PONG.to_vec(), OpCode::Pong, vec![0]);
}

#[test]
fn codec_reads_request_then_frames_need_the_handshake() {
    let mut fc = WebSocketCodec::server();
    let request = b"GET /chat HTTP/1.1\r\nHost: example.com\r\nUpgrade: websocket\r\nConnection: Upgrade\r\nSec-WebSocket-Key: dGhlIHNhbXBsZSBub25jZQ==\r\nSec-WebSocket-Version: 13\r\n\r\n";
    let mut eb = BytesMut::from(&request[..]);
    match fc.decode(&mut eb) {
        Ok(Some(WebSocket::ClientRequest(r))) => {
            assert_eq!(r.websocket_key().as_ref(), "dGhlIHNhbXBsZSBub25jZQ==");
        }
        _ => panic!("the request decodes"),
    }
    // The head stays in the buffer.
    assert_eq!(eb.len(), request.len());
}

#[test]
fn codec_client_checks_the_accept_value() {
    let mut fc = WebSocketCodec::client(Nonce::wrap("dGhlIHNhbXBsZSBub25jZQ==".to_string()));
    let response = b"HTTP/1.1 101 Switching Protocols\r\nUpgrade: websocket\r\nConnection: Upgrade\r\nSec-WebSocket-Accept: s3pPLMBiTxaQ9kYGzzhZRbK+xOo=\r\n\r\n";
    let mut eb = BytesMut::from(&response[..]);
    assert!(matches!(fc.decode(&mut eb), Ok(Some(WebSocket::ServerResponse(_)))));

    let mut fc = WebSocketCodec::client(Nonce::wrap("dGhlIHNhbXBsZSBub25jZQ==".to_string()));
    let wrong = b"HTTP/1.1 101 Switching Protocols\r\nUpgrade: websocket\r\nConnection: Upgrade\r\nSec-WebSocket-Accept: AAAAAAAAAAAAAAAAAAAAAAAAAAA=\r\n\r\n";
    let mut eb = BytesMut::from(&wrong[..]);
    assert!(matches!(fc.decode(&mut eb), Err(soketto::codec::Error::Invalid(_))));
}

#[test]
fn codec_writes_the_response_head() {
    let mut fc = WebSocketCodec::server();
    let response = Response::accept(Nonce::wrap("dGhlIHNhbXBsZSBub25jZQ==".to_string())).finish().unwrap();
    let mut out = BytesMut::from(&b"x"[..]);
    fc.encode(WebSocket::ServerResponse(response), &mut out).unwrap();
    let text = String::from_utf8(out.to_vec()).unwrap();
    assert!(text.starts_with("xHTTP/1.1 101"));
    assert!(text.to_lowercase().contains("\r\nsec-websocket-accept: s3pplmbitxaq9kygzzhzrbk+xoo=\r\n"));
    assert!(text.ends_with("\r\n\r\n"));
}
