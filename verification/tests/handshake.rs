use bytes::BytesMut;
use soketto::handshake::server::{accept_key, Response, Server};
use soketto::handshake::{expect_ascii_header, Error, Header};
use soketto::next::error::Error as CodecError;
use soketto::next::handshake::{Codec, Decoded};
use soketto::Parsing;

#[test]
fn header_match() {
    let headers = &[
        Header { name: "foo", value: b"a,b,c,d" },
        Header { name: "foo", value: b"x" },
        Header { name: "foo", value: b"y, z, a" },
        Header { name: "bar", value: b"xxx" },
        Header { name: "bar", value: b"sdfsdf 423 42 424" },
        Header { name: "baz", value: b"123" },
    ];

    assert!(expect_ascii_header(headers, "foo", "a").is_ok());
    assert!(expect_ascii_header(headers, "foo", "b").is_ok());
    assert!(expect_ascii_header(headers, "foo", "c").is_ok());
    assert!(expect_ascii_header(headers, "foo", "d").is_ok());
    assert!(expect_ascii_header(headers, "foo", "x").is_ok());
    assert!(expect_ascii_header(headers, "foo", "y").is_ok());
    assert!(expect_ascii_header(headers, "foo", "z").is_ok());
    assert!(expect_ascii_header(headers, "foo", "a").is_ok());
    assert!(expect_ascii_header(headers, "bar", "xxx").is_ok());
    assert!(expect_ascii_header(headers, "bar", "sdfsdf 423 42 424").is_ok());
    assert!(expect_ascii_header(headers, "baz", "123").is_ok());
    assert!(expect_ascii_header(headers, "baz", "???").is_err());
    assert!(expect_ascii_header(headers, "???", "x").is_err());
}

#[test]
fn header_errors_say_which() {
    let headers = &[Header { name: "Upgrade", value: b"h2c" }, Header { name: "X", value: &[0xff, 0xfe] }];
    assert!(matches!(expect_ascii_header(headers, "upgrade", "websocket"), Err(Error::UnexpectedHeader(n)) if n == "upgrade"));
    assert!(matches!(expect_ascii_header(headers, "Host", "x"), Err(Error::HeaderNotFound(n)) if n == "Host"));
    assert!(matches!(expect_ascii_header(headers, "x", "y"), Err(Error::Utf8)));
}

#[test]
fn accept_key_of_the_rfc_example() {
    // RFC 6455, section 1.3.
    assert_eq!(accept_key(b"dGhlIHNhbXBsZSBub25jZQ=="), "s3pPLMBiTxaQ9kYGzzhZRbK+xOo=");
}

const REQUEST: &[u8] = b"GET /chat HTTP/1.1\r\nHost: server.example.com\r\nUpgrade: websocket\r\nConnection: Upgrade\r\nSec-WebSocket-Key: dGhlIHNhbXBsZSBub25jZQ==\r\nSec-WebSocket-Protocol: chat, superchat\r\nSec-WebSocket-Protocol: chat\r\nSec-WebSocket-Version: 13\r\n\r\n";

#[test]
fn server_reads_a_request_and_answers_it() {
    let mut server = Server::new();
    server.add_protocol("chat");
    match server.decode_request(REQUEST) {
        Ok(Parsing::Done { value, offset }) => {
            assert_eq!(offset, REQUEST.len());
            assert_eq!(value.key(), b"dGhlIHNhbXBsZSBub25jZQ==");
            assert_eq!(value.protocols(), vec!["chat"]);
            let mut out = Vec::new();
            server.encode_response(&Response::Accept { key: value.key(), protocol: Some("chat") }, &mut out);
            let text = String::from_utf8(out).unwrap();
            assert!(text.starts_with("HTTP/1.1 101 Switching Protocols\r\n"));
            assert!(text.contains("\r\nSec-WebSocket-Accept: s3pPLMBiTxaQ9kYGzzhZRbK+xOo="));
            assert!(text.contains("\r\nSec-WebSocket-Protocol: chat"));
            assert!(text.ends_with("\r\n\r\n"));
        }
        _ => panic!("the request is accepted"),
    }
    assert!(matches!(server.decode_request(&REQUEST[..40]), Ok(Parsing::NeedMore(()))));
}

#[test]
fn server_refuses_bad_requests() {
    let mut server = Server::new();
    let post = b"POST / HTTP/1.1\r\nHost: a\r\n\r\n";
    assert!(matches!(server.decode_request(post), Err(Error::InvalidRequestMethod)));
    let old = b"GET / HTTP/1.0\r\nHost: a\r\n\r\n";
    assert!(matches!(server.decode_request(old), Err(Error::UnsupportedHttpVersion)));
    let no_host = b"GET / HTTP/1.1\r\nUpgrade: websocket\r\n\r\n";
    assert!(matches!(server.decode_request(no_host), Err(Error::HeaderNotFound(n)) if n == "Host"));
    assert!(matches!(server.decode_request(b"\x00\x01 nonsense\r\n\r\n"), Err(Error::Http)));
    let mut out = Vec::new();
    server.encode_response(&Response::Reject { status_code: 404 }, &mut out);
    assert_eq!(out, b"HTTP/1.1 404 Not Found\r\n\r\n".to_vec());
}

#[test]
fn codec_server_reads_a_request() {
    let mut codec = Codec::server();
    let mut bytes = BytesMut::from(REQUEST);
    bytes.extend_from_slice(b"rest");
    match codec.decode(&mut bytes) {
        Ok(Some(Decoded::Request(r))) => {
            assert_eq!(r.path(), "/chat");
            assert_eq!(r.key(), "dGhlIHNhbXBsZSBub25jZQ==");
            assert_eq!(r.origin(), None);
            assert_eq!(r.protocols(), vec!["chat, superchat".to_string(), "chat".to_string()]);
            assert!(r.extensions().is_empty());
        }
        _ => panic!("the request decodes"),
    }
    assert_eq!(&bytes[..], b"rest");
}

#[test]
fn codec_server_refusals_leave_the_bytes() {
    let mut codec = Codec::server();
    let keep_alive = b"GET / HTTP/1.1\r\nHost: a\r\nUpgrade: websocket\r\nConnection: keep-alive, Upgrade\r\n\r\n";
    let mut bytes = BytesMut::from(&keep_alive[..]);
    match codec.decode(&mut bytes) {
        Err(CodecError::Invalid(s)) => assert_eq!(s, "invalid value for header Connection"),
        _ => panic!("the whole value is compared"),
    }
    assert_eq!(bytes.len(), keep_alive.len());
    let mut partial = BytesMut::from(&REQUEST[..30]);
    assert!(matches!(codec.decode(&mut partial), Ok(None)));
    let no_key = b"GET / HTTP/1.1\r\nHost: a\r\nUpgrade: websocket\r\nConnection: upgrade\r\nSec-WebSocket-Version: 13\r\n\r\n";
    match codec.decode(&mut BytesMut::from(&no_key[..])) {
        Err(CodecError::Invalid(s)) => assert_eq!(s, "header Sec-WebSocket-Key not found"),
        _ => panic!("the key is missing"),
    }
}

const RESPONSE: &[u8] = b"HTTP/1.1 101 Switching Protocols\r\nUpgrade: websocket\r\nConnection: Upgrade\r\nSec-WebSocket-Accept: s3pPLMBiTxaQ9kYGzzhZRbK+xOo=\r\nSec-WebSocket-Protocol: chat\r\n\r\n";

#[test]
fn codec_client_reads_a_response() {
    let protocols = ["superchat", "chat"];
    let extensions: [&str; 0] = [];
    let mut codec = Codec::Client { nonce: "dGhlIHNhbXBsZSBub25jZQ==", protocols: &protocols, extensions: &extensions };
    let mut bytes = BytesMut::from(RESPONSE);
    match codec.decode(&mut bytes) {
        Ok(Some(Decoded::Response(r))) => {
            assert_eq!(r.protocol(), Some("chat"));
            assert!(r.extensions().is_empty());
        }
        _ => panic!("the response decodes"),
    }
    assert!(bytes.is_empty());
}

#[test]
fn codec_client_refusals() {
    let mut codec = Codec::client("dGhlIHNhbXBsZSBub25jZQ==");
    let mut bytes = BytesMut::from(RESPONSE);
    match codec.decode(&mut bytes) {
        Err(CodecError::Invalid(s)) => assert_eq!(s, "protocol was not requested"),
        _ => panic!("no protocol was offered"),
    }
    let mut codec = Codec::client("another nonce");
    match codec.decode(&mut BytesMut::from(RESPONSE)) {
        Err(CodecError::Invalid(s)) => assert_eq!(s, "invalid 'Sec-WebSocket-Accept' received"),
        _ => panic!("the accept value belongs to another key"),
    }
    let not_101 = b"HTTP/1.1 200 OK\r\n\r\n";
    match codec.decode(&mut BytesMut::from(&not_101[..])) {
        Err(CodecError::Invalid(s)) => assert_eq!(s, "unexpected HTTP status code"),
        _ => panic!("the status is not 101"),
    }
}

#[test]
fn next_request_setters() {
    let mut r = soketto::next::handshake::Request::new("/".to_string(), "k".to_string());
    assert!(r.protocols().is_empty());
    r.set_origin("https://example.com".to_string()).set_protocols(vec!["a".to_string()]);
    assert_eq!(r.origin(), Some("https://example.com"));
    assert_eq!(r.protocols(), vec!["a".to_string()]);
    let mut s = soketto::next::handshake::Response::new();
    s.set_protocol("p").set_extensions(vec!["e"]);
    assert_eq!(s.protocol(), Some("p"));
    assert_eq!(s.extensions(), vec!["e"]);
}
