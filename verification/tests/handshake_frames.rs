use soketto::codec::http::{RequestHeaderCodec, ResponseHeaderCodec};
use soketto::frame::handshake::client::Request;
use soketto::frame::handshake::server::Response;
use soketto::frame::server::request::ClientHandshake;
use soketto::frame::server::response::Builder;
use soketto::{Nonce, Storage};

const KEY: &str = "dGhlIHNhbXBsZSBub25jZQ==";

#[test]
fn accepting_response_passes_the_clients_check() {
    let mut builder = Response::accept(Nonce::wrap(KEY.to_string()));
    builder.add_protocol("chat").add_extension("permessage-deflate");
    let response = builder.finish().unwrap();
    let head = response.as_http().clone();
    assert_eq!(head.status, 101);
    let checked = Response::new(Nonce::wrap(KEY.to_string()), head.clone()).unwrap();
    assert_eq!(checked.websocket_protocol(), Some(&b"chat"[..]));
    // A client with another key refuses it.
    let other = Response::new(Nonce::wrap("another".to_string()), head);
    assert_eq!(other.unwrap_err().to_string(), "invalid: invalid 'Sec-WebSocket-Accept' received");
}

#[test]
fn built_request_passes_the_servers_validation() {
    let mut builder = Request::builder(Nonce::wrap(KEY.to_string()));
    builder.add_protocol("chat");
    let request = builder.finish().unwrap();
    let validated = ClientHandshake::new(request.as_http().clone()).validated().unwrap();
    assert_eq!(validated.websocket_key(), KEY);
    assert_eq!(validated.websocket_protocols(), vec![&b"chat"[..]]);
    // Without a host header the stricter check refuses it.
    let refused = Request::new(request.as_http().clone());
    assert_eq!(refused.unwrap_err().to_string(), "invalid: missing header name: host");
}

#[test]
fn validation_refusals() {
    let mut head = Request::builder(Nonce::wrap(KEY.to_string())).finish().unwrap().as_http().clone();
    head.method = "POST".to_string();
    let r = ClientHandshake::new(head).validated();
    assert_eq!(r.unwrap_err().to_string(), "invalid: request method != GET");
}

#[test]
fn server_handshake_builder() {
    let mut b = Builder::accept(KEY);
    b.protocol("chat");
    let s = b.finish().unwrap();
    let head = s.response();
    assert_eq!(head.status, 101);
    let accept = head.headers.iter().find(|(n, _)| n == "sec-websocket-accept").unwrap();
    assert_eq!(&accept.1[..], b"s3pPLMBiTxaQ9kYGzzhZRbK+xOo=");
    let mut bytes = Vec::new();
    ResponseHeaderCodec::new().encode(head, &mut bytes);
    // The status code and the reason phrase are written without a space
    // between them.
    assert!(bytes.starts_with(b"HTTP/1.1 101Switching Protocols\r\n"));
    assert!(bytes.ends_with(b"\r\n\r\n"));
    let fixed = [&b"HTTP/1.1 101 Switching Protocols"[..], &bytes[31..]].concat();
    let back = ResponseHeaderCodec::new().decode(&fixed).unwrap().unwrap();
    assert_eq!(back.status, 101);
    assert_eq!(back.headers.len(), head.headers.len());
}

#[test]
fn request_head_codec_round_trip() {
    let request = Request::builder(Nonce::wrap(KEY.to_string())).finish().unwrap();
    let mut bytes = Vec::new();
    RequestHeaderCodec::new().encode(request.as_http(), &mut bytes);
    assert!(bytes.starts_with(b"GET / HTTP/1.1\r\n"));
    assert!(bytes.ends_with(b"\r\n\r\n"));
    let back = RequestHeaderCodec::new().decode(&bytes).unwrap().unwrap();
    assert_eq!(back.method, "GET");
    assert_eq!(back.path, "/");
    assert_eq!(back.headers.len(), 4);
    assert!(RequestHeaderCodec::new().decode(&bytes[..10]).unwrap().is_none());
}

#[test]
fn storage_hands_out_its_bytes() {
    let shared = [1u8, 2, 3];
    assert_eq!(Storage::Shared(&shared).as_ref(), &[1, 2, 3]);
    let mut unique = [4u8, 5];
    assert_eq!(Storage::Unique(&mut unique).as_ref(), &[4, 5]);
    assert_eq!(Storage::Owned(bytes::BytesMut::from(&b"ab"[..])).as_ref(), b"ab");
}
