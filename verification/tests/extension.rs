use bytes::BytesMut;
use soketto::base::{Data, Frame, OpCode};
use soketto::connection::{
    admit_extension, decode_with_extensions, encode_with_extensions, message_frame, Mode, Received, Receiver,
};
use soketto::data::Incoming;
use soketto::extension::deflate::{strip_sync_flush, with_sync_trailer, Deflate};
use soketto::extension::{Extension, Param};
use soketto::handshake::{configure_extensions, parse_offers};

fn text_frame(s: &str) -> Frame {
    let mut f = Frame::new(OpCode::Text);
    f.set_payload_data(Some(Data::Text(BytesMut::from(s.as_bytes()))));
    f
}

#[test]
fn deflate_round_trip() {
    let mut d = Deflate::new(Mode::Server);
    d.configure(&[]).unwrap();
    assert!(d.is_enabled());
    let message = "hello hello hello hello hello hello hello";
    let mut f = text_frame(message);
    d.encode(&mut f).unwrap();
    assert!(f.is_rsv1());
    let compressed = f.payload_data().unwrap().as_ref().to_vec();
    assert_ne!(&compressed[..], message.as_bytes());
    d.decode(&mut f).unwrap();
    assert!(!f.is_rsv1());
    assert!(f.payload_data().unwrap().is_text());
    assert_eq!(f.payload_data().unwrap().as_ref().as_ref(), message.as_bytes());
}

#[test]
fn deflate_leaves_control_frames() {
    let mut d = Deflate::new(Mode::Server);
    let mut f = Frame::new(OpCode::Ping);
    f.set_payload_data(Some(Data::Binary(BytesMut::from(&b"ping"[..]))));
    d.encode(&mut f).unwrap();
    assert!(!f.is_rsv1());
    assert_eq!(f.payload_data().unwrap().as_ref().as_ref(), b"ping");
}

#[test]
fn deflate_refuses_garbage() {
    let mut d = Deflate::new(Mode::Client);
    let mut f = Frame::new(OpCode::Binary);
    f.set_rsv1(true);
    f.set_payload_data(Some(Data::Binary(BytesMut::from(&[0xffu8, 0xff, 0xff][..]))));
    assert!(d.decode(&mut f).is_err());
    assert!(f.is_rsv1());
    // The payload keeps the trailer appended for the decompressor.
    assert_eq!(f.payload_data().unwrap().as_ref().as_ref(), &[0xffu8, 0xff, 0xff, 0, 0, 0xff, 0xff][..]);
}

#[test]
fn deflate_server_negotiation() {
    let mut d = Deflate::new(Mode::Server);
    let mut bits = Param::new("server_max_window_bits");
    bits.set_value(Some("15"));
    d.configure(&[Param::new("client_max_window_bits"), bits, Param::new("server_no_context_takeover")]).unwrap();
    assert!(d.is_enabled());
    let names: Vec<&str> = d.params().iter().map(|p| p.name()).collect();
    assert_eq!(names, vec!["server_max_window_bits", "server_no_context_takeover"]);
    assert_eq!(d.params()[0].value(), Some("15"));

    let mut d = Deflate::new(Mode::Server);
    let mut bits = Param::new("server_max_window_bits");
    bits.set_value(Some("9"));
    d.configure(&[bits]).unwrap();
    assert!(!d.is_enabled());

    let mut d = Deflate::new(Mode::Server);
    d.configure(&[Param::new("unknown")]).unwrap();
    assert!(!d.is_enabled());
}

#[test]
fn offers_are_parsed() {
    let offers = parse_offers("permessage-deflate; client_max_window_bits, x-webkit; a=1");
    assert_eq!(offers.len(), 2);
    assert_eq!(offers[0].name, "permessage-deflate");
    assert_eq!(offers[0].params.len(), 1);
    assert_eq!(offers[0].params[0].name(), "client_max_window_bits");
    assert_eq!(offers[1].name, "x-webkit");
    assert_eq!(offers[1].params[0].value(), Some("1"));
}

#[test]
fn extensions_are_configured_by_name() {
    let mut es: Vec<Box<dyn Extension>> = vec![Box::new(Deflate::new(Mode::Server))];
    configure_extensions(&mut es, "permessage-deflate; client_max_window_bits").unwrap();
    assert!(es[0].is_enabled());
    let mut es: Vec<Box<dyn Extension>> = vec![Box::new(Deflate::new(Mode::Server))];
    configure_extensions(&mut es, "something-else").unwrap();
    assert!(!es[0].is_enabled());
}

#[test]
fn connection_runs_messages_through_extensions() {

    let mut sending: Vec<Box<dyn Extension>> = vec![Box::new(Deflate::new(Mode::Client))];
    sending[0].configure(&[]).unwrap();
    let mut receiving: Vec<Box<dyn Extension>> = vec![Box::new(Deflate::new(Mode::Server))];
    receiving[0].configure(&[]).unwrap();

    let mut codec = soketto::base::Codec::new();
    assert!(admit_extension(&mut codec, &receiving[0]));
    assert_eq!(codec.reserved_bits(), (true, false, false));

    let message = "Hi there!";
    let mut f = text_frame(message);
    encode_with_extensions(&mut sending, &mut f).unwrap();
    assert!(f.is_rsv1());

    let mut r = Receiver::new(Mode::Server, 1024);
    match r.receive_with(f, &mut receiving) {
        Ok(Received::Message(Incoming::Data(d))) => {
            assert!(d.is_text());
            assert_eq!(d.as_ref(), message.as_bytes());
        }
        _ => panic!("the message is inflated"),
    }

    // Without extensions nothing changes.
    let mut none: Vec<Box<dyn Extension>> = Vec::new();
    let mut g = text_frame("plain");
    decode_with_extensions(&mut none, &mut g).unwrap();
    assert_eq!(g.payload_data().unwrap().as_ref().as_ref(), b"plain");
}

#[test]
fn sync_trailer_is_appended() {
    assert_eq!(with_sync_trailer(&[1, 2, 3]), vec![1, 2, 3, 0, 0, 0xFF, 0xFF]);
    assert_eq!(with_sync_trailer(&[]), vec![0, 0, 0xFF, 0xFF]);
}

#[test]
fn sync_flush_is_stripped() {
    assert_eq!(strip_sync_flush(&[7, 8, 0, 0, 0xFF, 0xFF]).unwrap(), vec![7, 8]);
    assert_eq!(strip_sync_flush(&[0, 0, 0xFF, 0xFF]).unwrap(), Vec::<u8>::new());
    assert!(strip_sync_flush(&[0, 0, 0xFF]).is_err());
    assert!(strip_sync_flush(&[]).is_err());
}

#[test]
fn compressed_payload_ends_without_sync_flush() {
    let mut d = Deflate::new(Mode::Client);
    d.configure(&[]).unwrap();
    let mut f = text_frame("aaaaaaaaaaaaaaaaaaaaaaaaaaaaaaaaaaaaaaaa");
    d.encode(&mut f).unwrap();
    let payload = f.payload_data().unwrap().as_ref().to_vec();
    assert!(!payload.ends_with(&[0, 0, 0xFF, 0xFF]));
    // What the receiver hands the decompressor has the end put back.
    let input = with_sync_trailer(&payload);
    assert!(input.ends_with(&[0, 0, 0xFF, 0xFF]));
    assert_eq!(input.len(), payload.len() + 4);
}

#[test]
fn message_frame_carries_flags_and_message() {
    let f = message_frame(false, (true, false, true), OpCode::Binary, b"abc");
    assert!(!f.is_fin());
    assert!(f.is_rsv1());
    assert!(!f.is_rsv2());
    assert!(f.is_rsv3());
    assert!(!f.is_masked());
    assert_eq!(f.opcode(), OpCode::Binary);
    assert!(!f.payload_data().unwrap().is_text());
    assert_eq!(f.payload_data().unwrap().as_ref().as_ref(), b"abc");
}

#[test]
fn fragmented_compressed_message_is_delivered_whole() {
    let mut sending = Deflate::new(Mode::Client);
    sending.configure(&[]).unwrap();
    let mut whole = text_frame("Hello, fragmented world");
    sending.encode(&mut whole).unwrap();
    let compressed = whole.payload_data().unwrap().as_ref().to_vec();
    let (a, b) = compressed.split_at(compressed.len() / 2);

    let mut receiving: Vec<Box<dyn Extension>> = vec![Box::new(Deflate::new(Mode::Server))];
    receiving[0].configure(&[]).unwrap();
    let mut r = Receiver::new(Mode::Server, 1024);
    let mut first = Frame::new(OpCode::Text);
    first.set_fin(false);
    first.set_rsv1(true);
    first.set_payload_data(Some(Data::Text(BytesMut::from(a))));
    match r.receive_with(first, &mut receiving) {
        Ok(Received::NeedMore) => {}
        _ => panic!("a first fragment asks for more"),
    }
    let mut last = Frame::new(OpCode::Continue);
    last.set_payload_data(Some(Data::Binary(BytesMut::from(b))));
    match r.receive_with(last, &mut receiving) {
        Ok(Received::Message(Incoming::Data(d))) => {
            assert!(d.is_text());
            assert_eq!(d.as_ref(), b"Hello, fragmented world");
        }
        _ => panic!("the last fragment completes the message"),
    }
}

#[test]
fn only_enabled_extensions_reserve_bits() {
    let disabled: Box<dyn Extension> = Box::new(Deflate::new(Mode::Server));
    let mut codec = soketto::base::Codec::new();
    assert!(!admit_extension(&mut codec, &disabled));
    assert_eq!(codec.reserved_bits(), (false, false, false));
    let mut enabled: Box<dyn Extension> = Box::new(Deflate::new(Mode::Server));
    enabled.configure(&[]).unwrap();
    assert_eq!(enabled.reserved_bits(), (true, false, false));
    assert!(admit_extension(&mut codec, &enabled));
    assert_eq!(codec.reserved_bits(), (true, false, false));
}
