use bytes::BytesMut;
use soketto::base::{Data, Frame, OpCode};
use soketto::connection::{close_answer, Error, Mode, Received, Receiver};
use soketto::data::{ByteSlice125, Incoming};
use soketto::frame::WebSocket;
use soketto::frame::base::{Frame as PipeFrame, Header, OpCode as PipeOpCode};
use soketto::proto::close::{close_response, Close, CloseAction, ReasonCode};
use soketto::proto::fragmented::{FragmentAction, FragmentError, Fragmented};
use soketto::proto::pingpong::{PingAction, PingPong};
use std::convert::TryFrom;

fn frame(fin: bool, opcode: OpCode, data: &[u8], text: bool) -> Frame {
    let mut f = Frame::new(opcode);
    f.set_fin(fin);
    let bytes = BytesMut::from(data);
    f.set_payload_data(Some(if text { Data::Text(bytes) } else { Data::Binary(bytes) }));
    f
}

#[test]
fn receiver_concatenates_fragments() {
    let mut r = Receiver::new(Mode::Server, 1024);
    assert!(matches!(r.receive(frame(false, OpCode::Text, b"hel", true)), Ok(Received::NeedMore)));
    assert!(matches!(r.receive(frame(false, OpCode::Continue, b"l", false)), Ok(Received::NeedMore)));
    match r.receive(frame(true, OpCode::Continue, b"o", false)) {
        Ok(Received::Message(Incoming::Data(d))) => {
            assert!(d.is_text());
            assert_eq!(d.as_ref(), b"hello");
        }
        _ => panic!("the message is complete"),
    }
}

#[test]
fn receiver_answers_control_frames() {
    let mut r = Receiver::new(Mode::Client, 1024);
    match r.receive(frame(true, OpCode::Ping, b"abc", false)) {
        Ok(Received::AnswerPing(d)) => assert_eq!(d, b"abc".to_vec()),
        _ => panic!("a ping is answered"),
    }
    match r.receive(frame(true, OpCode::Pong, b"xyz", false)) {
        Ok(Received::Message(Incoming::Pong(d))) => assert_eq!(d.as_ref(), b"xyz"),
        _ => panic!("a pong is handed out"),
    }
    match r.receive(frame(true, OpCode::Close, &[0x03, 0xE8, b'b', b'y', b'e'], false)) {
        Ok(Received::AnswerClose(Some(1000))) => {}
        _ => panic!("a close is answered with its code"),
    }
    assert!(matches!(r.receive(frame(true, OpCode::Text, b"late", true)), Err(Error::Closed)));
}

#[test]
fn receiver_refusals() {
    let mut r = Receiver::new(Mode::Server, 4);
    assert!(matches!(r.receive(frame(true, OpCode::Continue, b"x", false)), Err(Error::UnexpectedOpCode(OpCode::Continue))));
    // The refused frame's payload stays gathered, as the message it came with.
    assert!(matches!(
        r.receive(frame(true, OpCode::Binary, b"abcd", false)),
        Err(Error::MessageTooLarge { current: 5, maximum: 4 })
    ));
    let mut r = Receiver::new(Mode::Server, 4);
    assert!(matches!(
        r.receive(frame(true, OpCode::Binary, b"too long", false)),
        Err(Error::MessageTooLarge { current: 8, maximum: 4 })
    ));
    let mut r = Receiver::new(Mode::Server, 16);
    assert!(matches!(r.receive(frame(true, OpCode::Text, &[0xff, 0xfe], true)), Err(Error::Utf8)));
}

#[test]
fn close_answer_codes() {
    assert!(matches!(close_answer(&[]), Ok((_, None))));
    assert!(matches!(close_answer(&[0x03, 0xE9]), Ok((_, Some(1001)))));
    // 1005 may not be sent: protocol error.
    assert!(matches!(close_answer(&[0x03, 0xED]), Ok((_, Some(1002)))));
    assert!(matches!(close_answer(&[0x0F, 0xA0]), Ok((_, Some(4000)))));
    assert!(matches!(close_answer(&[0x03, 0xE8, 0xff]), Err(Error::Utf8)));
}

#[test]
fn reason_codes_round_trip() {
    assert!(ReasonCode::from(1000u16) == ReasonCode::Normal);
    assert!(ReasonCode::from(3500u16) == ReasonCode::AppSpecific);
    assert!(ReasonCode::from(4500u16) == ReasonCode::Undefined);
    assert!(ReasonCode::from(500u16) == ReasonCode::Unused);
    assert_eq!(u16::from(ReasonCode::Normal), 1000);
    assert_eq!(u16::from(ReasonCode::from(1008u16)), 1008);
}

#[test]
fn close_reply_payloads() {
    // No data: an empty reply.
    assert!(close_response(&None).is_empty());
    // Too short for a code: a protocol error.
    assert_eq!(&close_response(&Some(vec![1]))[..2], &[0x03, 0xEA]);
    // A valid code with a text reason is echoed.
    let data = vec![0x03, 0xE9, b'o', b'k'];
    assert_eq!(close_response(&Some(data.clone())), data);
}

fn pipe_frame(fin: bool, opcode: PipeOpCode, data: &[u8]) -> WebSocket {
    let mut header = Header::new(opcode);
    header.set_fin(fin);
    let mut f = PipeFrame::from(header);
    f.set_application_data(data.to_vec());
    WebSocket::Base(f)
}

#[test]
fn close_middleware_answers_close() {
    let mut close_with_code = Close::new(());
    match close_with_code.on_item(Some(pipe_frame(true, PipeOpCode::Close, &[0x03, 0xE8]))) {
        CloseAction::Reply(WebSocket::Base(f)) => assert_eq!(f.application_data(), &[0x03, 0xE8]),
        _ => panic!("a close with a code is echoed"),
    }
    let mut close = Close::new(());
    assert!(matches!(close.on_item(Some(pipe_frame(true, PipeOpCode::Text, b"x"))), CloseAction::Forward(Some(_))));
    match close.on_item(Some(pipe_frame(true, PipeOpCode::Close, &[]))) {
        CloseAction::Reply(WebSocket::Base(f)) => {
            assert!(f.header().opcode() == PipeOpCode::Close);
            // A close frame without data is answered without data.
            assert!(f.application_data().is_empty());
        }
        _ => panic!("a close is answered"),
    }
}

#[test]
fn fragmented_middleware_gathers_a_message() {
    let mut m = Fragmented::new(());
    assert!(matches!(m.on_item(Some(pipe_frame(false, PipeOpCode::Text, b"ab"))), FragmentAction::Absorbed));
    assert!(matches!(m.on_item(Some(pipe_frame(false, PipeOpCode::Continue, b"c"))), FragmentAction::Absorbed));
    match m.on_item(Some(pipe_frame(true, PipeOpCode::Continue, b"d"))) {
        FragmentAction::Send(WebSocket::Base(f)) => {
            assert!(f.header().is_fin());
            assert!(f.header().opcode() == PipeOpCode::Text);
            assert_eq!(f.application_data(), b"abcd");
        }
        _ => panic!("the message is sent on"),
    }
    assert!(matches!(
        m.on_item(Some(pipe_frame(true, PipeOpCode::Continue, b"e"))),
        FragmentAction::Fail(FragmentError::InvalidFragmentComplete)
    ));
}

#[test]
fn pingpong_answers_pings_in_order() {
    let mut p = PingPong::new(());
    assert!(p.ready_to_send());
    assert!(matches!(p.on_item(Some(pipe_frame(true, PipeOpCode::Ping, b"1"))), PingAction::Queued));
    assert!(matches!(p.on_item(Some(pipe_frame(true, PipeOpCode::Ping, b"2"))), PingAction::Queued));
    assert!(!p.ready_to_send());
    match p.next_pong() {
        Some(WebSocket::Base(f)) => {
            assert!(f.header().opcode() == PipeOpCode::Pong);
            assert_eq!(f.application_data(), b"1");
        }
        _ => panic!("the first ping is answered first"),
    }
    assert!(matches!(p.next_pong(), Some(_)));
    assert!(p.next_pong().is_none());
    assert!(p.ready_to_send());
}

#[test]
fn byte_slices_of_control_frames() {
    let small = [7u8; 125];
    assert_eq!(ByteSlice125::try_from(&small[..]).unwrap().as_ref().len(), 125);
    let big = [7u8; 126];
    assert!(ByteSlice125::try_from(&big[..]).is_err());
}

#[test]
fn messages_stay_within_the_maximum() {
    let mut r = Receiver::new(Mode::Server, 4);
    assert!(matches!(r.receive(frame(false, OpCode::Binary, b"ab", false)), Ok(Received::NeedMore)));
    match r.receive(frame(true, OpCode::Continue, b"cd", false)) {
        Ok(Received::Message(Incoming::Data(d))) => assert_eq!(d.as_ref(), b"abcd"),
        _ => panic!("four bytes fit"),
    }
    assert!(matches!(r.receive(frame(false, OpCode::Binary, b"abc", false)), Ok(Received::NeedMore)));
    assert!(matches!(
        r.receive(frame(true, OpCode::Continue, b"de", false)),
        Err(Error::MessageTooLarge { current: 5, maximum: 4 })
    ));
}
