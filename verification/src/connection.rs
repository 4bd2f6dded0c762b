//! A persistent websocket connection after the handshake phase: what the
//! receiving half decides on each frame it reads.
//!
//! Reading frames from the socket and writing the answers is the caller's
//! part; `Receiver::receive` takes one decoded frame and says what to do.

pub mod data;

use vstd::prelude::*;
use vstd::utf8::valid_utf8;
use crate::base::{self, spec_is_control, Data as FrameData, Frame, FrameSpec, OpCode};
use crate::extension::Extension;
use crate::buffer::{bytes_from_slice, bytes_into_vec};
use crate::data::{Data, Incoming};
use crate::util::{append_bytes, is_utf8};

verus! {

/// Accumulated max. size of a complete message.
pub const MAX_MESSAGE_SIZE: usize = 268435456;

/// Is the connection used by a client or server?
#[derive(Copy, Clone, Debug, PartialEq, Eq, Structural)]
pub enum Mode {
    /// Client-side of a connection (implies masking of payload data).
    Client,
    /// Server-side of a connection.
    Server,
}

impl Mode {
    /// Is this the client side?
    pub fn is_client(self) -> (r: bool)
        ensures
            r == (self == Mode::Client),
    {
        if let Mode::Client = self {
            true
        } else {
            false
        }
    }

    /// Is this the server side?
    pub fn is_server(self) -> (r: bool)
        ensures
            r == (self == Mode::Server),
    {
        !self.is_client()
    }
}

/// Errors which may occur when sending or receiving messages.
#[derive(Debug, PartialEq, Eq)]
pub enum Error {
    /// The base codec errored.
    Codec(base::Error),
    /// An extension produced an error while encoding or decoding.
    Extension,
    /// An unexpected opcode was encountered.
    UnexpectedOpCode(OpCode),
    /// A close reason, or a text message, was not correctly UTF-8 encoded.
    Utf8,
    /// The total message payload data size exceeds the configured maximum.
    MessageTooLarge { current: usize, maximum: usize },
    /// The connection is closed.
    Closed,
}

impl From<base::Error> for Error {
    fn from(e: base::Error) -> (r: Error) {
        Error::Codec(e)
    }
}

impl vstd::std_specs::convert::FromSpecImpl<base::Error> for Error {
    open spec fn obeys_from_spec() -> bool {
        true
    }

    open spec fn from_spec(e: base::Error) -> Error {
        Error::Codec(e)
    }
}

// Close answers //////////////////////////////////////////////////////////////

/// Close codes a peer may send: 1000 to 1003, 1007 to 1011, 1015, and 3000
/// to 4999.
pub open spec fn acceptable_close_code(code: u16) -> bool {
    (1000 <= code <= 1003) || (1007 <= code <= 1011) || code == 1015 || (3000 <= code <= 4999)
}

/// The close code at the start of a close payload of at least two bytes.
pub open spec fn close_code_of(data: Seq<u8>) -> u16 {
    ((data[0] as int) * 256 + data[1] as int) as u16
}

/// The code to answer a close frame with, given its payload: none if it
/// holds no code; its code if the peer may send it, else 1002 (protocol
/// error); an error if the reason after the code is not UTF-8.
pub open spec fn close_answer_code(data: Seq<u8>) -> Result<Option<u16>, Error> {
    if data.len() < 2 {
        Ok(None)
    } else if !valid_utf8(data.skip(2)) {
        Err(Error::Utf8)
    } else if acceptable_close_code(close_code_of(data)) {
        Ok(Some(close_code_of(data)))
    } else {
        Ok(Some(1002))
    }
}

/// A close frame with the `fin` flag, no other flag and no payload.
pub open spec fn fresh_close_frame() -> FrameSpec {
    FrameSpec {
        fin: true,
        rsv1: false,
        rsv2: false,
        rsv3: false,
        masked: false,
        opcode: OpCode::Close,
        mask: 0,
        payload: None,
    }
}

/// Create a close frame based on the given data: the frame to send back,
/// and the close code to put in it.
pub fn close_answer(data: &[u8]) -> (r: Result<(Frame, Option<u16>), Error>)
    ensures
        match close_answer_code(data@) {
            Ok(c) => r matches Ok((f, c2)) && c2 == c && f@ == fresh_close_frame(),
            Err(e) => r == Err::<(Frame, Option<u16>), Error>(e),
        },
{
    let answer = Frame::new(OpCode::Close);
    if data.len() < 2 {
        return Ok((answer, None));
    }
    let reason = data.split_at(2).1;
    assert(reason@ =~= data@.skip(2));
    if !is_utf8(reason) {
        return Err(Error::Utf8);
    }
    let code: u16 = (data[0] as u16) * 256 + data[1] as u16;
    if (1000 <= code && code <= 1003) || (1007 <= code && code <= 1011) || code == 1015 || (3000
        <= code && code <= 4999) {
        Ok((answer, Some(code)))
    } else {
        Ok((answer, Some(1002)))
    }
}

// The receiving half /////////////////////////////////////////////////////////

/// What the receiver decides on a frame.
#[derive(Debug)]
pub enum Received {
    /// The frame belongs to a message still in progress: read on.
    NeedMore,
    /// A PING came: answer with a PONG carrying this data, flush, read on.
    AnswerPing(Vec<u8>),
    /// A close frame came: answer with a close frame carrying this code (if
    /// any), flush and close the writer. The connection is closed.
    AnswerClose(Option<u16>),
    /// A whole message, or the data of a PONG.
    Message(Incoming),
}

/// The model of what the receiver decides.
pub enum ReceivedModel {
    NeedMore,
    AnswerPing(Seq<u8>),
    AnswerClose(Option<u16>),
    /// Whether it is a PONG, whether it is text, and the bytes.
    Message(bool, bool, Seq<u8>),
}

/// The model of a decision.
pub open spec fn received_view(r: Received) -> ReceivedModel {
    match r {
        Received::NeedMore => ReceivedModel::NeedMore,
        Received::AnswerPing(d) => ReceivedModel::AnswerPing(d@),
        Received::AnswerClose(c) => ReceivedModel::AnswerClose(c),
        Received::Message(Incoming::Data(d)) => ReceivedModel::Message(false, d@.0, d@.1),
        Received::Message(Incoming::Pong(d)) => ReceivedModel::Message(true, d@.0, d@.1),
    }
}

/// The model of a result of `receive`.
pub open spec fn receive_view(r: Result<Received, Error>) -> Result<ReceivedModel, Error> {
    match r {
        Ok(x) => Ok(received_view(x)),
        Err(e) => Err(e),
    }
}

/// The state of the receiving half: whether the connection is closed, the
/// opcode of the first fragment of a fragmented message in progress, the
/// payload gathered for the message so far, and the maximum message size.
pub struct ReceiverState {
    pub is_closed: bool,
    pub first_fragment_opcode: Option<OpCode>,
    pub message: Seq<u8>,
    pub max_message_size: nat,
}

/// The payload bytes of a frame model (none counts as empty).
pub open spec fn payload_bytes(f: FrameSpec) -> Seq<u8> {
    match f.payload {
        Some((_, b)) => b,
        None => Seq::empty(),
    }
}

/// The size reported when a message grows too large: the size it would
/// have, as far as a `usize` holds it.
pub open spec fn grown_size(a: nat, b: nat) -> usize {
    if a + b > usize::MAX {
        usize::MAX
    } else {
        (a + b) as usize
    }
}

/// A whole message is handed out, with the opcode of its first frame: text
/// only if it is UTF-8. Either way the gathered payload is taken.
pub open spec fn deliver(s: ReceiverState, oc: OpCode, m: Seq<u8>) -> (
    Result<ReceivedModel, Error>,
    ReceiverState,
) {
    let s1 = ReceiverState { first_fragment_opcode: None, message: Seq::empty(), ..s };
    if oc == OpCode::Text {
        if valid_utf8(m) {
            (Ok(ReceivedModel::Message(false, true, m)), s1)
        } else {
            (Err(Error::Utf8), s1)
        }
    } else {
        (Ok(ReceivedModel::Message(false, false, m)), s1)
    }
}

/// What the receiver does with a data frame whose payload fits: the
/// payload is added to the message, and then the `fin` flag and the opcode
/// decide whether the message goes on, ends, or has the frame out of place.
pub open spec fn data_step(s: ReceiverState, fin: bool, oc: OpCode, data: Seq<u8>) -> (
    Result<ReceivedModel, Error>,
    ReceiverState,
) {
    let m = s.message + data;
    let s1 = ReceiverState { message: m, ..s };
    if !fin && oc == OpCode::Continue {
        if s.first_fragment_opcode is None {
            (Err(Error::UnexpectedOpCode(OpCode::Continue)), s1)
        } else {
            (Ok(ReceivedModel::NeedMore), s1)
        }
    } else if !fin {
        if s.first_fragment_opcode is Some {
            (Err(Error::UnexpectedOpCode(oc)), s1)
        } else {
            (Ok(ReceivedModel::NeedMore), ReceiverState { first_fragment_opcode: Some(oc), ..s1 })
        }
    } else if oc == OpCode::Continue {
        match s.first_fragment_opcode {
            Some(first) => deliver(s1, first, m),
            None => (Err(Error::UnexpectedOpCode(OpCode::Continue)), s1),
        }
    } else {
        if s.first_fragment_opcode is Some {
            (Err(Error::UnexpectedOpCode(oc)), s1)
        } else {
            deliver(s1, oc, m)
        }
    }
}

/// What the receiver does with a frame: nothing on a closed connection;
/// a PONG is handed out, a PING answered, a close frame answered (and the
/// connection closed); a data frame that would make the message too large
/// is refused; other data frames go to `data_step`.
pub open spec fn receive_step(s: ReceiverState, f: FrameSpec) -> (
    Result<ReceivedModel, Error>,
    ReceiverState,
) {
    let data = payload_bytes(f);
    if s.is_closed {
        (Err(Error::Closed), s)
    } else if spec_is_control(f.opcode) {
        if f.opcode == OpCode::Pong {
            (Ok(ReceivedModel::Message(true, false, data)), s)
        } else if f.opcode == OpCode::Ping {
            (Ok(ReceivedModel::AnswerPing(data)), s)
        } else {
            let s1 = ReceiverState { is_closed: true, ..s };
            match close_answer_code(data) {
                Ok(c) => (Ok(ReceivedModel::AnswerClose(c)), s1),
                Err(e) => (Err(e), s1),
            }
        }
    } else if data.len() + s.message.len() > s.max_message_size {
        (
            Err(
                Error::MessageTooLarge {
                    current: grown_size(s.message.len(), data.len()),
                    maximum: s.max_message_size as usize,
                },
            ),
            s,
        )
    } else {
        data_step(s, f.fin, f.opcode, data)
    }
}

/// The frame is a data frame that completes a message or starts a
/// fragmented one, on an open connection, within the maximum message size:
/// the frames on which the extensions' decoders run.
pub open spec fn decodes_message(s: ReceiverState, f: FrameSpec) -> bool {
    &&& !s.is_closed
    &&& !spec_is_control(f.opcode)
    &&& payload_bytes(f).len() + s.message.len() <= s.max_message_size
    &&& {
        ||| (!f.fin && f.opcode != OpCode::Continue && s.first_fragment_opcode is None)
        ||| (f.fin && f.opcode == OpCode::Continue && s.first_fragment_opcode is Some)
        ||| (f.fin && f.opcode != OpCode::Continue && s.first_fragment_opcode is None)
    }
}

/// The message is handed out as `deliver` does it, with the payload `m`
/// and the opcode `oc` that the decoders left, from the state `s1` the
/// frame led to; a final fragment keeps the opcode of the first one.
pub open spec fn delivered(
    s1: ReceiverState,
    f: FrameSpec,
    m: Seq<u8>,
    oc: OpCode,
    r: Result<ReceivedModel, Error>,
    s2: ReceiverState,
) -> bool {
    &&& f.opcode == OpCode::Continue ==> s1.first_fragment_opcode == Some(oc)
    &&& (r, s2) == deliver(ReceiverState { message: m, ..s1 }, oc, m)
}

/// What the receiver answers, with extensions, on a frame that
/// `decodes_message`: the payload is added to the message; the first
/// fragment of a message records its opcode and is answered with
/// `NeedMore`; a final fragment or a whole message is delivered as the
/// decoders left it. Where a decoder fails the answer is
/// `Error::Extension`, the message being what the decoders left.
pub open spec fn decoded_answer(
    s: ReceiverState,
    f: FrameSpec,
    r: Result<ReceivedModel, Error>,
    s2: ReceiverState,
) -> bool {
    let s1 = ReceiverState { message: s.message + payload_bytes(f), ..s };
    if !f.fin {
        &&& s2 == ReceiverState {
            first_fragment_opcode: Some(f.opcode),
            message: s2.message,
            ..s1
        }
        &&& r == Ok::<ReceivedModel, Error>(ReceivedModel::NeedMore) || r == Err::<
            ReceivedModel,
            Error,
        >(Error::Extension)
    } else {
        ||| r == Err::<ReceivedModel, Error>(Error::Extension) && s2 == ReceiverState {
            message: s2.message,
            ..s1
        }
        ||| exists|m: Seq<u8>, oc: OpCode| #[trigger] delivered(s1, f, m, oc, r, s2)
    }
}

/// The frame on which the decoders of the extensions run for a message:
/// the flags and the opcode given, no mask, and the message as binary
/// payload.
pub fn message_frame(fin: bool, rsv: (bool, bool, bool), opcode: OpCode, message: &[u8]) -> (f:
    Frame)
    ensures
        f@ == (FrameSpec {
            fin,
            rsv1: rsv.0,
            rsv2: rsv.1,
            rsv3: rsv.2,
            masked: false,
            opcode,
            mask: 0,
            payload: Some((false, message@)),
        }),
{
    let mut header = Frame::new(opcode);
    header.set_fin(fin);
    header.set_rsv1(rsv.0);
    header.set_rsv2(rsv.1);
    header.set_rsv3(rsv.2);
    header.set_payload_data(Some(FrameData::Binary(bytes_from_slice(message))));
    header
}

/// Run the decoders of the extensions on a frame, in order; the first
/// error stops them.
pub fn decode_with_extensions(extensions: &mut Vec<Box<dyn Extension>>, f: &mut Frame) -> (r: Result<
    (),
    Error,
>)
    ensures
        final(extensions)@.len() == old(extensions)@.len(),
        old(extensions)@.len() == 0 ==> r is Ok && *final(f) == *old(f),
        r is Ok || r == Err::<(), Error>(Error::Extension),
{
    let mut i: usize = 0;
    while i < extensions.len()
        invariant
            i <= extensions@.len(),
            extensions@.len() == old(extensions)@.len(),
            old(extensions)@.len() == 0 ==> *f == *old(f),
        decreases extensions@.len() - i,
    {
        match extensions[i].decode(f) {
            Ok(()) => {},
            Err(_) => return Err(Error::Extension),
        }
        i = i + 1;
    }
    Ok(())
}

/// Run the encoders of the extensions on a frame, in order; the first
/// error stops them.
pub fn encode_with_extensions(extensions: &mut Vec<Box<dyn Extension>>, f: &mut Frame) -> (r: Result<
    (),
    Error,
>)
    ensures
        final(extensions)@.len() == old(extensions)@.len(),
        old(extensions)@.len() == 0 ==> r is Ok && *final(f) == *old(f),
        r is Ok || r == Err::<(), Error>(Error::Extension),
{
    let mut i: usize = 0;
    while i < extensions.len()
        invariant
            i <= extensions@.len(),
            extensions@.len() == old(extensions)@.len(),
            old(extensions)@.len() == 0 ==> *f == *old(f),
        decreases extensions@.len() - i,
    {
        match extensions[i].encode(f) {
            Ok(()) => {},
            Err(_) => return Err(Error::Extension),
        }
        i = i + 1;
    }
    Ok(())
}

/// Take on an extension if it is enabled: the codec then reserves the
/// bits the extension uses. Whether it was taken on is handed back; the
/// caller keeps the extensions taken on, in order.
pub fn admit_extension(codec: &mut base::Codec, e: &Box<dyn Extension>) -> (r: bool)
    requires
        old(codec).wf(),
    ensures
        r == e.spec_enabled(),
        !r ==> *final(codec) == *old(codec),
        r ==> base::allowed_rsv_bits(final(codec)@) == (
            base::allowed_rsv_bits(old(codec)@).0 || e.spec_reserved_bits().0,
            base::allowed_rsv_bits(old(codec)@).1 || e.spec_reserved_bits().1,
            base::allowed_rsv_bits(old(codec)@).2 || e.spec_reserved_bits().2,
        ),
        final(codec).wf(),
        final(codec)@.max_data_size == old(codec)@.max_data_size,
        final(codec)@.reserved_opcodes == old(codec)@.reserved_opcodes,
        final(codec).pending() == old(codec).pending(),
        final(codec).stage() == old(codec).stage(),
        final(codec).is_failed() == old(codec).is_failed(),
{
    if e.is_enabled() {
        codec.add_reserved_bits(e.reserved_bits());
        true
    } else {
        false
    }
}

/// The receiving half of a connection.
#[derive(Debug)]
pub struct Receiver {
    mode: Mode,
    /// Message buffer (concatenated fragment payloads).
    message: Vec<u8>,
    first_fragment_opcode: Option<OpCode>,
    max_message_size: usize,
    is_closed: bool,
}

impl Receiver {
    /// The model of the receiver's state.
    pub closed spec fn state(&self) -> ReceiverState {
        ReceiverState {
            is_closed: self.is_closed,
            first_fragment_opcode: self.first_fragment_opcode,
            message: self.message@,
            max_message_size: self.max_message_size as nat,
        }
    }

    /// The side of the connection.
    pub closed spec fn mode_spec(&self) -> Mode {
        self.mode
    }

    /// A receiver on an open connection, with no message in progress.
    pub fn new(mode: Mode, max_message_size: usize) -> (r: Receiver)
        ensures
            r.mode_spec() == mode,
            r.state() == (ReceiverState {
                is_closed: false,
                first_fragment_opcode: None,
                message: Seq::empty(),
                max_message_size: max_message_size as nat,
            }),
    {
        Receiver { mode, message: Vec::new(), first_fragment_opcode: None, max_message_size, is_closed: false }
    }

    /// Set the maximum size of a complete message.
    pub fn set_max_message_size(&mut self, max: usize)
        ensures
            final(self).mode_spec() == old(self).mode_spec(),
            final(self).state() == (ReceiverState {
                max_message_size: max as nat,
                ..old(self).state()
            }),
    {
        self.max_message_size = max;
    }

    /// Hand out the gathered message, with the opcode of its first frame.
    fn take_message(&mut self, oc: OpCode) -> (r: Result<Received, Error>)
        ensures
            receive_view(r) == deliver(old(self).state(), oc, old(self).state().message).0,
            final(self).state() == deliver(old(self).state(), oc, old(self).state().message).1,
            final(self).mode_spec() == old(self).mode_spec(),
    {
        let mut m = Vec::new();
        std::mem::swap(&mut m, &mut self.message);
        self.first_fragment_opcode = None;
        let bytes = bytes_from_slice(m.as_slice());
        if oc == OpCode::Text {
            if !is_utf8(m.as_slice()) {
                return Err(Error::Utf8);
            }
            Ok(Received::Message(Incoming::Data(Data::text(bytes))))
        } else {
            Ok(Received::Message(Incoming::Data(Data::binary(bytes))))
        }
    }

    /// Decide on the next frame read from the connection (as
    /// `receive_step` describes it). Fragmented messages are concatenated
    /// and handed out as one block.
    pub fn receive(&mut self, frame: Frame) -> (r: Result<Received, Error>)
        ensures
            final(self).mode_spec() == old(self).mode_spec(),
            receive_view(r) == receive_step(old(self).state(), frame@).0,
            final(self).state() == receive_step(old(self).state(), frame@).1,
    {
        let mut none: Vec<Box<dyn Extension>> = Vec::new();
        self.receive_with(frame, &mut none)
    }

    /// Run the decoders of the extensions on the message gathered so far,
    /// under a header with the flags and the opcode given; the message is
    /// what the decoders leave, and the opcode they leave is handed back.
    /// Without extensions nothing happens.
    fn decode_message(
        &mut self,
        extensions: &mut Vec<Box<dyn Extension>>,
        fin: bool,
        rsv: (bool, bool, bool),
        opcode: OpCode,
    ) -> (r: Result<OpCode, Error>)
        ensures
            final(extensions)@.len() == old(extensions)@.len(),
            final(self).mode_spec() == old(self).mode_spec(),
            final(self).state() == (ReceiverState {
                message: final(self).state().message,
                ..old(self).state()
            }),
            old(extensions)@.len() == 0 ==> r == Ok::<OpCode, Error>(opcode) && final(self).state()
                == old(self).state(),
            r is Ok || r == Err::<OpCode, Error>(Error::Extension),
    {
        if extensions.len() == 0 {
            return Ok(opcode);
        }
        let mut m = Vec::new();
        std::mem::swap(&mut m, &mut self.message);
        let mut header = message_frame(fin, rsv, opcode, m.as_slice());
        let result = decode_with_extensions(extensions, &mut header);
        let oc = header.opcode();
        self.message = match header.into_payload_data() {
            Some(d) => bytes_into_vec(d.into_bytes()),
            None => Vec::new(),
        };
        match result {
            Ok(()) => Ok(oc),
            Err(e) => Err(e),
        }
    }

    /// Decide on the next frame read from the connection, as `receive`
    /// does, running the decoders of the extensions on a message when it
    /// starts (the first fragment) and when it is complete (see
    /// `decodes_message`); without extensions, or on other frames, this is
    /// `receive_step`.
    pub fn receive_with(&mut self, frame: Frame, extensions: &mut Vec<Box<dyn Extension>>) -> (r:
        Result<Received, Error>)
        ensures
            final(self).mode_spec() == old(self).mode_spec(),
            final(extensions)@.len() == old(extensions)@.len(),
            old(extensions)@.len() == 0 || !decodes_message(old(self).state(), frame@) ==> {
                &&& receive_view(r) == receive_step(old(self).state(), frame@).0
                &&& final(self).state() == receive_step(old(self).state(), frame@).1
            },
            decodes_message(old(self).state(), frame@) ==> !final(self).state().is_closed,
            old(extensions)@.len() > 0 && decodes_message(old(self).state(), frame@)
                ==> decoded_answer(old(self).state(), frame@, receive_view(r), final(self).state()),
            final(self).state().max_message_size == old(self).state().max_message_size,
    {
        if self.is_closed {
            return Err(Error::Closed);
        }
        let fin = frame.is_fin();
        let opcode = frame.opcode();
        let rsv = (frame.is_rsv1(), frame.is_rsv2(), frame.is_rsv3());
        let ghost f = frame@;
        let data: Vec<u8> = match frame.into_payload_data() {
            Some(d) => bytes_into_vec(d.into_bytes()),
            None => Vec::new(),
        };
        assert(data@ == payload_bytes(f));

        // Handle control frames.
        if opcode == OpCode::Close || opcode == OpCode::Ping || opcode == OpCode::Pong {
            if opcode == OpCode::Pong {
                return Ok(Received::Message(Incoming::Pong(Data::binary(bytes_from_slice(data.as_slice())))));
            }
            if opcode == OpCode::Ping {
                return Ok(Received::AnswerPing(data));
            }
            self.is_closed = true;
            return match close_answer(data.as_slice()) {
                Ok((_, code)) => Ok(Received::AnswerClose(code)),
                Err(e) => Err(e),
            };
        }

        // Check if total message does not exceed maximum.
        if data.len() > self.max_message_size || self.message.len() > self.max_message_size
            - data.len() {
            return Err(
                Error::MessageTooLarge {
                    current: self.message.len().saturating_add(data.len()),
                    maximum: self.max_message_size,
                },
            );
        }
        append_bytes(&mut self.message, data.as_slice());
        let ghost s1 = self.state();

        if !fin && opcode == OpCode::Continue {
            // Intermediate message fragment.
            if self.first_fragment_opcode.is_none() {
                return Err(Error::UnexpectedOpCode(OpCode::Continue));
            }
            Ok(Received::NeedMore)
        } else if !fin {
            // Initial message fragment.
            if self.first_fragment_opcode.is_some() {
                return Err(Error::UnexpectedOpCode(opcode));
            }
            self.first_fragment_opcode = Some(opcode);
            match self.decode_message(extensions, fin, rsv, opcode) {
                Ok(_) => Ok(Received::NeedMore),
                Err(e) => Err(e),
            }
        } else if opcode == OpCode::Continue {
            // Last message fragment.
            match self.first_fragment_opcode {
                Some(oc) => match self.decode_message(extensions, fin, rsv, opcode) {
                    Ok(_) => {
                        let ghost mid = self.state();
                        let r = self.take_message(oc);
                        assert(delivered(s1, f, mid.message, oc, receive_view(r), self.state()));
                        r
                    },
                    Err(e) => Err(e),
                },
                None => Err(Error::UnexpectedOpCode(OpCode::Continue)),
            }
        } else {
            // Regular non-fragmented message.
            if self.first_fragment_opcode.is_some() {
                return Err(Error::UnexpectedOpCode(opcode));
            }
            match self.decode_message(extensions, fin, rsv, opcode) {
                Ok(oc) => {
                    let ghost mid = self.state();
                    let r = self.take_message(oc);
                    assert(delivered(s1, f, mid.message, oc, receive_view(r), self.state()));
                    r
                },
                Err(e) => Err(e),
            }
        }
    }
}

// Laws ///////////////////////////////////////////////////////////////////////

/// The receiver run over a sequence of frames: what it decides on each, and
/// the state after the last.
pub open spec fn receive_run(s: ReceiverState, frames: Seq<FrameSpec>) -> (
    Seq<Result<ReceivedModel, Error>>,
    ReceiverState,
)
    decreases frames.len(),
{
    if frames.len() == 0 {
        (Seq::empty(), s)
    } else {
        let (r, s1) = receive_step(s, frames[0]);
        let (rs, s2) = receive_run(s1, frames.drop_first());
        (seq![r] + rs, s2)
    }
}

/// The payloads of a sequence of frames, one after the other.
pub open spec fn payloads(frames: Seq<FrameSpec>) -> Seq<u8>
    decreases frames.len(),
{
    if frames.len() == 0 {
        Seq::empty()
    } else {
        payload_bytes(frames[0]) + payloads(frames.drop_first())
    }
}

/// `n` decisions to read on.
pub open spec fn need_more(n: nat) -> Seq<Result<ReceivedModel, Error>> {
    Seq::new(n, |i: int| Ok(ReceivedModel::NeedMore))
}

/// A middle fragment of a data message.
pub open spec fn is_middle_fragment(f: FrameSpec) -> bool {
    !f.fin && f.opcode == OpCode::Continue
}

proof fn lemma_receive_tail(s: ReceiverState, middles: Seq<FrameSpec>, last: FrameSpec)
    requires
        !s.is_closed,
        s.first_fragment_opcode is Some,
        forall|i: int| 0 <= i < middles.len() ==> is_middle_fragment(#[trigger] middles[i]),
        last.fin && last.opcode == OpCode::Continue,
        s.message.len() + payloads(middles).len() + payload_bytes(last).len()
            <= s.max_message_size,
    ensures
        receive_run(s, middles.push(last)) == ({
            let m = s.message + payloads(middles) + payload_bytes(last);
            let d = deliver(
                ReceiverState { message: m, ..s },
                s.first_fragment_opcode->0,
                m,
            );
            (need_more(middles.len()).push(d.0), d.1)
        }),
    decreases middles.len(),
{
    let frames = middles.push(last);
    if middles.len() == 0 {
        assert(payloads(middles) =~= Seq::<u8>::empty());
        assert(s.message + payloads(middles) =~= s.message);
        assert(frames[0] == last);
        assert(frames.drop_first() =~= Seq::<FrameSpec>::empty());
        let m = s.message + payload_bytes(last);
        let d = deliver(ReceiverState { message: m, ..s }, s.first_fragment_opcode->0, m);
        assert(receive_run(d.1, frames.drop_first()) == (
            Seq::<Result<ReceivedModel, Error>>::empty(),
            d.1,
        ));
        assert(seq![d.0] + Seq::<Result<ReceivedModel, Error>>::empty() =~= need_more(0).push(
            d.0,
        ));
    } else {
        let f0 = middles[0];
        assert(is_middle_fragment(f0));
        let rest = middles.drop_first();
        assert(payloads(middles) == payload_bytes(f0) + payloads(rest));
        let s1 = ReceiverState { message: s.message + payload_bytes(f0), ..s };
        assert forall|i: int| 0 <= i < rest.len() implies is_middle_fragment(#[trigger] rest[i]) by {
            assert(rest[i] == middles[i + 1]);
        }
        lemma_receive_tail(s1, rest, last);
        assert(frames[0] == f0);
        assert(frames.drop_first() =~= rest.push(last));
        assert(s1.message + payloads(rest) + payload_bytes(last) =~= s.message + payloads(middles)
            + payload_bytes(last));
        let m = s.message + payloads(middles) + payload_bytes(last);
        let d = deliver(ReceiverState { message: m, ..s }, s.first_fragment_opcode->0, m);
        assert(seq![Ok(ReceivedModel::NeedMore)] + need_more(rest.len()).push(d.0) =~= need_more(
            middles.len(),
        ).push(d.0));
    }
}

/// Fragmented messages are concatenated and handed out as one block: on an
/// open connection with no message in progress, a first fragment (a data
/// opcode without `fin`), middle fragments and a last fragment, whose
/// payloads together fit the maximum message size, are each read on, and
/// the last one hands out one message with the first fragment's opcode and
/// all the payloads (text only where they are UTF-8). The receiver is then
/// without a message in progress again.
pub proof fn lemma_fragments_concatenated(
    max_message_size: nat,
    first: FrameSpec,
    middles: Seq<FrameSpec>,
    last: FrameSpec,
)
    requires
        !first.fin,
        first.opcode != OpCode::Continue,
        !spec_is_control(first.opcode),
        forall|i: int| 0 <= i < middles.len() ==> is_middle_fragment(#[trigger] middles[i]),
        last.fin && last.opcode == OpCode::Continue,
        payload_bytes(first).len() + payloads(middles).len() + payload_bytes(last).len()
            <= max_message_size,
    ensures
        ({
            let s0 = ReceiverState {
                is_closed: false,
                first_fragment_opcode: None,
                message: Seq::empty(),
                max_message_size,
            };
            let m = payload_bytes(first) + payloads(middles) + payload_bytes(last);
            let r = receive_run(s0, seq![first] + middles.push(last));
            &&& r.0.len() == middles.len() + 2
            &&& forall|i: int| 0 <= i <= middles.len() ==> r.0[i] == Ok::<ReceivedModel, Error>(ReceivedModel::NeedMore)
            &&& r.0[middles.len() + 1int] == (if first.opcode == OpCode::Text && !valid_utf8(m) {
                Err(Error::Utf8)
            } else {
                Ok(ReceivedModel::Message(false, first.opcode == OpCode::Text, m))
            })
            &&& r.1 == ReceiverState { message: Seq::empty(), ..s0 }
        }),
{
    let s0 = ReceiverState {
        is_closed: false,
        first_fragment_opcode: None,
        message: Seq::<u8>::empty(),
        max_message_size,
    };
    let d0 = payload_bytes(first);
    assert(s0.message + d0 =~= d0);
    let s1 = ReceiverState { message: d0, first_fragment_opcode: Some(first.opcode), ..s0 };
    assert(receive_step(s0, first) == (Ok::<ReceivedModel, Error>(ReceivedModel::NeedMore), s1));
    lemma_receive_tail(s1, middles, last);
    let frames = seq![first] + middles.push(last);
    assert(frames[0] == first);
    assert(frames.drop_first() =~= middles.push(last));
    let m = d0 + payloads(middles) + payload_bytes(last);
    let d = deliver(ReceiverState { message: m, ..s1 }, first.opcode, m);
    let r = receive_run(s0, frames);
    assert(r.0 =~= seq![Ok(ReceivedModel::NeedMore)] + need_more(middles.len()).push(d.0));
}

/// Messages stay within the maximum message size: where the payload
/// gathered so far is within it, it stays within it after any frame, and a
/// message handed out is never larger.
pub proof fn lemma_message_within_maximum(s: ReceiverState, f: FrameSpec)
    requires
        s.message.len() <= s.max_message_size,
    ensures
        receive_step(s, f).1.message.len() <= receive_step(s, f).1.max_message_size,
        receive_step(s, f).0 matches Ok(ReceivedModel::Message(false, _, m)) ==> m.len()
            <= s.max_message_size,
{
}

/// A closed connection stays closed: once a close frame has been received,
/// every further frame is refused with `Error::Closed` and changes nothing.
pub proof fn lemma_closed_stays_closed(s: ReceiverState, close: FrameSpec, f: FrameSpec)
    requires
        !s.is_closed,
        close.opcode == OpCode::Close,
    ensures
        receive_step(s, close).1.is_closed,
        receive_step(receive_step(s, close).1, f) == (
            Err::<ReceivedModel, Error>(Error::Closed),
            receive_step(s, close).1,
        ),
{
}

} // verus!

verus! {

/// A peer's close code that the protocol allows it to send (1000 to 1003,
/// 1007 to 1011, 1015, 3000 to 4999), with a UTF-8 reason, is answered with
/// that very code; any other code is answered with 1002 (protocol error).
pub proof fn lemma_close_code_answered(data: Seq<u8>)
    requires
        data.len() >= 2,
        valid_utf8(data.skip(2)),
    ensures
        ({
            let code = data[0] as int * 256 + data[1] as int;
            &&& (1000 <= code <= 1003 || 1007 <= code <= 1011 || code == 1015 || 3000 <= code
                <= 4999) ==> close_answer_code(data) == Ok::<Option<u16>, Error>(
                Some(code as u16),
            )
            &&& !(1000 <= code <= 1003 || 1007 <= code <= 1011 || code == 1015 || 3000 <= code
                <= 4999) ==> close_answer_code(data) == Ok::<Option<u16>, Error>(Some(1002u16))
        }),
{
    let code = data[0] as int * 256 + data[1] as int;
    assert(0 <= code < 65536) by (nonlinear_arith)
        requires
            code == data[0] as int * 256 + data[1] as int,
            0 <= data[0] < 256,
            0 <= data[1] < 256,
    ;
    assert(close_code_of(data) as int == code);
}

/// A whole data message in one frame, on an open connection with no
/// fragmented message in progress and within the maximum size, is handed
/// out at once: text exactly when the frame is a text frame (refused if it
/// is not UTF-8), holding the gathered bytes followed by the frame's
/// payload; the receiver then holds no message.
pub proof fn lemma_single_frame_delivered(s: ReceiverState, f: FrameSpec)
    requires
        !s.is_closed,
        s.first_fragment_opcode is None,
        f.fin,
        f.opcode == OpCode::Text || f.opcode == OpCode::Binary,
        payload_bytes(f).len() + s.message.len() <= s.max_message_size,
    ensures
        ({
            let m = s.message + payload_bytes(f);
            let (r, s2) = receive_step(s, f);
            &&& f.opcode == OpCode::Binary ==> r == Ok::<ReceivedModel, Error>(
                ReceivedModel::Message(false, false, m),
            )
            &&& f.opcode == OpCode::Text && valid_utf8(m) ==> r == Ok::<ReceivedModel, Error>(
                ReceivedModel::Message(false, true, m),
            )
            &&& f.opcode == OpCode::Text && !valid_utf8(m) ==> r == Err::<ReceivedModel, Error>(
                Error::Utf8,
            )
            &&& s2.message.len() == 0
            &&& s2.first_fragment_opcode is None
            &&& !s2.is_closed
            &&& s2.max_message_size == s.max_message_size
        }),
{
}

} // verus!
