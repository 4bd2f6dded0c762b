//! Websocket frames: a flat frame type with its pipelined codec, the base
//! frame, and the messages a protocol stack passes on.

pub mod base;
pub mod client;
pub mod handshake;
pub mod server;

use vstd::prelude::*;
use bytes::BytesMut;
use crate::base::{
    be_bytes, be_value, ext_len, length_field, lemma_be_bytes_len, lemma_be_value_bound,
    lemma_be_value_of_bytes, lemma_pow256_values, lemma_second_byte_bits, read_be, second_byte,
    write_be,
};
use crate::buffer::{bytes_into_vec, bytes_len, bytes_of, byte_at, split_bytes_to};
use crate::opcode::{opcode_from_spec, OpCode};
use crate::util::append_bytes;

verus! {

/// Length code announcing a two byte extended payload length.
const TWO_EXT: u8 = 126;

/// Length code announcing an eight byte extended payload length.
const EIGHT_EXT: u8 = 127;

/// A struct representing a websocket frame.
#[derive(Debug, Clone)]
pub struct WebsocketFrame {
    /// The `fin` flag: this frame ends a message.
    pub fin: bool,
    /// The first reserved bit.
    pub rsv1: bool,
    /// The second reserved bit.
    pub rsv2: bool,
    /// The third reserved bit.
    pub rsv3: bool,
    /// The operation code.
    pub opcode: OpCode,
    /// Whether the payload is masked.
    pub masked: bool,
    /// The announced payload length.
    pub payload_length: u64,
    /// The masking key, if any.
    pub mask_key: Option<u32>,
    /// The extension data, if any.
    pub extension_data: Option<Vec<u8>>,
    /// The application data, if any.
    pub application_data: Option<Vec<u8>>,
}

/// The model of a `WebsocketFrame`: the same fields, with the byte vectors
/// taken as sequences.
pub struct WebsocketFrameModel {
    pub fin: bool,
    pub rsv1: bool,
    pub rsv2: bool,
    pub rsv3: bool,
    pub opcode: OpCode,
    pub masked: bool,
    pub payload_length: u64,
    pub mask_key: Option<u32>,
    pub extension_data: Option<Seq<u8>>,
    pub application_data: Option<Seq<u8>>,
}

/// Optional bytes, taken as a sequence.
pub open spec fn opt_bytes(o: Option<Vec<u8>>) -> Option<Seq<u8>> {
    match o {
        Some(v) => Some(v@),
        None => None,
    }
}

impl View for WebsocketFrame {
    type V = WebsocketFrameModel;

    open spec fn view(&self) -> WebsocketFrameModel {
        WebsocketFrameModel {
            fin: self.fin,
            rsv1: self.rsv1,
            rsv2: self.rsv2,
            rsv3: self.rsv3,
            opcode: self.opcode,
            masked: self.masked,
            payload_length: self.payload_length,
            mask_key: self.mask_key,
            extension_data: opt_bytes(self.extension_data),
            application_data: opt_bytes(self.application_data),
        }
    }
}

/// The application data of a frame, empty where there is none.
pub open spec fn app_bytes(f: WebsocketFrameModel) -> Seq<u8> {
    match f.application_data {
        Some(d) => d,
        None => Seq::empty(),
    }
}

impl WebsocketFrame {
    /// The operation code.
    pub fn opcode(&self) -> (r: OpCode)
        ensures
            r == self.opcode,
    {
        self.opcode
    }

    /// The application data (empty where there is none).
    pub fn app_data(&self) -> (r: &[u8])
        ensures
            r@ == app_bytes(self@),
    {
        match &self.application_data {
            Some(data) => data.as_slice(),
            None => &[],
        }
    }
}

/// The default frame: a final close frame with no payload, unmasked.
pub open spec fn default_frame() -> WebsocketFrameModel {
    WebsocketFrameModel {
        fin: true,
        rsv1: false,
        rsv2: false,
        rsv3: false,
        opcode: OpCode::Close,
        masked: false,
        payload_length: 0,
        mask_key: None,
        extension_data: None,
        application_data: None,
    }
}

impl Default for WebsocketFrame {
    fn default() -> (r: WebsocketFrame)
        ensures
            r@ == default_frame(),
    {
        WebsocketFrame {
            fin: true,
            rsv1: false,
            rsv2: false,
            rsv3: false,
            opcode: OpCode::Close,
            masked: false,
            payload_length: 0,
            mask_key: None,
            extension_data: None,
            application_data: None,
        }
    }
}

/// Errors of the frame codec.
#[derive(Debug, Clone, Copy, PartialEq, Eq, Structural)]
pub enum Error {
    /// A frame that has no place in a message: the `fin` flag and opcode
    /// it came with.
    UnknownFrameType { fin: bool, opcode: OpCode },
    /// `OpCode::Bad` has no number to put on the wire.
    BadOpCode,
}

/// A frame as the pipeline hands it on: a message (whose body may follow
/// in further frames), a piece of such a body, or an error.
#[derive(Debug)]
pub enum PipelineFrame {
    /// A message; `body` tells whether body frames follow.
    Message { message: WebsocketFrame, body: bool },
    /// A body frame of the message in progress; `fin` ends the body.
    Body { fin: bool, chunk: Option<WebsocketFrame> },
    /// An error in place of a frame.
    Error { error: Error },
}

/// The model of a `PipelineFrame`.
pub enum PipelineFrameModel {
    Message { message: WebsocketFrameModel, body: bool },
    Body { fin: bool, chunk: Option<WebsocketFrameModel> },
    Error { error: Error },
}

impl View for PipelineFrame {
    type V = PipelineFrameModel;

    open spec fn view(&self) -> PipelineFrameModel {
        match self {
            PipelineFrame::Message { message, body } => PipelineFrameModel::Message {
                message: message@,
                body: *body,
            },
            PipelineFrame::Body { fin, chunk } => PipelineFrameModel::Body {
                fin: *fin,
                chunk: match chunk {
                    Some(c) => Some(c@),
                    None => None,
                },
            },
            PipelineFrame::Error { error } => PipelineFrameModel::Error { error: *error },
        }
    }
}

// Encoding ///////////////////////////////////////////////////////////////////

/// The number an opcode has on the wire; `Bad` has none.
pub open spec fn wire_number(op: OpCode) -> Option<u8> {
    match op {
        OpCode::Continue => Some(0u8),
        OpCode::Text => Some(1u8),
        OpCode::Binary => Some(2u8),
        OpCode::Close => Some(8u8),
        OpCode::Ping => Some(9u8),
        OpCode::Pong => Some(10u8),
        OpCode::Reserved => Some(3u8),
        OpCode::Bad => None,
    }
}

fn opcode_to_wire(op: OpCode) -> (r: Option<u8>)
    ensures
        r == wire_number(op),
{
    match op {
        OpCode::Continue => Some(0),
        OpCode::Text => Some(1),
        OpCode::Binary => Some(2),
        OpCode::Close => Some(8),
        OpCode::Ping => Some(9),
        OpCode::Pong => Some(10),
        OpCode::Reserved => Some(3),
        OpCode::Bad => None,
    }
}

/// The first header byte: the four flags and the opcode number `n`.
pub open spec fn flags_byte(f: WebsocketFrameModel, n: u8) -> u8 {
    (((((if f.fin { 0x80u8 } else { 0u8 }) | (if f.rsv1 { 0x40u8 } else { 0u8 })) | (
    if f.rsv2 { 0x20u8 } else { 0u8 })) | (if f.rsv3 { 0x10u8 } else { 0u8 })) | n)
}

/// The masking key as it is written: only for a masked frame that has one.
pub open spec fn mask_field(f: WebsocketFrameModel) -> Seq<u8> {
    if f.masked && f.mask_key is Some {
        be_bytes(f.mask_key->0 as nat, 4)
    } else {
        Seq::empty()
    }
}

/// The bytes of a frame whose opcode has the number `n`: header, masking
/// key and the application data as it is (the payload is not masked here).
pub open spec fn frame_bytes(f: WebsocketFrameModel, n: u8) -> Seq<u8> {
    seq![flags_byte(f, n)] + length_field(f.masked, f.payload_length as nat) + mask_field(f)
        + app_bytes(f)
}

/// Write the mask flag and the payload length field.
fn push_length(buf: &mut Vec<u8>, masked: bool, len: u64)
    ensures
        final(buf)@ == old(buf)@ + length_field(masked, len as nat),
{
    let second_flag: u8 = if masked { 0x80 } else { 0 };
    if len < 126 {
        let code = len as u8;
        buf.push(second_flag | code);
    } else if len < 65536 {
        buf.push(second_flag | TWO_EXT);
        let ext = write_be(len, 2);
        append_bytes(buf, ext.as_slice());
    } else {
        buf.push(second_flag | EIGHT_EXT);
        let ext = write_be(len, 8);
        append_bytes(buf, ext.as_slice());
    }
    assert(buf@ =~= old(buf)@ + length_field(masked, len as nat));
}

/// Write the masking key of a masked frame that has one.
fn push_mask(buf: &mut Vec<u8>, masked: bool, mask_key: Option<u32>)
    ensures
        final(buf)@ == old(buf)@ + (if masked && mask_key is Some {
            be_bytes(mask_key->0 as nat, 4)
        } else {
            Seq::empty()
        }),
{
    if masked {
        if let Some(mask) = mask_key {
            let m = write_be(mask as u64, 4);
            append_bytes(buf, m.as_slice());
            return;
        }
    }
    assert(buf@ =~= old(buf)@ + Seq::<u8>::empty());
}

/// Write a frame to `buf`. A frame with `OpCode::Bad` cannot be written and
/// leaves `buf` as it was.
pub fn to_byte_buf(frame: WebsocketFrame, buf: &mut Vec<u8>) -> (r: Result<(), Error>)
    ensures
        match wire_number(frame.opcode) {
            Some(n) => r is Ok && final(buf)@ == old(buf)@ + frame_bytes(frame@, n),
            None => r == Err::<(), Error>(Error::BadOpCode) && final(buf)@ == old(buf)@,
        },
{
    let n = match opcode_to_wire(frame.opcode) {
        Some(n) => n,
        None => return Err(Error::BadOpCode),
    };
    let ghost f = frame@;
    let ghost start = buf@;
    let first_byte: u8 = ((((if frame.fin { 0x80u8 } else { 0u8 }) | (if frame.rsv1 {
        0x40u8
    } else {
        0u8
    })) | (if frame.rsv2 { 0x20u8 } else { 0u8 })) | (if frame.rsv3 { 0x10u8 } else { 0u8 }))
        | n;
    assert(first_byte == flags_byte(f, n));
    buf.push(first_byte);
    let ghost after_first = buf@;

    push_length(buf, frame.masked, frame.payload_length);
    assert(buf@ == after_first + length_field(f.masked, f.payload_length as nat));
    let ghost after_len = buf@;
    push_mask(buf, frame.masked, frame.mask_key);
    assert(buf@ == after_len + mask_field(f));
    let ghost after_mask = buf@;

    if let Some(app_data) = frame.application_data {
        append_bytes(buf, app_data.as_slice());
    }
    assert(buf@ == after_mask + app_bytes(f));
    assert(buf@ =~= start + frame_bytes(f, n));
    Ok(())
}

// Decoding ///////////////////////////////////////////////////////////////////

/// The length code of the second header byte.
pub open spec fn length_code(all: Seq<u8>) -> u8 {
    all[1] & 0x7F
}

/// Whether the second header byte has the mask flag.
pub open spec fn mask_flag(all: Seq<u8>) -> bool {
    all[1] & 0x80 != 0
}

/// The size of the header at the start of `all`: two bytes, the extended
/// payload length and the masking key.
pub open spec fn header_size(all: Seq<u8>) -> nat {
    2 + ext_len(length_code(all)) + (if mask_flag(all) { 4nat } else { 0nat })
}

/// `all` is empty, or holds a whole header.
pub open spec fn decodable(all: Seq<u8>) -> bool {
    all.len() == 0 || (all.len() >= 2 && all.len() >= header_size(all))
}

/// The payload length the header announces.
pub open spec fn announced_length(all: Seq<u8>) -> u64 {
    let code = length_code(all);
    if code == 126 {
        be_value(all.subrange(2, 4)) as u64
    } else if code == 127 {
        be_value(all.subrange(2, 10)) as u64
    } else {
        code as u64
    }
}

/// The frame `decode` reads from the bytes `all`: the header fields, and
/// all bytes after the header as application data (as they are).
pub open spec fn decoded_frame(all: Seq<u8>) -> WebsocketFrameModel {
    let k: int = 2 + ext_len(length_code(all)) as int;
    WebsocketFrameModel {
        fin: all[0] & 0x80 != 0,
        rsv1: all[0] & 0x40 != 0,
        rsv2: all[0] & 0x20 != 0,
        rsv3: all[0] & 0x10 != 0,
        opcode: opcode_from_spec(all[0] & 0x0F),
        masked: mask_flag(all),
        payload_length: announced_length(all),
        mask_key: if mask_flag(all) {
            Some(be_value(all.subrange(k, k + 4)) as u32)
        } else {
            None
        },
        extension_data: None,
        application_data: Some(all.skip(header_size(all) as int)),
    }
}

/// Control opcodes (close, ping and pong).
pub open spec fn is_control_opcode(op: OpCode) -> bool {
    op == OpCode::Close || op == OpCode::Ping || op == OpCode::Pong
}

/// Where a decoded frame stands, given whether a fragmented message is in
/// progress: a control frame, or an unfragmented message, is a message of
/// its own; a first fragment is a message whose body follows; continuation
/// fragments are its body; anything else has no place.
pub open spec fn place_frame(fragmented: bool, f: WebsocketFrameModel) -> Result<
    PipelineFrameModel,
    Error,
> {
    if is_control_opcode(f.opcode) {
        Ok(PipelineFrameModel::Message { message: f, body: false })
    } else if !fragmented && f.fin && f.opcode != OpCode::Continue {
        Ok(PipelineFrameModel::Message { message: f, body: false })
    } else if !fragmented && !f.fin && f.opcode != OpCode::Continue {
        Ok(PipelineFrameModel::Message { message: f, body: true })
    } else if fragmented && f.opcode == OpCode::Continue {
        Ok(PipelineFrameModel::Body { fin: f.fin, chunk: Some(f) })
    } else {
        Err(Error::UnknownFrameType { fin: f.fin, opcode: f.opcode })
    }
}

/// Whether a fragmented message is in progress after the frame.
pub open spec fn next_fragmented(fragmented: bool, f: WebsocketFrameModel) -> bool {
    if is_control_opcode(f.opcode) {
        fragmented
    } else if !fragmented && !f.fin && f.opcode != OpCode::Continue {
        true
    } else if fragmented && f.fin && f.opcode == OpCode::Continue {
        false
    } else {
        fragmented
    }
}

/// A decode result, by its model.
pub open spec fn answer_view(r: Result<Option<PipelineFrame>, Error>) -> Result<
    Option<PipelineFrameModel>,
    Error,
> {
    match r {
        Ok(Some(p)) => Ok(Some(p@)),
        Ok(None) => Ok(None),
        Err(e) => Err(e),
    }
}

/// A placed frame as a decode result.
pub open spec fn placed_answer(fragmented: bool, f: WebsocketFrameModel) -> Result<
    Option<PipelineFrameModel>,
    Error,
> {
    match place_frame(fragmented, f) {
        Ok(p) => Ok(Some(p)),
        Err(e) => Err(e),
    }
}

/// The pipelined frame codec: it remembers whether a fragmented message is
/// in progress.
pub struct FrameCodec {
    /// Is a fragmented message in progress?
    pub fragmented: bool,
}

impl Default for FrameCodec {
    fn default() -> (r: FrameCodec)
        ensures
            !r.fragmented,
    {
        FrameCodec { fragmented: false }
    }
}

impl FrameCodec {
    /// Whether `buf` is empty or holds a whole header, which `decode`
    /// needs.
    pub fn is_decodable(buf: &BytesMut) -> (r: bool)
        ensures
            r == decodable(bytes_of(*buf)),
    {
        let n = bytes_len(buf);
        if n == 0 {
            return true;
        }
        if n < 2 {
            return false;
        }
        let b1 = byte_at(buf, 1);
        let code = b1 & 0x7F;
        let ext: usize = if code == 126 {
            2
        } else if code == 127 {
            8
        } else {
            0
        };
        let mask: usize = if b1 & 0x80 != 0 {
            4
        } else {
            0
        };
        n >= 2 + ext + mask
    }

    /// Decode one frame from `buf` once it holds a whole header, as
    /// `decode` does; while it does not, there is no frame yet and `buf` is
    /// left as it is.
    pub fn decode_available(&mut self, buf: &mut BytesMut) -> (r: Result<
        Option<PipelineFrame>,
        Error,
    >)
        ensures
            !decodable(bytes_of(*old(buf))) ==> {
                &&& r matches Ok(None)
                &&& bytes_of(*final(buf)) == bytes_of(*old(buf))
                &&& final(self).fragmented == old(self).fragmented
            },
            bytes_of(*old(buf)).len() == 0 ==> {
                &&& r matches Ok(None)
                &&& bytes_of(*final(buf)) == bytes_of(*old(buf))
                &&& final(self).fragmented == old(self).fragmented
            },
            decodable(bytes_of(*old(buf))) && bytes_of(*old(buf)).len() > 0 ==> {
                &&& answer_view(r) == placed_answer(
                    old(self).fragmented,
                    decoded_frame(bytes_of(*old(buf))),
                )
                &&& bytes_of(*final(buf)) == Seq::<u8>::empty()
                &&& final(self).fragmented == next_fragmented(
                    old(self).fragmented,
                    decoded_frame(bytes_of(*old(buf))),
                )
            },
    {
        if !FrameCodec::is_decodable(buf) {
            return Ok(None);
        }
        self.decode(buf)
    }

    /// Decode one frame, which takes all bytes of `buf`: its header, and all
    /// that follows as application data. An empty buffer gives no frame.
    pub fn decode(&mut self, buf: &mut BytesMut) -> (r: Result<Option<PipelineFrame>, Error>)
        requires
            decodable(bytes_of(*old(buf))),
        ensures
            bytes_of(*old(buf)).len() == 0 ==> {
                &&& r matches Ok(None)
                &&& bytes_of(*final(buf)) == bytes_of(*old(buf))
                &&& final(self).fragmented == old(self).fragmented
            },
            bytes_of(*old(buf)).len() > 0 ==> {
                &&& answer_view(r) == placed_answer(
                    old(self).fragmented,
                    decoded_frame(bytes_of(*old(buf))),
                )
                &&& bytes_of(*final(buf)) == Seq::<u8>::empty()
                &&& final(self).fragmented == next_fragmented(
                    old(self).fragmented,
                    decoded_frame(bytes_of(*old(buf))),
                )
            },
    {
        let total = bytes_len(buf);
        if total == 0 {
            return Ok(None);
        }
        let ghost all = bytes_of(*buf);
        let mut whole = split_bytes_to(buf, total);
        assert(bytes_of(whole) =~= all);
        assert(bytes_of(*buf) =~= Seq::<u8>::empty());

        let ws_frame = read_frame(&mut whole);
        let ghost f = ws_frame@;
        let opcode = ws_frame.opcode;
        let fin = ws_frame.fin;
        if opcode == OpCode::Close || opcode == OpCode::Ping || opcode == OpCode::Pong {
            Ok(Some(PipelineFrame::Message { message: ws_frame, body: false }))
        } else if !self.fragmented && fin && opcode != OpCode::Continue {
            Ok(Some(PipelineFrame::Message { message: ws_frame, body: false }))
        } else if !self.fragmented && !fin && opcode != OpCode::Continue {
            self.fragmented = true;
            Ok(Some(PipelineFrame::Message { message: ws_frame, body: true }))
        } else if self.fragmented && !fin && opcode == OpCode::Continue {
            Ok(Some(PipelineFrame::Body { fin, chunk: Some(ws_frame) }))
        } else if self.fragmented && fin && opcode == OpCode::Continue {
            self.fragmented = false;
            Ok(Some(PipelineFrame::Body { fin, chunk: Some(ws_frame) }))
        } else {
            Err(Error::UnknownFrameType { fin, opcode })
        }
    }

    /// Encode a pipeline frame into `buf`: a message or a body chunk is
    /// written as a frame, a body without chunk writes nothing, and an error
    /// is handed back.
    pub fn encode(&mut self, msg: PipelineFrame, buf: &mut Vec<u8>) -> (r: Result<(), Error>)
        ensures
            final(self).fragmented == old(self).fragmented,
            match msg@ {
                PipelineFrameModel::Message { message, .. } => match wire_number(message.opcode) {
                    Some(n) => r is Ok && final(buf)@ == old(buf)@ + frame_bytes(message, n),
                    None => r == Err::<(), Error>(Error::BadOpCode) && final(buf)@ == old(buf)@,
                },
                PipelineFrameModel::Body { chunk: Some(c), .. } => match wire_number(c.opcode) {
                    Some(n) => r is Ok && final(buf)@ == old(buf)@ + frame_bytes(c, n),
                    None => r == Err::<(), Error>(Error::BadOpCode) && final(buf)@ == old(buf)@,
                },
                PipelineFrameModel::Body { chunk: None, .. } => {
                    &&& r is Ok
                    &&& final(buf)@ == old(buf)@
                },
                PipelineFrameModel::Error { error } => {
                    &&& r == Err::<(), Error>(error)
                    &&& final(buf)@ == old(buf)@
                },
            },
    {
        match msg {
            PipelineFrame::Message { message, .. } => to_byte_buf(message, buf),
            PipelineFrame::Body { chunk, .. } => match chunk {
                Some(chunk) => to_byte_buf(chunk, buf),
                None => Ok(()),
            },
            PipelineFrame::Error { error } => Err(error),
        }
    }
}

/// Read the frame that takes all of `whole` (which is then left empty).
fn read_frame(whole: &mut BytesMut) -> (r: WebsocketFrame)
    requires
        bytes_of(*old(whole)).len() >= 2,
        bytes_of(*old(whole)).len() >= header_size(bytes_of(*old(whole))),
    ensures
        r@ == decoded_frame(bytes_of(*old(whole))),
{
    let ghost all = bytes_of(*whole);
    let first = byte_at(whole, 0);
    let second = byte_at(whole, 1);
    let fin = first & 0x80 != 0;
    let rsv1 = first & 0x40 != 0;
    let rsv2 = first & 0x20 != 0;
    let rsv3 = first & 0x10 != 0;
    let opcode = OpCode::from(first & 0x0F);
    let masked = second & 0x80 != 0;
    let length_code = second & 0x7F;

    let mut at: usize = 2;
    let payload_length: u64 = if length_code == TWO_EXT {
        at = 4;
        read_be(whole, 2, 2)
    } else if length_code == EIGHT_EXT {
        at = 10;
        read_be(whole, 2, 8)
    } else {
        length_code as u64
    };
    assert(at == 2 + ext_len(length_code));

    let mask_key = if masked {
        let k = read_be(whole, at, 4);
        proof {
            lemma_be_value_bound(all.subrange(at as int, at + 4));
            lemma_pow256_values();
        }
        at = at + 4;
        Some(k as u32)
    } else {
        None
    };
    assert(at == header_size(all));

    let _header = split_bytes_to(whole, at);
    let application_data = bytes_into_vec(split_bytes_to(whole, bytes_len(whole)));
    assert(application_data@ =~= all.skip(header_size(all) as int));

    WebsocketFrame {
        fin,
        rsv1,
        rsv2,
        rsv3,
        opcode,
        masked,
        payload_length,
        mask_key,
        extension_data: None,
        application_data: Some(application_data),
    }
}

// Messages ///////////////////////////////////////////////////////////////////

/// A websocket message as a protocol stack passes it on.
#[derive(Debug)]
pub enum WebSocket {
    /// The initial client to server handshake request.
    ClientRequest(handshake::client::Request),
    /// The server's handshake response.
    ServerResponse(handshake::server::Response),
    /// A generic post-handshake websocket frame.
    Base(base::Frame),
}

/// An unmasked frame with the `fin` flag, the given opcode and application
/// data, and no other flag or data.
pub open spec fn final_frame(opcode: base::OpCode, app_data: Seq<u8>) -> base::FrameSpec {
    base::FrameSpec {
        header: base::HeaderSpec {
            fin: true,
            rsv1: false,
            rsv2: false,
            rsv3: false,
            masked: false,
            opcode,
            mask: 0,
        },
        extension_data: Seq::empty(),
        application_data: app_data,
    }
}

impl WebSocket {
    /// Create a pong frame.
    pub fn pong(app_data: Vec<u8>) -> (r: WebSocket)
        ensures
            r matches WebSocket::Base(f) && f@ == final_frame(base::OpCode::Pong, app_data@),
    {
        let mut header = base::Header::new(base::OpCode::Pong);
        header.set_fin(true);
        let mut frame = base::Frame::from(header);
        frame.set_application_data(app_data);
        WebSocket::Base(frame)
    }

    /// Create a close frame.
    pub fn close(app_data: Vec<u8>) -> (r: WebSocket)
        ensures
            r matches WebSocket::Base(f) && f@ == final_frame(base::OpCode::Close, app_data@),
    {
        let mut header = base::Header::new(base::OpCode::Close);
        header.set_fin(true);
        let mut frame = base::Frame::from(header);
        frame.set_application_data(app_data);
        WebSocket::Base(frame)
    }
}

// Laws ///////////////////////////////////////////////////////////////////////

/// The frame that decoding the bytes of `f` gives back: the same flags,
/// opcode and payload length, the masking key only on a masked frame, no
/// extension data, and the application data (empty where there was none).
pub open spec fn read_back(f: WebsocketFrameModel) -> WebsocketFrameModel {
    WebsocketFrameModel {
        mask_key: if f.masked {
            f.mask_key
        } else {
            None
        },
        extension_data: None,
        application_data: Some(app_bytes(f)),
        ..f
    }
}

proof fn lemma_flags_byte_bits(f: WebsocketFrameModel, n: u8)
    requires
        n < 16,
    ensures
        (flags_byte(f, n) & 0x80 != 0) == f.fin,
        (flags_byte(f, n) & 0x40 != 0) == f.rsv1,
        (flags_byte(f, n) & 0x20 != 0) == f.rsv2,
        (flags_byte(f, n) & 0x10 != 0) == f.rsv3,
        flags_byte(f, n) & 0x0F == n,
{
    let fin = f.fin;
    let r1 = f.rsv1;
    let r2 = f.rsv2;
    let r3 = f.rsv3;
    let b = flags_byte(f, n);
    assert({
        &&& (b & 0x80 != 0) == fin
        &&& (b & 0x40 != 0) == r1
        &&& (b & 0x20 != 0) == r2
        &&& (b & 0x10 != 0) == r3
        &&& b & 0x0F == n
    }) by (bit_vector)
        requires
            n < 16,
            b == (((((if fin { 0x80u8 } else { 0u8 }) | (if r1 { 0x40u8 } else { 0u8 })) | (
            if r2 { 0x20u8 } else { 0u8 })) | (if r3 { 0x10u8 } else { 0u8 })) | n),
    ;
}

/// What `to_byte_buf` writes, `FrameCodec::decode` reads back: the bytes
/// of a frame with a wire opcode (and a masking key where it is masked)
/// decode to the same frame, as `read_back` describes it.
pub proof fn lemma_write_read(f: WebsocketFrameModel, n: u8)
    requires
        wire_number(f.opcode) == Some(n),
        f.masked ==> f.mask_key is Some,
    ensures
        frame_bytes(f, n).len() > 0,
        decodable(frame_bytes(f, n)),
        decoded_frame(frame_bytes(f, n)) == read_back(f),
{
    let b = frame_bytes(f, n);
    let len = f.payload_length as nat;
    lemma_flags_byte_bits(f, n);
    lemma_pow256_values();
    let lf = length_field(f.masked, len);
    let code: u8 = if len < 126 {
        len as u8
    } else if len <= 65535 {
        126u8
    } else {
        127u8
    };
    lemma_second_byte_bits(f.masked, code);
    let k: int = if len < 126 {
        2
    } else if len <= 65535 {
        4
    } else {
        10
    };
    if len >= 126 && len <= 65535 {
        lemma_be_bytes_len(len, 2);
        lemma_be_value_of_bytes(len, 2);
    } else if len > 65535 {
        lemma_be_bytes_len(len, 8);
        lemma_be_value_of_bytes(len, 8);
    }
    assert(lf.len() == k - 1);
    assert(b[0] == flags_byte(f, n));
    assert(b[1] == second_byte(f.masked, code));
    assert(length_code(b) == code);
    assert(mask_flag(b) == f.masked);
    assert(opcode_from_spec(b[0] & 0x0F) == f.opcode);
    assert(b.subrange(1, k) =~= lf);
    if len >= 126 && len <= 65535 {
        assert(b.subrange(2, 4) =~= be_bytes(len, 2));
    } else if len > 65535 {
        assert(b.subrange(2, 10) =~= be_bytes(len, 8));
    }
    assert(announced_length(b) == f.payload_length);
    let mf = mask_field(f);
    if f.masked {
        let m = f.mask_key->0;
        lemma_be_bytes_len(m as nat, 4);
        lemma_be_value_of_bytes(m as nat, 4);
        assert(b.subrange(k, k + 4) =~= mf);
    } else {
        assert(mf =~= Seq::<u8>::empty());
    }
    assert(header_size(b) == k + mf.len());
    assert(b.skip(header_size(b) as int) =~= app_bytes(f));
    assert(decoded_frame(b) =~= read_back(f));
}

} // verus!

verus! {

/// While a fragmented message is in progress, a continuation frame is a
/// piece of its body: a non-final one keeps the message in progress, and
/// only a final one ends it.
pub proof fn lemma_continuation_in_progress(f: WebsocketFrameModel)
    requires
        f.opcode == OpCode::Continue,
    ensures
        placed_answer(true, f) == Ok::<Option<PipelineFrameModel>, Error>(
            Some(PipelineFrameModel::Body { fin: f.fin, chunk: Some(f) }),
        ),
        next_fragmented(true, f) == !f.fin,
{
}

/// The pipelined codec run over frames decoded one after the other: the
/// result of each `decode`, and whether a fragmented message is in progress
/// after the last.
pub open spec fn pipeline_run(fragmented: bool, frames: Seq<WebsocketFrameModel>) -> (
    Seq<Result<Option<PipelineFrameModel>, Error>>,
    bool,
)
    decreases frames.len(),
{
    if frames.len() == 0 {
        (Seq::empty(), fragmented)
    } else {
        let (rs, fr) = pipeline_run(fragmented, frames.drop_last());
        (rs.push(placed_answer(fr, frames.last())), next_fragmented(fr, frames.last()))
    }
}

/// The first fragment of a message followed by non-final continuations.
proof fn lemma_fragments_in_progress(first: WebsocketFrameModel, middles: Seq<WebsocketFrameModel>, n: int)
    requires
        !is_control_opcode(first.opcode),
        !first.fin,
        first.opcode != OpCode::Continue,
        forall|k: int| 0 <= k < middles.len() ==> (#[trigger] middles[k]).opcode == OpCode::Continue
            && !middles[k].fin,
        0 <= n <= middles.len(),
    ensures
        ({
            let (rs, fr) = pipeline_run(false, seq![first] + middles.take(n));
            &&& fr
            &&& rs.len() == n + 1
            &&& rs[0] == Ok::<Option<PipelineFrameModel>, Error>(
                Some(PipelineFrameModel::Message { message: first, body: true }),
            )
            &&& forall|k: int|
                0 <= k < n ==> rs[k + 1] == Ok::<Option<PipelineFrameModel>, Error>(
                    Some(PipelineFrameModel::Body { fin: false, chunk: Some(middles[k]) }),
                )
        }),
    decreases n,
{
    let fs = seq![first] + middles.take(n);
    if n == 0 {
        assert(fs =~= seq![first]);
        assert(fs.drop_last() =~= Seq::<WebsocketFrameModel>::empty());
        assert(pipeline_run(false, fs.drop_last()) == (Seq::<Result<Option<PipelineFrameModel>, Error>>::empty(), false));
        assert(fs.last() == first);
    } else {
        lemma_fragments_in_progress(first, middles, n - 1);
        assert(fs.drop_last() =~= seq![first] + middles.take(n - 1));
        assert(fs.last() == middles[n - 1]);
        let (rs0, fr0) = pipeline_run(false, seq![first] + middles.take(n - 1));
        let (rs, fr) = pipeline_run(false, fs);
        assert(rs == rs0.push(placed_answer(fr0, middles[n - 1])));
        assert(middles[n - 1].opcode == OpCode::Continue && !middles[n - 1].fin);
        assert(fr == next_fragmented(fr0, middles[n - 1]));
        assert forall|k: int| 0 <= k < n implies rs[k + 1] == Ok::<Option<PipelineFrameModel>, Error>(
            Some(PipelineFrameModel::Body { fin: false, chunk: Some(middles[k]) }),
        ) by {
            if k < n - 1 {
                assert(rs[k + 1] == rs0[k + 1]);
            }
        }
    }
}

/// A fragmented message decoded frame by frame: the first fragment is a
/// message whose body follows, each non-final continuation is a piece of
/// the body that keeps the message in progress, and the final continuation
/// ends the body; then no message is in progress.
pub proof fn lemma_fragmented_message_placed(
    first: WebsocketFrameModel,
    middles: Seq<WebsocketFrameModel>,
    last: WebsocketFrameModel,
)
    requires
        !is_control_opcode(first.opcode),
        !first.fin,
        first.opcode != OpCode::Continue,
        forall|k: int| 0 <= k < middles.len() ==> (#[trigger] middles[k]).opcode == OpCode::Continue
            && !middles[k].fin,
        last.opcode == OpCode::Continue,
        last.fin,
    ensures
        ({
            let (rs, fr) = pipeline_run(false, seq![first] + middles + seq![last]);
            &&& !fr
            &&& rs.len() == middles.len() + 2
            &&& rs[0] == Ok::<Option<PipelineFrameModel>, Error>(
                Some(PipelineFrameModel::Message { message: first, body: true }),
            )
            &&& forall|k: int|
                0 <= k < middles.len() ==> rs[k + 1] == Ok::<Option<PipelineFrameModel>, Error>(
                    Some(PipelineFrameModel::Body { fin: false, chunk: Some(middles[k]) }),
                )
            &&& rs[middles.len() as int + 1] == Ok::<Option<PipelineFrameModel>, Error>(
                Some(PipelineFrameModel::Body { fin: true, chunk: Some(last) }),
            )
        }),
{
    let n = middles.len() as int;
    lemma_fragments_in_progress(first, middles, n);
    let fs = seq![first] + middles + seq![last];
    assert(middles.take(n) =~= middles);
    assert(fs.drop_last() =~= seq![first] + middles.take(n));
    assert(fs.last() == last);
    let (rs0, fr0) = pipeline_run(false, seq![first] + middles.take(n));
    let (rs, fr) = pipeline_run(false, fs);
    assert(rs == rs0.push(placed_answer(fr0, last)));
    assert forall|k: int| 0 <= k < n implies rs[k + 1] == Ok::<Option<PipelineFrameModel>, Error>(
        Some(PipelineFrameModel::Body { fin: false, chunk: Some(middles[k]) }),
    ) by {
        assert(rs[k + 1] == rs0[k + 1]);
    }
}

} // verus!
