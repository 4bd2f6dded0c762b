//! A streaming codec for websocket base frames that keeps each part of a
//! frame as it arrives and checks the UTF-8 of partly received text.

use vstd::prelude::*;
use vstd::utf8::valid_utf8;
use bytes::BytesMut;
use crate::base::{
    announced_len, apply_mask as apply_mask_vec, be_bytes, header_end, header_mask,
    lemma_be_bytes_len, lemma_be_value_bound, lemma_be_value_of_bytes, lemma_second_byte_bits,
    second_byte, ext_len, lemma_pow256_values, lemma_prefix_header, length_end, masked_bytes,
    push_byte, read_be, write_be,
};
use crate::buffer::{
    bytes_as_slice, bytes_from_slice, bytes_into_vec, bytes_len, bytes_of, byte_at, extend_bytes,
    new_bytes, split_bytes_to,
};
use crate::frame::base::{
    opcode_number, opcode_of_number, Frame, FrameSpec, Header, HeaderSpec, OpCode,
};

verus! {

/// If the payload length byte is 126, the following two bytes represent the actual payload
/// length.
const TWO_EXT: u8 = 126;

/// If the payload length byte is 127, the following eight bytes represent the actual payload
/// length.
const EIGHT_EXT: u8 = 127;

// UTF-8 validation ///////////////////////////////////////////////////////////

/// What `vatfluid::validate` says of a byte sequence.
#[derive(Debug, PartialEq, Eq)]
pub enum Utf8Validation {
    /// All of it is valid UTF-8; the position reached.
    Complete(usize),
    /// Valid so far, but the last sequence is cut off: the bytes still
    /// needed, and the position up to which the input is valid.
    Incomplete(usize, usize),
    /// Not valid UTF-8.
    Invalid,
}

/// The outcome of `vatfluid::validate` on a byte sequence.
pub uninterp spec fn utf8_validation(bytes: Seq<u8>) -> Utf8Validation;

/// `vatfluid::validate` on `buf[from..]`. Its result is named by
/// `utf8_validation`; beyond that the contract claims what the crate's
/// source shows: the validation is complete exactly when the input is
/// valid UTF-8 (it refuses overlong forms, surrogates and code points past
/// U+10FFFF, as the standard does); a complete validation reaches the end of
/// the input, an incomplete one stops within it. What an incomplete one
/// reports is left to the name.
#[verifier::external_body]
fn validate_utf8(buf: &[u8], from: usize) -> (r: Utf8Validation)
    requires
        from <= buf@.len(),
    ensures
        r == utf8_validation(buf@.skip(from as int)),
        r is Complete <==> valid_utf8(buf@.skip(from as int)),
        r matches Utf8Validation::Complete(p) ==> p == buf@.len() - from,
        r matches Utf8Validation::Incomplete(_, p) ==> p <= buf@.len() - from,
{
    match vatfluid::validate(&buf[from..]) {
        Ok(vatfluid::Success::Complete(pos)) => Utf8Validation::Complete(pos),
        Ok(vatfluid::Success::Incomplete(needed, pos)) => Utf8Validation::Incomplete(needed, pos),
        Err(_) => Utf8Validation::Invalid,
    }
}

// Errors /////////////////////////////////////////////////////////////////////

/// Why a frame was refused.
#[derive(Debug, PartialEq, Eq, Structural, Clone, Copy)]
pub enum Error {
    /// The rsv1 bit is set but not reserved by an extension.
    InvalidRsv1,
    /// The rsv2 bit is set but not reserved by an extension.
    InvalidRsv2,
    /// The rsv3 bit is set but not reserved by an extension.
    InvalidRsv3,
    /// The opcode is one of the reserved ones.
    InvalidOpCode,
    /// A control frame is marked as a fragment.
    FragmentedControl,
    /// A server received a frame without a mask.
    MissingMask,
    /// A control frame carries more than 125 bytes.
    InvalidControlFrame,
    /// Text data is not valid UTF-8.
    InvalidUtf8,
}

// Model //////////////////////////////////////////////////////////////////////

/// The codec's settings: is it used by a client, and which rsv bits do
/// extensions reserve (4 for rsv1, 2 for rsv2, 1 for rsv3).
pub struct CodecConfig {
    pub client: bool,
    pub reserved_bits: u8,
}

/// The first check on the two first header bytes that fails, if any.
pub open spec fn start_error(c: CodecConfig, b0: u8, b1: u8) -> Option<Error> {
    let fin = b0 & 0x80 != 0;
    let op = opcode_of_number(b0 & 0x0F).unwrap();
    if b0 & 0x40 != 0 && c.reserved_bits & 4 == 0 {
        Some(Error::InvalidRsv1)
    } else if b0 & 0x20 != 0 && c.reserved_bits & 2 == 0 {
        Some(Error::InvalidRsv2)
    } else if b0 & 0x10 != 0 && c.reserved_bits & 1 == 0 {
        Some(Error::InvalidRsv3)
    } else if op == OpCode::Reserved {
        Some(Error::InvalidOpCode)
    } else if (op == OpCode::Close || op == OpCode::Ping || op == OpCode::Pong) && !fin {
        Some(Error::FragmentedControl)
    } else if b1 & 0x80 == 0 && !c.client {
        Some(Error::MissingMask)
    } else {
        None
    }
}

/// Is the opcode in the first header byte a control opcode?
pub open spec fn control_opcode(b0: u8) -> bool {
    let op = opcode_of_number(b0 & 0x0F).unwrap();
    op == OpCode::Close || op == OpCode::Ping || op == OpCode::Pong
}

/// Where reading the header from `all` gets to, with the checks that
/// `stage` says were made already left out.
pub enum HeaderOutcome {
    /// More bytes are needed.
    NeedMore,
    /// A check failed, once `at` bytes were read; the codec is then at `stage`.
    Fail(Error, nat, nat),
    /// The header is complete and takes `size` bytes.
    Ready(nat),
}

/// Reading a header from `all`: first two bytes, then the extended payload
/// length, then the masking key. Checks on the first two bytes are made
/// unless `stage >= 1`, the check on the length of control frames unless
/// `stage >= 2`.
pub open spec fn header_outcome(c: CodecConfig, all: Seq<u8>, stage: nat) -> HeaderOutcome {
    if all.len() < 2 {
        HeaderOutcome::NeedMore
    } else if stage < 1 && start_error(c, all[0], all[1]) is Some {
        HeaderOutcome::Fail(start_error(c, all[0], all[1]).unwrap(), 2, 0)
    } else if all.len() < length_end(all) {
        HeaderOutcome::NeedMore
    } else if stage < 2 && announced_len(all) > 125 && control_opcode(all[0]) {
        HeaderOutcome::Fail(Error::InvalidControlFrame, length_end(all), 2)
    } else if all.len() < header_end(all) {
        HeaderOutcome::NeedMore
    } else {
        HeaderOutcome::Ready(header_end(all))
    }
}

/// The header a frame gets from its header bytes.
pub open spec fn header_of(p: Seq<u8>) -> HeaderSpec {
    HeaderSpec {
        fin: p[0] & 0x80 != 0,
        rsv1: p[0] & 0x40 != 0,
        rsv2: p[0] & 0x20 != 0,
        rsv3: p[0] & 0x10 != 0,
        masked: p[1] & 0x80 != 0,
        opcode: opcode_of_number(p[0] & 0x0F).unwrap(),
        mask: header_mask(p),
    }
}

/// A decoded frame: its header and application data; no extension data.
pub open spec fn frame_of(p: Seq<u8>, data: Seq<u8>) -> FrameSpec {
    FrameSpec { header: header_of(p), extension_data: Seq::empty(), application_data: data }
}

/// What the payload part of a call does, given the header bytes `p`, the
/// raw payload bytes `app` kept so far, the position `pos` up to which
/// partly received text was found valid, and the bytes `input` that follow
/// the header in this call. Once the frame is complete the codec is back at
/// its start, ready for the next frame.
pub open spec fn payload_post(
    p: Seq<u8>,
    app: Seq<u8>,
    pos: nat,
    input: Seq<u8>,
    r: Result<Option<FrameSpec>, Error>,
    stage2: nat,
    app2: Seq<u8>,
    pos2: nat,
    rest: Seq<u8>,
) -> bool {
    let len = announced_len(p);
    let mask = header_mask(p);
    let op = opcode_of_number(p[0] & 0x0F).unwrap();
    if len == 0 {
        &&& r == Ok::<Option<FrameSpec>, Error>(Some(frame_of(p, app)))
        &&& stage2 == 0
        &&& app2 == Seq::<u8>::empty()
        &&& pos2 == 0
        &&& rest == input
    } else if input.len() == 0 {
        &&& r == Ok::<Option<FrameSpec>, Error>(None)
        &&& stage2 == 3
        &&& app2 == app
        &&& pos2 == pos
        &&& rest == input
    } else if input.len() + app.len() < len {
        let a2 = app + input;
        &&& stage2 == 3
        &&& app2 == a2
        &&& rest == Seq::<u8>::empty()
        &&& if op == OpCode::Text {
            match utf8_validation(masked_bytes(a2, mask).skip(pos as int)) {
                Utf8Validation::Invalid => r == Err::<Option<FrameSpec>, Error>(Error::InvalidUtf8)
                    && pos2 == pos,
                Utf8Validation::Complete(q) => r == Ok::<Option<FrameSpec>, Error>(None) && pos2
                    == pos + q,
                Utf8Validation::Incomplete(_, q) => r == Ok::<Option<FrameSpec>, Error>(None)
                    && pos2 == pos + q,
            }
        } else {
            r == Ok::<Option<FrameSpec>, Error>(None) && pos2 == pos
        }
    } else {
        let k = len - app.len();
        let a2 = app + input.take(k as int);
        let data = if p[1] & 0x80 != 0 { masked_bytes(a2, mask) } else { a2 };
        &&& r == Ok::<Option<FrameSpec>, Error>(Some(frame_of(p, data)))
        &&& stage2 == 0
        &&& app2 == Seq::<u8>::empty()
        &&& pos2 == 0
        &&& rest == input.skip(k as int)
    }
}

/// What one call of `decode` does, from the stage the codec was at, the
/// header bytes `p` it had taken, the payload bytes `app` it had kept and
/// the validated position `pos`, on the buffer `input`; to the result `r`,
/// the codec's new stage, header bytes, payload bytes and position, and
/// the bytes `rest` left in the buffer.
pub open spec fn decode_post(
    c: CodecConfig,
    stage: nat,
    p: Seq<u8>,
    app: Seq<u8>,
    pos: nat,
    input: Seq<u8>,
    r: Result<Option<FrameSpec>, Error>,
    stage2: nat,
    p2: Seq<u8>,
    app2: Seq<u8>,
    pos2: nat,
    rest: Seq<u8>,
) -> bool {
    if input.len() == 0 {
        &&& r == Ok::<Option<FrameSpec>, Error>(None)
        &&& stage2 == stage
        &&& p2 == p
        &&& app2 == app
        &&& pos2 == pos
        &&& rest == input
    } else {
        let all = p + input;
        match header_outcome(c, all, stage) {
            HeaderOutcome::NeedMore => {
                &&& r == Ok::<Option<FrameSpec>, Error>(None)
                &&& stage2 < 3
                &&& p2 + rest == all
                &&& app2 == app
                &&& pos2 == pos
            },
            HeaderOutcome::Fail(e, k, s2) => {
                &&& r == Err::<Option<FrameSpec>, Error>(e)
                &&& stage2 == s2
                &&& p2 == (if s2 == 0 { Seq::<u8>::empty() } else { all.take(k as int) })
                &&& rest == all.skip(k as int)
                &&& app2 == app
                &&& pos2 == pos
            },
            HeaderOutcome::Ready(h) => {
                &&& p2 == (if stage2 == 0 { Seq::<u8>::empty() } else { all.take(h as int) })
                &&& payload_post(
                    all.take(h as int),
                    app,
                    pos,
                    all.skip(h as int),
                    r,
                    stage2,
                    app2,
                    pos2,
                    rest,
                )
            },
        }
    }
}

// Codec //////////////////////////////////////////////////////////////////////

/// Indicates the state of the decoding process for this frame.
#[derive(Debug, Clone, Copy, PartialEq, Eq, Structural)]
pub enum DecodeState {
    /// None of the frame has been decoded.
    Initial,
    /// The header has been decoded.
    Header,
    /// The length has been decoded.
    Length,
    /// The mask has been decoded.
    Mask,
    /// The decoding is complete.
    Full,
}

/// The number of a decode state: 0 for `None` up to 4 for `Full`.
pub open spec fn stage_number(s: DecodeState) -> nat {
    match s {
        DecodeState::Initial => 0,
        DecodeState::Header => 1,
        DecodeState::Length => 2,
        DecodeState::Mask => 3,
        DecodeState::Full => 4,
    }
}

/// Codec for encoding/decoding websocket base frames.
pub struct FrameCodec {
    /// Is this a client frame?
    client: bool,
    /// The `fin` flag.
    fin: bool,
    /// The `rsv1` flag.
    rsv1: bool,
    /// The `rsv2` flag.
    rsv2: bool,
    /// The `rsv3` flag.
    rsv3: bool,
    /// The `opcode`
    opcode: OpCode,
    /// The `masked` flag
    masked: bool,
    /// The length code.
    length_code: u8,
    /// The `payload_length`
    payload_length: u64,
    /// The optional `mask`
    mask_key: u32,
    /// The `application_data`
    application_data: BytesMut,
    /// The position in the application_data that we have validated in a text frame.
    pos: usize,
    /// Decode state
    state: DecodeState,
    /// Bits reserved by extensions.
    reserved_bits: u8,
    /// The header bytes of the current frame taken so far.
    header_bytes: Ghost<Seq<u8>>,
}

/// The codec used by a server, or by a client.
pub type BaseCodec = FrameCodec;

impl View for FrameCodec {
    type V = CodecConfig;

    closed spec fn view(&self) -> CodecConfig {
        CodecConfig { client: self.client, reserved_bits: self.reserved_bits }
    }
}

impl FrameCodec {
    /// The stage decoding has reached (0 for `None` up to 4 for `Full`).
    pub closed spec fn stage(&self) -> nat {
        stage_number(self.state)
    }

    /// The header bytes of the current frame taken so far.
    pub closed spec fn pending(&self) -> Seq<u8> {
        self.header_bytes@
    }

    /// The raw payload bytes of the current frame kept so far.
    pub closed spec fn app(&self) -> Seq<u8> {
        bytes_of(self.application_data)
    }

    /// The position up to which the kept text has been found valid.
    pub closed spec fn pos(&self) -> nat {
        self.pos as nat
    }

    /// The fields agree with the header bytes taken.
    pub closed spec fn wf(&self) -> bool {
        let p = self.header_bytes@;
        let fields_agree = {
            &&& p.len() >= 2
            &&& self.fin == (p[0] & 0x80 != 0)
            &&& self.rsv1 == (p[0] & 0x40 != 0)
            &&& self.rsv2 == (p[0] & 0x20 != 0)
            &&& self.rsv3 == (p[0] & 0x10 != 0)
            &&& self.opcode == opcode_of_number(p[0] & 0x0F).unwrap()
            &&& self.masked == (p[1] & 0x80 != 0)
            &&& self.length_code == p[1] & 0x7F
        };
        &&& match self.state {
            DecodeState::Initial => p.len() == 0 && bytes_of(self.application_data).len() == 0
                && self.pos == 0,
            DecodeState::Header => fields_agree && p.len() == 2 && bytes_of(
                self.application_data,
            ).len() == 0 && self.pos == 0,
            DecodeState::Length => {
                &&& fields_agree
                &&& self.pos == 0
                &&& p.len() == length_end(p)
                &&& self.payload_length == announced_len(p)
                &&& bytes_of(self.application_data).len() == 0
            },
            DecodeState::Mask => {
                &&& fields_agree
                &&& p.len() == header_end(p)
                &&& self.payload_length == announced_len(p)
                &&& self.mask_key == header_mask(p)
                &&& self.pos <= bytes_of(self.application_data).len()
                &&& (bytes_of(self.application_data).len() < self.payload_length
                    || bytes_of(self.application_data).len() == 0)
            },
            // A complete frame is handed out and the codec starts over, so it
            // never rests here.
            DecodeState::Full => false,
        }
    }

    /// A codec that has decoded nothing yet, for a server, with no reserved bits.
    pub fn new() -> (r: Self)
        ensures
            r.wf(),
            r@ == (CodecConfig { client: false, reserved_bits: 0 }),
            r.stage() == 0,
            r.pending() == Seq::<u8>::empty(),
            r.app() == Seq::<u8>::empty(),
            r.pos() == 0,
    {
        FrameCodec {
            client: false,
            fin: false,
            rsv1: false,
            rsv2: false,
            rsv3: false,
            opcode: OpCode::Continue,
            masked: false,
            length_code: 0,
            payload_length: 0,
            mask_key: 0,
            application_data: new_bytes(),
            pos: 0,
            state: DecodeState::Initial,
            reserved_bits: 0,
            header_bytes: Ghost(Seq::empty()),
        }
    }

    /// Set the `client` flag.
    pub fn set_client(&mut self, client: bool) -> (r: &mut FrameCodec)
        requires
            old(self).wf(),
        ensures
            r@ == (CodecConfig { client, ..old(self)@ }),
            r.wf(),
            r.stage() == old(self).stage(),
            r.pending() == old(self).pending(),
            r.app() == old(self).app(),
            r.pos() == old(self).pos(),
            *final(self) == *final(r),
    {
        self.client = client;
        self
    }

    /// Set the bits reserved by extensions (4 for rsv1, 2 for rsv2, 1 for rsv3).
    pub fn set_reserved_bits(&mut self, reserved_bits: u8) -> (r: &mut FrameCodec)
        requires
            old(self).wf(),
        ensures
            r@ == (CodecConfig { reserved_bits, ..old(self)@ }),
            r.wf(),
            r.stage() == old(self).stage(),
            r.pending() == old(self).pending(),
            r.app() == old(self).app(),
            r.pos() == old(self).pos(),
            *final(self) == *final(r),
    {
        self.reserved_bits = reserved_bits;
        self
    }
}

proof fn lemma_low_nibble(b0: u8)
    ensures
        (b0 & 0x0F) < 16,
        opcode_of_number(b0 & 0x0F) is Some,
{
    assert((b0 & 0x0F) < 16) by (bit_vector);
}

impl FrameCodec {
    /// Reading the header goes on from `all`, of which `input` is left in
    /// the buffer; the outcome owed is the one with the checks at `stage0`
    /// made already.
    spec fn hdr_progress(&self, c: CodecConfig, input: Seq<u8>, all: Seq<u8>, stage0: nat) -> bool {
        &&& self.wf()
        &&& self@ == c
        &&& self.stage() < 4
        &&& self.header_bytes@ + input == all
        &&& self.app().len() == 0 || self.stage() == 3
        &&& header_outcome(c, all, self.stage()) == header_outcome(c, all, stage0)
        &&& (self.stage() == 3 ==> header_outcome(c, all, stage0) == HeaderOutcome::Ready(
            self.header_bytes@.len(),
        ))
    }

    /// A step of reading the header that ended the call: the result and the
    /// state after it are as `decode_post` says for a header that is not
    /// complete or has failed a check.
    spec fn hdr_finished(
        &self,
        c: CodecConfig,
        rest: Seq<u8>,
        all: Seq<u8>,
        stage0: nat,
        app0: Seq<u8>,
        pos0: nat,
        r: Result<Option<Frame>, Error>,
    ) -> bool {
        &&& self.wf()
        &&& self@ == c
        &&& self.app() == app0
        &&& self.pos() == pos0
        &&& match header_outcome(c, all, stage0) {
            HeaderOutcome::NeedMore => {
                &&& r == Ok::<Option<Frame>, Error>(None)
                &&& self.stage() < 3
                &&& self.pending() + rest == all
            },
            HeaderOutcome::Fail(e, k, s2) => {
                &&& r == Err::<Option<Frame>, Error>(e)
                &&& self.stage() == s2
                &&& self.pending() == (if s2 == 0 {
                    Seq::<u8>::empty()
                } else {
                    all.take(k as int)
                })
                &&& rest == all.skip(k as int)
            },
            HeaderOutcome::Ready(_) => false,
        }
    }

    /// Decode the first two header bytes.
    fn decode_start(
        &mut self,
        buf: &mut BytesMut,
        Ghost(c): Ghost<CodecConfig>,
        Ghost(all): Ghost<Seq<u8>>,
        Ghost(stage0): Ghost<nat>,
    ) -> (r: Option<Result<Option<Frame>, Error>>)
        requires
            old(self).hdr_progress(c, bytes_of(*old(buf)), all, stage0),
            old(self).state == DecodeState::Initial,
        ensures
            r matches Some(res) ==> final(self).hdr_finished(
                c,
                bytes_of(*final(buf)),
                all,
                stage0,
                old(self).app(),
                old(self).pos(),
                res,
            ),
            r is None ==> final(self).hdr_progress(c, bytes_of(*final(buf)), all, stage0)
                && final(self).stage() > old(self).stage(),
            final(self).app() == old(self).app(),
            final(self).pos() == old(self).pos(),
    {
        if bytes_len(buf) < 2 {
            return Some(Ok(None));
        }
        let header = split_bytes_to(buf, 2);
        let first = byte_at(&header, 0);
        let second = byte_at(&header, 1);
        proof {
            lemma_low_nibble(first);
            assert(all[0] == first && all[1] == second);
            assert(bytes_of(*buf) =~= all.skip(2));
            assert(self.header_bytes@ =~= Seq::<u8>::empty());
        }
        self.fin = first & 0x80 != 0;
        self.rsv1 = first & 0x40 != 0;
        if self.rsv1 && (self.reserved_bits & 0x4 == 0) {
            proof {
                assert(start_error(c, all[0], all[1]) == Some(Error::InvalidRsv1));
                assert(header_outcome(c, all, 0) == HeaderOutcome::Fail(Error::InvalidRsv1, 2, 0));
            }
            return Some(Err(Error::InvalidRsv1));
        }
        self.rsv2 = first & 0x20 != 0;
        if self.rsv2 && (self.reserved_bits & 0x2 == 0) {
            proof {
                assert(start_error(c, all[0], all[1]) == Some(Error::InvalidRsv2));
                assert(header_outcome(c, all, 0) == HeaderOutcome::Fail(Error::InvalidRsv2, 2, 0));
            }
            return Some(Err(Error::InvalidRsv2));
        }
        self.rsv3 = first & 0x10 != 0;
        if self.rsv3 && (self.reserved_bits & 0x1 == 0) {
            proof {
                assert(start_error(c, all[0], all[1]) == Some(Error::InvalidRsv3));
                assert(header_outcome(c, all, 0) == HeaderOutcome::Fail(Error::InvalidRsv3, 2, 0));
            }
            return Some(Err(Error::InvalidRsv3));
        }
        self.opcode = match OpCode::try_from(first & 0x0F) {
            Ok(op) => op,
            Err(_) => OpCode::Reserved,
        };
        if self.opcode == OpCode::Reserved {
            proof {
                assert(start_error(c, all[0], all[1]) == Some(Error::InvalidOpCode));
                assert(header_outcome(c, all, 0) == HeaderOutcome::Fail(Error::InvalidOpCode, 2, 0));
            }
            return Some(Err(Error::InvalidOpCode));
        }
        if self.opcode.is_control() && !self.fin {
            proof {
                assert(start_error(c, all[0], all[1]) == Some(Error::FragmentedControl));
                assert(header_outcome(c, all, 0) == HeaderOutcome::Fail(Error::FragmentedControl, 2, 0));
            }
            return Some(Err(Error::FragmentedControl));
        }
        self.masked = second & 0x80 != 0;
        if !self.masked && !self.client {
            proof {
                assert(start_error(c, all[0], all[1]) == Some(Error::MissingMask));
                assert(header_outcome(c, all, 0) == HeaderOutcome::Fail(Error::MissingMask, 2, 0));
            }
            return Some(Err(Error::MissingMask));
        }
        self.length_code = second & 0x7F;
        self.header_bytes = Ghost(bytes_of(header));
        proof {
            assert(start_error(c, first, second) is None);
            assert(bytes_of(header) =~= all.take(2));
            assert(self.header_bytes@ + bytes_of(*buf) =~= all);
        }
        self.state = DecodeState::Header;
        None
    }

    /// Decode the extended payload length, if any.
    fn decode_length(
        &mut self,
        buf: &mut BytesMut,
        Ghost(c): Ghost<CodecConfig>,
        Ghost(all): Ghost<Seq<u8>>,
        Ghost(stage0): Ghost<nat>,
    ) -> (r: Option<Result<Option<Frame>, Error>>)
        requires
            old(self).hdr_progress(c, bytes_of(*old(buf)), all, stage0),
            old(self).state == DecodeState::Header,
        ensures
            r matches Some(res) ==> final(self).hdr_finished(
                c,
                bytes_of(*final(buf)),
                all,
                stage0,
                old(self).app(),
                old(self).pos(),
                res,
            ),
            r is None ==> final(self).hdr_progress(c, bytes_of(*final(buf)), all, stage0)
                && final(self).stage() > old(self).stage(),
            final(self).app() == old(self).app(),
            final(self).pos() == old(self).pos(),
    {
        let ghost p = self.header_bytes@;
        proof {
            assert(p =~= all.take(2));
            lemma_prefix_header(p, all);
        }
        if self.length_code == TWO_EXT {
            if bytes_len(buf) < 2 {
                return Some(Ok(None));
            }
            let len = read_be(buf, 0, 2);
            let ext = split_bytes_to(buf, 2);
            self.header_bytes = Ghost(self.header_bytes@ + bytes_of(ext));
            proof {
                assert(bytes_of(ext) =~= bytes_of(ext).subrange(0, 2));
                assert(self.header_bytes@.subrange(2, 4) =~= bytes_of(ext));
            }
            self.payload_length = len;
        } else if self.length_code == EIGHT_EXT {
            if bytes_len(buf) < 8 {
                return Some(Ok(None));
            }
            let len = read_be(buf, 0, 8);
            let ext = split_bytes_to(buf, 8);
            self.header_bytes = Ghost(self.header_bytes@ + bytes_of(ext));
            proof {
                assert(bytes_of(ext) =~= bytes_of(ext).subrange(0, 8));
                assert(self.header_bytes@.subrange(2, 10) =~= bytes_of(ext));
            }
            self.payload_length = len;
        } else {
            self.payload_length = self.length_code as u64;
        }
        self.state = DecodeState::Length;
        proof {
            let q = self.header_bytes@;
            assert(q[0] == p[0] && q[1] == p[1]);
            assert(q =~= all.take(q.len() as int));
            lemma_prefix_header(q, all);
            assert(q.len() == length_end(q));
            assert(self.payload_length == announced_len(q));
            assert(q + bytes_of(*buf) =~= all);
        }
        if self.payload_length > 125 && self.opcode.is_control() {
            proof {
                let q = self.header_bytes@;
                assert(header_outcome(c, all, 1) == HeaderOutcome::Fail(
                    Error::InvalidControlFrame,
                    length_end(all),
                    2,
                ));
                assert(q =~= all.take(length_end(all) as int));
                assert(bytes_of(*buf) =~= all.skip(length_end(all) as int));
            }
            return Some(Err(Error::InvalidControlFrame));
        }
        None
    }

    /// Decode the masking key, if any.
    fn decode_mask(
        &mut self,
        buf: &mut BytesMut,
        Ghost(c): Ghost<CodecConfig>,
        Ghost(all): Ghost<Seq<u8>>,
        Ghost(stage0): Ghost<nat>,
    ) -> (r: Option<Result<Option<Frame>, Error>>)
        requires
            old(self).hdr_progress(c, bytes_of(*old(buf)), all, stage0),
            old(self).state == DecodeState::Length,
        ensures
            r matches Some(res) ==> final(self).hdr_finished(
                c,
                bytes_of(*final(buf)),
                all,
                stage0,
                old(self).app(),
                old(self).pos(),
                res,
            ),
            r is None ==> final(self).hdr_progress(c, bytes_of(*final(buf)), all, stage0)
                && final(self).stage() > old(self).stage(),
            final(self).app() == old(self).app(),
            final(self).pos() == old(self).pos(),
    {
        let ghost p = self.header_bytes@;
        proof {
            assert(p =~= all.take(p.len() as int));
            lemma_prefix_header(p, all);
        }
        if self.masked {
            if bytes_len(buf) < 4 {
                return Some(Ok(None));
            }
            let m = read_be(buf, 0, 4);
            proof {
                lemma_be_value_bound(bytes_of(*buf).subrange(0, 4));
                lemma_pow256_values();
            }
            let mbytes = split_bytes_to(buf, 4);
            self.header_bytes = Ghost(self.header_bytes@ + bytes_of(mbytes));
            proof {
                let q = self.header_bytes@;
                assert(bytes_of(mbytes) =~= bytes_of(mbytes).subrange(0, 4));
                assert(q.subrange(p.len() as int, (p.len() + 4) as int) =~= bytes_of(mbytes));
                assert(q.subrange(0, p.len() as int) =~= p);
                assert(q =~= all.take(q.len() as int));
                lemma_prefix_header(q, all);
                assert(q[1] == p[1] && q[0] == p[0]);
                assert(header_mask(q) == m as u32);
                assert(announced_len(q) == announced_len(p));
            }
            self.mask_key = m as u32;
        } else {
            self.mask_key = 0;
        }
        self.state = DecodeState::Mask;
        proof {
            let q = self.header_bytes@;
            assert(q + bytes_of(*buf) =~= all);
            assert(q.len() == header_end(q));
            assert(q =~= all.take(q.len() as int));
            lemma_prefix_header(q, all);
            assert(header_outcome(c, all, 2) == HeaderOutcome::Ready(q.len()));
            assert(header_outcome(c, all, 3) == HeaderOutcome::Ready(q.len()));
        }
        None
    }

    /// Go back to the start once a frame has been handed out.
    fn start_over(&mut self)
        requires
            old(self).app() == Seq::<u8>::empty(),
        ensures
            final(self).wf(),
            final(self).stage() == 0,
            final(self).pending() == Seq::<u8>::empty(),
            final(self).app() == Seq::<u8>::empty(),
            final(self).pos() == 0,
            final(self)@ == old(self)@,
    {
        self.state = DecodeState::Initial;
        self.header_bytes = Ghost(Seq::empty());
        self.pos = 0;
    }

    /// Copy or take data from the codec and turn it into a frame.
    fn to_frame(&mut self) -> (r: Frame)
        requires
            old(self).header_bytes@.len() >= 2,
        ensures
            r@ == (FrameSpec {
                header: HeaderSpec {
                    fin: old(self).fin,
                    rsv1: old(self).rsv1,
                    rsv2: old(self).rsv2,
                    rsv3: old(self).rsv3,
                    masked: old(self).masked,
                    opcode: old(self).opcode,
                    mask: old(self).mask_key,
                },
                extension_data: Seq::empty(),
                application_data: old(self).app(),
            }),
            final(self).app() == Seq::<u8>::empty(),
            final(self).header_bytes == old(self).header_bytes,
            final(self).state == old(self).state,
            final(self).pos == old(self).pos,
            final(self)@ == old(self)@,
            final(self).fin == old(self).fin,
            final(self).rsv1 == old(self).rsv1,
            final(self).rsv2 == old(self).rsv2,
            final(self).rsv3 == old(self).rsv3,
            final(self).masked == old(self).masked,
            final(self).opcode == old(self).opcode,
            final(self).length_code == old(self).length_code,
            final(self).payload_length == old(self).payload_length,
            final(self).mask_key == old(self).mask_key,
    {
        let mut header = Header::new(self.opcode);
        header.set_fin(self.fin);
        header.set_rsv1(self.rsv1);
        header.set_rsv2(self.rsv2);
        header.set_rsv3(self.rsv3);
        header.set_masked(self.masked);
        header.set_mask(self.mask_key);
        let n = bytes_len(&self.application_data);
        let data = split_bytes_to(&mut self.application_data, n);
        proof {
            assert(bytes_of(data) =~= old(self).app());
            assert(bytes_of(self.application_data) =~= Seq::<u8>::empty());
        }
        Frame::from_parts(header, new_bytes(), data)
    }
}

/// The model of what `decode` returns.
pub open spec fn result_view(r: Result<Option<Frame>, Error>) -> Result<Option<FrameSpec>, Error> {
    match r {
        Ok(Some(f)) => Ok(Some(f@)),
        Ok(None) => Ok(None),
        Err(e) => Err(e),
    }
}

impl FrameCodec {
    /// Decode the payload once the header is complete.
    #[verifier::rlimit(40)]
    fn decode_payload(&mut self, buf: &mut BytesMut) -> (r: Result<Option<Frame>, Error>)
        requires
            old(self).wf(),
            old(self).state == DecodeState::Mask,
        ensures
            final(self).wf(),
            final(self)@ == old(self)@,
            final(self).pending() == (if final(self).stage() == 0 {
                Seq::<u8>::empty()
            } else {
                old(self).pending()
            }),
            payload_post(
                old(self).pending(),
                old(self).app(),
                old(self).pos(),
                bytes_of(*old(buf)),
                result_view(r),
                final(self).stage(),
                final(self).app(),
                final(self).pos(),
                bytes_of(*final(buf)),
            ),
    {
        let ghost p = self.header_bytes@;
        let ghost app0 = self.app();
        proof {
            lemma_low_nibble(p[0]);
        }
        if self.payload_length == 0 {
            proof {
                assert(app0 =~= Seq::<u8>::empty());
            }
            let frame = self.to_frame();
            proof {
                assert(frame@ == frame_of(p, app0));
            }
            self.start_over();
            return Ok(Some(frame));
        }
        let app_len = bytes_len(&self.application_data);
        let n = bytes_len(buf);
        if n == 0 {
            return Ok(None);
        }
        if (n as u64) < self.payload_length - app_len as u64 {
            let chunk = split_bytes_to(buf, n);
            extend_bytes(&mut self.application_data, bytes_as_slice(&chunk));
            proof {
                assert(bytes_of(chunk) =~= bytes_of(*old(buf)));
                assert(bytes_of(*buf) =~= Seq::<u8>::empty());
            }
            if self.opcode == OpCode::Text {
                let mut v = vstd::slice::slice_to_vec(bytes_as_slice(&self.application_data));
                apply_mask_vec(&mut v, self.mask_key);
                let vlen = v.len();
                assert(self.pos <= vlen);
                match validate_utf8(v.as_slice(), self.pos) {
                    Utf8Validation::Complete(q) => {
                        self.pos = self.pos + q;
                    },
                    Utf8Validation::Incomplete(_, q) => {
                        self.pos = self.pos + q;
                    },
                    Utf8Validation::Invalid => {
                        return Err(Error::InvalidUtf8);
                    },
                }
            }
            return Ok(None);
        }
        let split_len = (self.payload_length - app_len as u64) as usize;
        let chunk = split_bytes_to(buf, split_len);
        extend_bytes(&mut self.application_data, bytes_as_slice(&chunk));
        let ghost a2 = self.app();
        proof {
            assert(bytes_of(chunk) =~= bytes_of(*old(buf)).take(split_len as int));
            assert(a2 =~= app0 + bytes_of(*old(buf)).take(split_len as int));
        }
        if self.masked {
            let total = bytes_len(&self.application_data);
            let raw = split_bytes_to(&mut self.application_data, total);
            let mut v = bytes_into_vec(raw);
            apply_mask_vec(&mut v, self.mask_key);
            self.application_data = bytes_from_slice(v.as_slice());
            proof {
                assert(bytes_of(raw) =~= a2);
            }
        }
        let ghost data = self.app();
        let frame = self.to_frame();
        proof {
            assert(frame@ == frame_of(p, data));
        }
        self.start_over();
        Ok(Some(frame))
    }

    /// Decode a base frame from the front of `buf`.
    ///
    /// The header and payload may arrive over several calls; the parts read
    /// are kept in the codec. Text that arrives in parts is checked for valid
    /// UTF-8 as it arrives. Once a frame is complete it is handed out and the
    /// codec is back at its start, so the next call decodes the next frame.
    pub fn decode(&mut self, buf: &mut BytesMut) -> (r: Result<Option<Frame>, Error>)
        requires
            old(self).wf(),
        ensures
            final(self).wf(),
            final(self)@ == old(self)@,
            decode_post(
                old(self)@,
                old(self).stage(),
                old(self).pending(),
                old(self).app(),
                old(self).pos(),
                bytes_of(*old(buf)),
                result_view(r),
                final(self).stage(),
                final(self).pending(),
                final(self).app(),
                final(self).pos(),
                bytes_of(*final(buf)),
            ),
    {
        if bytes_len(buf) == 0 {
            return Ok(None);
        }
        let ghost c = self@;
        let ghost all = self.header_bytes@ + bytes_of(*buf);
        let ghost stage0 = self.stage();
        let ghost app0 = self.app();
        let ghost pos0 = self.pos();
        proof {
            if self.state == DecodeState::Mask {
                let p = self.header_bytes@;
                assert(p =~= all.take(p.len() as int));
                lemma_prefix_header(p, all);
            }
        }
        while self.state != DecodeState::Mask
            invariant
                self.hdr_progress(c, bytes_of(*buf), all, stage0),
                c == old(self)@,
                stage0 == old(self).stage(),
                stage0 < 4,
                all == old(self).pending() + bytes_of(*old(buf)),
                app0 == old(self).app(),
                pos0 == old(self).pos(),
                self.app() == app0,
                self.pos() == pos0,
                bytes_of(*old(buf)).len() != 0,
                old(self).stage() != 4,
            decreases 3 - self.stage(),
        {
            let step = if self.state == DecodeState::Initial {
                self.decode_start(buf, Ghost(c), Ghost(all), Ghost(stage0))
            } else if self.state == DecodeState::Header {
                self.decode_length(buf, Ghost(c), Ghost(all), Ghost(stage0))
            } else {
                self.decode_mask(buf, Ghost(c), Ghost(all), Ghost(stage0))
            };
            match step {
                Some(r) => {
                    proof {
                        assert(result_view(r) == match r {
                            Ok(Some(f)) => Ok(Some(f@)),
                            Ok(None) => Ok::<Option<FrameSpec>, Error>(None),
                            Err(e) => Err(e),
                        });
                        assert(all == old(self).pending() + bytes_of(*old(buf)));
                        assert(self.app() == app0 && self.pos() == pos0);
                        assert(!(header_outcome(c, all, stage0) is Ready));
                        assert(self.hdr_finished(c, bytes_of(*buf), all, stage0, app0, pos0, r));
                    }
                    return r;
                },
                None => {},
            }
        }
        let ghost p = self.header_bytes@;
        proof {
            assert(p =~= all.take(p.len() as int));
            assert(bytes_of(*buf) =~= all.skip(p.len() as int));
        }
        self.decode_payload(buf)
    }
}

// Encoding ///////////////////////////////////////////////////////////////////

/// The first header byte: the fin and rsv flags and the opcode.
pub open spec fn first_byte(h: HeaderSpec) -> u8 {
    (((((if h.fin { 0x80u8 } else { 0u8 }) | (if h.rsv1 { 0x40u8 } else { 0u8 })) | (
    if h.rsv2 { 0x20u8 } else { 0u8 })) | (if h.rsv3 { 0x10u8 } else { 0u8 }))
        | opcode_number(h.opcode))
}

/// The bytes that encode a frame: the header, then the application data as
/// it is (this codec does not mask what it writes, and writes no extension
/// data).
pub open spec fn encode_spec(f: FrameSpec) -> Seq<u8> {
    seq![first_byte(f.header)] + crate::base::length_field(
        f.header.masked,
        f.application_data.len(),
    ) + (if f.header.masked {
        be_bytes(f.header.mask as nat, 4)
    } else {
        Seq::empty()
    }) + f.application_data
}

impl FrameCodec {
    /// Encode a frame and append its bytes to `buf`.
    #[verifier::rlimit(40)]
    pub fn encode(&mut self, msg: Frame, buf: &mut BytesMut) -> (r: Result<(), Error>)
        ensures
            r is Ok,
            bytes_of(*final(buf)) == bytes_of(*old(buf)) + encode_spec(msg@),
            *final(self) == *old(self),
    {
        let ghost f = msg@;
        let h = msg.header();
        let fin_bit: u8 = if h.is_fin() { 0x80 } else { 0 };
        let rsv1_bit: u8 = if h.is_rsv1() { 0x40 } else { 0 };
        let rsv2_bit: u8 = if h.is_rsv2() { 0x20 } else { 0 };
        let rsv3_bit: u8 = if h.is_rsv3() { 0x10 } else { 0 };
        let opcode: u8 = u8::from(h.opcode());
        let first_byte = fin_bit | rsv1_bit | rsv2_bit | rsv3_bit | opcode;
        push_byte(buf, first_byte);
        let ghost after_first = bytes_of(*buf);
        let mask_bit: u8 = if h.is_masked() { 0x80 } else { 0 };
        let data = msg.application_data();
        let len = data.len();
        proof {
            lemma_be_bytes_len(len as nat, 2);
            lemma_be_bytes_len(len as nat, 8);
        }
        if len < TWO_EXT as usize {
            push_byte(buf, mask_bit | len as u8);
        } else if len < 65536 {
            push_byte(buf, mask_bit | TWO_EXT);
            let ext = write_be(len as u64, 2);
            extend_bytes(buf, ext.as_slice());
        } else {
            push_byte(buf, mask_bit | EIGHT_EXT);
            let ext = write_be(len as u64, 8);
            extend_bytes(buf, ext.as_slice());
        }
        let ghost after_len = bytes_of(*buf);
        assert(after_len =~= after_first + crate::base::length_field(f.header.masked, len as nat));
        if h.is_masked() {
            let m = write_be(h.mask() as u64, 4);
            extend_bytes(buf, m.as_slice());
        }
        let ghost after_mask = bytes_of(*buf);
        if len > 0 {
            extend_bytes(buf, data);
        }
        assert(bytes_of(*buf) =~= after_mask + f.application_data);
        assert(bytes_of(*buf) =~= bytes_of(*old(buf)) + encode_spec(f));
        Ok(())
    }
}

// Laws ///////////////////////////////////////////////////////////////////////

/// A frame this codec's decoder accepts when it is configured with `c`:
/// the rsv flags set are reserved, a control frame is final and carries at
/// most 125 bytes, and a server only gets masked frames.
pub open spec fn frame_acceptable(c: CodecConfig, f: FrameSpec) -> bool {
    let h = f.header;
    let control = h.opcode == OpCode::Close || h.opcode == OpCode::Ping || h.opcode
        == OpCode::Pong;
    &&& h.rsv1 ==> c.reserved_bits & 4 != 0
    &&& h.rsv2 ==> c.reserved_bits & 2 != 0
    &&& h.rsv3 ==> c.reserved_bits & 1 != 0
    &&& control ==> h.fin && f.application_data.len() <= 125
    &&& h.masked || c.client
    &&& h.opcode != OpCode::Reserved
}

/// What decoding gives back for an encoded frame: the mask is zero unless
/// the frame is masked, there is no extension data, and since the encoder
/// writes the data as it is, a masked frame's data comes back xor-ed with
/// the mask.
pub open spec fn decoded_back(f: FrameSpec) -> FrameSpec {
    let h = f.header;
    FrameSpec {
        header: HeaderSpec { mask: if h.masked { h.mask } else { 0 }, ..h },
        extension_data: Seq::empty(),
        application_data: if h.masked {
            masked_bytes(f.application_data, h.mask)
        } else {
            f.application_data
        },
    }
}

proof fn lemma_first_byte_bits(h: HeaderSpec)
    requires
        h.opcode != OpCode::Reserved,
    ensures
        (first_byte(h) & 0x80 != 0) == h.fin,
        (first_byte(h) & 0x40 != 0) == h.rsv1,
        (first_byte(h) & 0x20 != 0) == h.rsv2,
        (first_byte(h) & 0x10 != 0) == h.rsv3,
        opcode_of_number(first_byte(h) & 0x0F) == Some(h.opcode),
{
    let n = opcode_number(h.opcode);
    let fin = h.fin;
    let r1 = h.rsv1;
    let r2 = h.rsv2;
    let r3 = h.rsv3;
    let b = first_byte(h);
    assert({
        &&& (b & 0x80 != 0) == fin
        &&& (b & 0x40 != 0) == r1
        &&& (b & 0x20 != 0) == r2
        &&& (b & 0x10 != 0) == r3
        &&& b & 0x0F == n
    }) by (bit_vector)
        requires
            n < 16,
            b == (((((if fin { 0x80u8 } else { 0u8 }) | (if r1 { 0x40u8 } else { 0u8 })) | (
            if r2 { 0x20u8 } else { 0u8 })) | (if r3 { 0x10u8 } else { 0u8 })) | n),
    ;
}

/// What `encode` writes, `decode` reads back: a fresh codec that decodes
/// the encoding of an acceptable frame, followed by any bytes, in one call,
/// returns the frame as `decoded_back` says, leaves exactly the bytes that
/// followed, and is fresh again, so the bytes that followed are decoded as
/// the next frame.
#[verifier::rlimit(60)]
pub proof fn lemma_encode_decode_roundtrip(
    c: CodecConfig,
    f: FrameSpec,
    more: Seq<u8>,
    r: Result<Option<FrameSpec>, Error>,
    stage2: nat,
    p2: Seq<u8>,
    app2: Seq<u8>,
    pos2: nat,
    rest: Seq<u8>,
)
    requires
        frame_acceptable(c, f),
        f.application_data.len() <= usize::MAX,
        decode_post(
            c,
            0,
            Seq::empty(),
            Seq::empty(),
            0,
            encode_spec(f) + more,
            r,
            stage2,
            p2,
            app2,
            pos2,
            rest,
        ),
    ensures
        r == Ok::<Option<FrameSpec>, Error>(Some(decoded_back(f))),
        rest == more,
        stage2 == 0,
        p2 == Seq::<u8>::empty(),
        app2 == Seq::<u8>::empty(),
        pos2 == 0,
{
    let h = f.header;
    let data = f.application_data;
    let len = data.len();
    let enc = encode_spec(f);
    let s = enc + more;
    let all = Seq::<u8>::empty() + s;
    assert(all =~= s);
    let code: u8 = if len < 126 { len as u8 } else if len <= 65535 { 126 } else { 127 };
    lemma_first_byte_bits(h);
    lemma_second_byte_bits(h.masked, code);
    lemma_be_bytes_len(len, 2);
    lemma_be_bytes_len(len, 8);
    lemma_be_bytes_len(h.mask as nat, 4);
    lemma_pow256_values();
    let mbytes = if h.masked { be_bytes(h.mask as nat, 4) } else { Seq::<u8>::empty() };
    assert(enc =~= seq![first_byte(h)] + crate::base::length_field(h.masked, len) + mbytes + data);
    assert(s[0] == first_byte(h));
    assert(s[1] == second_byte(h.masked, code));
    assert(start_error(c, s[0], s[1]) is None);
    assert(length_end(s) == 2 + ext_len(code));
    if len < 126 {
        assert(announced_len(s) == len);
    } else if len <= 65535 {
        assert(s.subrange(2, 4) =~= be_bytes(len, 2));
        lemma_be_value_of_bytes(len, 2);
        assert(announced_len(s) == len);
    } else {
        assert(s.subrange(2, 10) =~= be_bytes(len, 8));
        lemma_be_value_of_bytes(len, 8);
        assert(announced_len(s) == len);
    }
    let hl = header_end(s);
    assert(hl == 2 + ext_len(code) + mbytes.len());
    if h.masked {
        assert(s.subrange(length_end(s) as int, hl as int) =~= be_bytes(h.mask as nat, 4));
        lemma_be_value_of_bytes(h.mask as nat, 4);
        assert(header_mask(s) == h.mask);
    }
    assert(header_outcome(c, s, 0) == HeaderOutcome::Ready(hl));
    let p = s.take(hl as int);
    assert(p =~= s.take(hl as int));
    lemma_prefix_header(p, s);
    assert(header_of(p) == decoded_back(f).header);
    assert(s.skip(hl as int) =~= data + more);
    assert(announced_len(p) == len);
    assert((p[1] & 0x80 != 0) == h.masked);
    if len > 0 {
        assert((data + more).take(len as int) =~= data);
        assert((data + more).skip(len as int) =~= more);
        assert(Seq::<u8>::empty() + data =~= data);
        let d2 = if p[1] & 0x80 != 0 { masked_bytes(data, header_mask(p)) } else { data };
        assert(frame_of(p, d2) == decoded_back(f));
    } else {
        assert(data =~= Seq::<u8>::empty());
        assert(masked_bytes(data, h.mask) =~= Seq::<u8>::empty());
        assert(frame_of(p, Seq::<u8>::empty()) == decoded_back(f));
    }
}

} // verus!
