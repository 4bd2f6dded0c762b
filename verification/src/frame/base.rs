//! A websocket base frame (RFC 6455, section 5.2): its header and its
//! extension and application data.

use vstd::prelude::*;
use bytes::BytesMut;
use crate::buffer::{bytes_of, bytes_as_slice, bytes_from_slice, new_bytes};

verus! {

/// Operation codes defined in RFC 6455, section 5.2.
#[derive(Debug, Eq, PartialEq, Structural, Clone, Copy)]
pub enum OpCode {
    /// Indicates a continuation frame of a fragmented message.
    Continue,
    /// Indicates a text data frame.
    Text,
    /// Indicates a binary data frame.
    Binary,
    /// Indicates a close control frame.
    Close,
    /// Indicates a ping control frame.
    Ping,
    /// Indicates a pong control frame.
    Pong,
    /// Indicates a reserved op code.
    Reserved,
}

/// Close, Ping and Pong are the control opcodes.
pub open spec fn spec_is_control(op: OpCode) -> bool {
    op == OpCode::Close || op == OpCode::Ping || op == OpCode::Pong
}

impl OpCode {
    /// Is this a control opcode?
    pub fn is_control(self) -> (r: bool)
        ensures
            r == spec_is_control(self),
    {
        match self {
            OpCode::Close | OpCode::Ping | OpCode::Pong => true,
            _ => false,
        }
    }

    /// Is this opcode reserved?
    pub fn is_reserved(self) -> (r: bool)
        ensures
            r == (self == OpCode::Reserved),
    {
        match self {
            OpCode::Reserved => true,
            _ => false,
        }
    }
}

/// Error returned by `OpCode::try_from` if an unknown opcode number is encountered.
#[derive(Debug, PartialEq, Eq)]
pub struct UnknownOpCode(());

/// The one value of `UnknownOpCode`.
pub closed spec fn unknown_opcode() -> UnknownOpCode {
    UnknownOpCode(())
}

/// The opcode a 4-bit number stands for; numbers above 15 stand for none.
pub open spec fn opcode_of_number(val: u8) -> Option<OpCode> {
    if val == 0 {
        Some(OpCode::Continue)
    } else if val == 1 {
        Some(OpCode::Text)
    } else if val == 2 {
        Some(OpCode::Binary)
    } else if val == 8 {
        Some(OpCode::Close)
    } else if val == 9 {
        Some(OpCode::Ping)
    } else if val == 10 {
        Some(OpCode::Pong)
    } else if (3 <= val <= 7) || (11 <= val <= 15) {
        Some(OpCode::Reserved)
    } else {
        None
    }
}

/// The number an opcode is written as (3 for the reserved ones).
pub open spec fn opcode_number(op: OpCode) -> u8 {
    match op {
        OpCode::Continue => 0,
        OpCode::Text => 1,
        OpCode::Binary => 2,
        OpCode::Close => 8,
        OpCode::Ping => 9,
        OpCode::Pong => 10,
        OpCode::Reserved => 3,
    }
}

impl TryFrom<u8> for OpCode {
    type Error = UnknownOpCode;

    fn try_from(val: u8) -> (r: Result<OpCode, UnknownOpCode>) {
        match val {
            0 => Ok(OpCode::Continue),
            1 => Ok(OpCode::Text),
            2 => Ok(OpCode::Binary),
            8 => Ok(OpCode::Close),
            9 => Ok(OpCode::Ping),
            10 => Ok(OpCode::Pong),
            3 | 4 | 5 | 6 | 7 | 11 | 12 | 13 | 14 | 15 => Ok(OpCode::Reserved),
            _ => Err(UnknownOpCode(())),
        }
    }
}

impl vstd::std_specs::convert::TryFromSpecImpl<u8> for OpCode {
    open spec fn obeys_try_from_spec() -> bool {
        true
    }

    open spec fn try_from_spec(v: u8) -> Result<OpCode, UnknownOpCode> {
        match opcode_of_number(v) {
            Some(op) => Ok(op),
            None => Err(unknown_opcode()),
        }
    }
}

impl From<OpCode> for u8 {
    fn from(opcode: OpCode) -> (r: u8) {
        match opcode {
            OpCode::Continue => 0,
            OpCode::Text => 1,
            OpCode::Binary => 2,
            OpCode::Close => 8,
            OpCode::Ping => 9,
            OpCode::Pong => 10,
            OpCode::Reserved => 3,
        }
    }
}

impl vstd::std_specs::convert::FromSpecImpl<OpCode> for u8 {
    open spec fn obeys_from_spec() -> bool {
        true
    }

    open spec fn from_spec(v: OpCode) -> u8 {
        opcode_number(v)
    }
}

/// The header of a base frame.
#[derive(Debug, Clone, Copy)]
pub struct Header {
    /// The `fin` flag.
    fin: bool,
    /// The `rsv1` flag.
    rsv1: bool,
    /// The `rsv2` flag.
    rsv2: bool,
    /// The `rsv3` flag.
    rsv3: bool,
    /// The 'mask' flag.
    masked: bool,
    /// The `opcode`
    opcode: OpCode,
    /// The `mask`.
    mask: u32,
}

/// The model of a header: its flags, opcode and masking key.
pub struct HeaderSpec {
    pub fin: bool,
    pub rsv1: bool,
    pub rsv2: bool,
    pub rsv3: bool,
    pub masked: bool,
    pub opcode: OpCode,
    pub mask: u32,
}

impl View for Header {
    type V = HeaderSpec;

    closed spec fn view(&self) -> HeaderSpec {
        HeaderSpec {
            fin: self.fin,
            rsv1: self.rsv1,
            rsv2: self.rsv2,
            rsv3: self.rsv3,
            masked: self.masked,
            opcode: self.opcode,
            mask: self.mask,
        }
    }
}

impl Header {
    /// A header with the given opcode, all flags clear and mask zero.
    pub fn new(oc: OpCode) -> (r: Self)
        ensures
            r@ == (HeaderSpec {
                fin: false,
                rsv1: false,
                rsv2: false,
                rsv3: false,
                masked: false,
                opcode: oc,
                mask: 0,
            }),
    {
        Self { fin: false, rsv1: false, rsv2: false, rsv3: false, masked: false, opcode: oc, mask: 0 }
    }

    /// Get the `fin` flag.
    pub fn is_fin(&self) -> (r: bool)
        ensures
            r == self@.fin,
    {
        self.fin
    }

    /// Set the `fin` flag.
    pub fn set_fin(&mut self, fin: bool) -> (r: &mut Self)
        ensures
            r@ == (HeaderSpec { fin, ..old(self)@ }),
            *final(self) == *final(r),
    {
        self.fin = fin;
        self
    }

    /// Get the `rsv1` flag.
    pub fn is_rsv1(&self) -> (r: bool)
        ensures
            r == self@.rsv1,
    {
        self.rsv1
    }

    /// Set the `rsv1` flag.
    pub fn set_rsv1(&mut self, rsv1: bool) -> (r: &mut Self)
        ensures
            r@ == (HeaderSpec { rsv1, ..old(self)@ }),
            *final(self) == *final(r),
    {
        self.rsv1 = rsv1;
        self
    }

    /// Get the `rsv2` flag.
    pub fn is_rsv2(&self) -> (r: bool)
        ensures
            r == self@.rsv2,
    {
        self.rsv2
    }

    /// Set the `rsv2` flag.
    pub fn set_rsv2(&mut self, rsv2: bool) -> (r: &mut Self)
        ensures
            r@ == (HeaderSpec { rsv2, ..old(self)@ }),
            *final(self) == *final(r),
    {
        self.rsv2 = rsv2;
        self
    }

    /// Get the `rsv3` flag.
    pub fn is_rsv3(&self) -> (r: bool)
        ensures
            r == self@.rsv3,
    {
        self.rsv3
    }

    /// Set the `rsv3` flag.
    pub fn set_rsv3(&mut self, rsv3: bool) -> (r: &mut Self)
        ensures
            r@ == (HeaderSpec { rsv3, ..old(self)@ }),
            *final(self) == *final(r),
    {
        self.rsv3 = rsv3;
        self
    }

    /// Get the `masked` flag.
    pub fn is_masked(&self) -> (r: bool)
        ensures
            r == self@.masked,
    {
        self.masked
    }

    /// Set the `masked` flag.
    pub fn set_masked(&mut self, masked: bool) -> (r: &mut Self)
        ensures
            r@ == (HeaderSpec { masked, ..old(self)@ }),
            *final(self) == *final(r),
    {
        self.masked = masked;
        self
    }

    /// Get the `opcode`.
    pub fn opcode(&self) -> (r: OpCode)
        ensures
            r == self@.opcode,
    {
        self.opcode
    }

    /// Set the `opcode`
    pub fn set_opcode(&mut self, opcode: OpCode) -> (r: &mut Self)
        ensures
            r@ == (HeaderSpec { opcode, ..old(self)@ }),
            *final(self) == *final(r),
    {
        self.opcode = opcode;
        self
    }

    /// Get the `mask`.
    pub fn mask(&self) -> (r: u32)
        ensures
            r == self@.mask,
    {
        self.mask
    }

    /// Set the `mask`
    pub fn set_mask(&mut self, mask: u32) -> (r: &mut Self)
        ensures
            r@ == (HeaderSpec { mask, ..old(self)@ }),
            *final(self) == *final(r),
    {
        self.mask = mask;
        self
    }
}

/// Represents the parts of a base frame: its header, extension data and
/// application data.
#[derive(Debug)]
pub struct Frame {
    /// The frame header.
    header: Header,
    /// The optional extension data.
    extension_data: BytesMut,
    /// The optional application data.
    application_data: BytesMut,
}

/// The model of a frame: its header, extension data and application data.
pub struct FrameSpec {
    pub header: HeaderSpec,
    pub extension_data: Seq<u8>,
    pub application_data: Seq<u8>,
}

impl View for Frame {
    type V = FrameSpec;

    closed spec fn view(&self) -> FrameSpec {
        FrameSpec {
            header: self.header@,
            extension_data: bytes_of(self.extension_data),
            application_data: bytes_of(self.application_data),
        }
    }
}

impl Frame {
    /// A frame with the given header and no data.
    pub fn from(header: Header) -> (r: Self)
        ensures
            r@ == (FrameSpec {
                header: header@,
                extension_data: Seq::empty(),
                application_data: Seq::empty(),
            }),
    {
        Frame { header, extension_data: new_bytes(), application_data: new_bytes() }
    }

    /// A frame with the given header and data.
    pub fn from_parts(header: Header, extension_data: BytesMut, application_data: BytesMut) -> (r: Self)
        ensures
            r@ == (FrameSpec {
                header: header@,
                extension_data: bytes_of(extension_data),
                application_data: bytes_of(application_data),
            }),
    {
        Frame { header, extension_data, application_data }
    }

    /// Get the frame header.
    pub fn header(&self) -> (r: &Header)
        ensures
            r@ == self@.header,
    {
        &self.header
    }

    /// Get the `extension_data`.
    pub fn extension_data(&self) -> (r: &[u8])
        ensures
            r@ == self@.extension_data,
    {
        bytes_as_slice(&self.extension_data)
    }

    /// Set the `extension_data`.
    pub fn set_extension_data(&mut self, bytes: Vec<u8>) -> (r: &mut Self)
        ensures
            r@ == (FrameSpec { extension_data: bytes@, ..old(self)@ }),
            *final(self) == *final(r),
    {
        self.extension_data = bytes_from_slice(bytes.as_slice());
        self
    }

    /// Get the `application_data`
    pub fn application_data(&self) -> (r: &[u8])
        ensures
            r@ == self@.application_data,
    {
        bytes_as_slice(&self.application_data)
    }

    /// Set the `application_data`
    pub fn set_application_data(&mut self, bytes: Vec<u8>) -> (r: &mut Self)
        ensures
            r@ == (FrameSpec { application_data: bytes@, ..old(self)@ }),
            *final(self) == *final(r),
    {
        self.application_data = bytes_from_slice(bytes.as_slice());
        self
    }
}

} // verus!
