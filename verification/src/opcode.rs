//! Operation codes of RFC 6455 with one variant for all reserved codes.

use vstd::prelude::*;

verus! {

/// Operation codes as part of rfc6455.
#[derive(Debug, Eq, PartialEq, Structural, Clone, Copy)]
pub enum OpCode {
    /// Indicates a continuation frame of a fragmented message.
    Continue,
    /// Indicates a text data frame.
    Text,
    /// Indicates a binary data frame.
    Binary,
    /// Indicates a close control frame.
    Close,
    /// Indicates a ping control frame.
    Ping,
    /// Indicates a pong control frame.
    Pong,
    /// Indicates a reserved op code.
    Reserved,
    /// Indicates an invalid opcode was received.
    Bad,
}

/// The opcode a number stands for.
pub open spec fn opcode_from_spec(val: u8) -> OpCode {
    if val == 0 {
        OpCode::Continue
    } else if val == 1 {
        OpCode::Text
    } else if val == 2 {
        OpCode::Binary
    } else if val == 8 {
        OpCode::Close
    } else if val == 9 {
        OpCode::Ping
    } else if val == 10 {
        OpCode::Pong
    } else if (3 <= val <= 7) || (11 <= val <= 15) {
        OpCode::Reserved
    } else {
        OpCode::Bad
    }
}

impl From<u8> for OpCode {
    fn from(val: u8) -> (r: OpCode) {
        match val {
            0 => OpCode::Continue,
            1 => OpCode::Text,
            2 => OpCode::Binary,
            8 => OpCode::Close,
            9 => OpCode::Ping,
            10 => OpCode::Pong,
            3 | 4 | 5 | 6 | 7 | 11 | 12 | 13 | 14 | 15 => OpCode::Reserved,
            _ => OpCode::Bad,
        }
    }
}

impl vstd::std_specs::convert::FromSpecImpl<u8> for OpCode {
    open spec fn obeys_from_spec() -> bool {
        true
    }

    open spec fn from_spec(v: u8) -> OpCode {
        opcode_from_spec(v)
    }
}

} // verus!
