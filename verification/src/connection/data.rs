//! Websocket message payload data.

use vstd::prelude::*;
use bytes::BytesMut;
use crate::buffer::{bytes_len, bytes_of};

verus! {

/// Websocket message payload data.
#[derive(Debug, Clone)]
pub enum Data {
    /// Binary data.
    Binary(BytesMut),
    /// UTF-8 encoded data.
    Text(BytesMut),
}

impl Data {
    /// The bytes of the data.
    pub open spec fn bytes(&self) -> Seq<u8> {
        match self {
            Data::Binary(d) => bytes_of(*d),
            Data::Text(d) => bytes_of(*d),
        }
    }

    /// Is this binary data?
    pub fn is_binary(&self) -> (r: bool)
        ensures
            r == (*self is Binary),
    {
        if let Data::Binary(_) = self {
            true
        } else {
            false
        }
    }

    /// Is this UTF-8 encoded textual data?
    pub fn is_text(&self) -> (r: bool)
        ensures
            r == (*self is Text),
    {
        if let Data::Text(_) = self {
            true
        } else {
            false
        }
    }

    /// The data lengths in bytes.
    pub fn len(&self) -> (r: usize)
        ensures
            r == self.bytes().len(),
    {
        match self {
            Data::Binary(d) => bytes_len(d),
            Data::Text(d) => bytes_len(d),
        }
    }
}

} // verus!
