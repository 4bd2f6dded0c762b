//! An implementation of the RFC 6455 websocket protocol: base frame codecs,
//! handshake request and response checks, and the decisions a connection
//! makes on the frames it receives.

pub mod access_control;
pub mod base;
pub mod buffer;
pub mod codec;
pub mod connection;
pub mod data;
pub mod domain;
pub mod ext;
pub mod extension;
pub mod frame;
pub mod handshake;
pub mod next;
pub mod opcode;
pub mod proto;
pub mod util;

use vstd::prelude::*;
use bytes::BytesMut;
use crate::buffer::{bytes_as_slice, bytes_of};

verus! {

/// The nonce a client sends as its `Sec-WebSocket-Key`.
#[derive(Debug, Clone)]
pub struct Nonce(String);

impl Nonce {
    /// The text of the nonce.
    pub closed spec fn text(&self) -> Seq<char> {
        self.0@
    }

    /// Wrap a text as a nonce.
    pub fn wrap(s: String) -> (r: Nonce)
        ensures
            r.text() == s@,
    {
        Nonce(s)
    }

    /// The text of the nonce.
    pub fn as_ref(&self) -> (r: &str)
        ensures
            r@ == self.text(),
    {
        self.0.as_str()
    }
}

/// A parsing result.
#[derive(Debug, Clone)]
pub enum Parsing<T, N = ()> {
    /// Parsing completed.
    Done {
        /// The parsed value.
        value: T,
        /// The offset into the byte slice that has been consumed.
        offset: usize,
    },
    /// Parsing is incomplete and needs more data.
    NeedMore(N),
}

/// A buffer type used for implementing `Extension`s.
#[derive(Debug)]
pub enum Storage<'a> {
    /// A read-only shared byte slice.
    Shared(&'a [u8]),
    /// A mutable byte slice.
    Unique(&'a mut [u8]),
    /// An owned byte buffer.
    Owned(BytesMut),
}

impl<'a> Storage<'a> {
    /// The bytes held, however they are held.
    pub fn as_ref(&self) -> (r: &[u8])
        ensures
            match self {
                Storage::Shared(d) => r@ == d@,
                Storage::Unique(d) => r@ == d@,
                Storage::Owned(b) => r@ == bytes_of(*b),
            },
    {
        match self {
            Storage::Shared(d) => d,
            Storage::Unique(d) => d,
            Storage::Owned(b) => bytes_as_slice(b),
        }
    }
}

} // verus!
