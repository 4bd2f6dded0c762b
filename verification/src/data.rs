//! Types describing various forms of payload data.

use vstd::prelude::*;
use vstd::utf8::valid_utf8;
use bytes::BytesMut;
use crate::buffer::{bytes_as_slice, bytes_of};

verus! {

/// Data received from the remote end.
#[derive(Debug, Clone)]
pub enum Incoming {
    /// Text or binary data.
    Data(Data),
    /// Data sent with a PONG control frame.
    Pong(Data),
}

impl Incoming {
    /// Is this text or binary data?
    pub fn is_data(&self) -> (r: bool)
        ensures
            r == (*self is Data),
    {
        if let Incoming::Data(_) = self {
            true
        } else {
            false
        }
    }

    /// Is this a PONG?
    pub fn is_pong(&self) -> (r: bool)
        ensures
            r == (*self is Pong),
    {
        if let Incoming::Pong(_) = self {
            true
        } else {
            false
        }
    }

    /// Is this text data?
    pub fn is_text(&self) -> (r: bool)
        ensures
            r == (*self matches Incoming::Data(d) && d@.0),
    {
        if let Incoming::Data(d) = self {
            d.is_text()
        } else {
            false
        }
    }

    /// Is this binary data?
    pub fn is_binary(&self) -> (r: bool)
        ensures
            r == (*self matches Incoming::Data(d) && !d@.0),
    {
        if let Incoming::Data(d) = self {
            d.is_binary()
        } else {
            false
        }
    }

    /// The data carried, text or binary data or the data of a PONG.
    pub open spec fn data(&self) -> Data {
        match self {
            Incoming::Data(d) => *d,
            Incoming::Pong(d) => *d,
        }
    }

    /// The bytes carried.
    pub fn as_ref(&self) -> (r: &[u8])
        ensures
            r@ == self.data()@.1,
    {
        match self {
            Incoming::Data(d) => d.as_ref(),
            Incoming::Pong(d) => d.as_ref(),
        }
    }

    /// The data carried.
    pub fn into_data(self) -> (r: Data)
        ensures
            r == self.data(),
    {
        match self {
            Incoming::Data(d) => d,
            Incoming::Pong(d) => d,
        }
    }
}

/// Application data.
#[derive(Debug, Clone)]
pub struct Data(DataRepr);

#[derive(Debug, Clone)]
enum DataRepr {
    /// Binary data.
    Binary(BytesMut),
    /// UTF-8 encoded data.
    Text(BytesMut),
}

impl View for Data {
    /// Whether the data is text, and its bytes.
    type V = (bool, Seq<u8>);

    closed spec fn view(&self) -> (bool, Seq<u8>) {
        match self.0 {
            DataRepr::Binary(b) => (false, bytes_of(b)),
            DataRepr::Text(b) => (true, bytes_of(b)),
        }
    }
}

impl Data {
    /// Create a new binary `Data` value.
    pub(crate) fn binary(b: BytesMut) -> (r: Self)
        ensures
            r@ == (false, bytes_of(b)),
    {
        Data(DataRepr::Binary(b))
    }

    /// Create a new textual `Data` value.
    pub(crate) fn text(b: BytesMut) -> (r: Self)
        requires
            valid_utf8(bytes_of(b)),
        ensures
            r@ == (true, bytes_of(b)),
    {
        Data(DataRepr::Text(b))
    }

    /// Is this binary data?
    pub fn is_binary(&self) -> (r: bool)
        ensures
            r == !self@.0,
    {
        if let DataRepr::Binary(_) = self.0 {
            true
        } else {
            false
        }
    }

    /// Is this UTF-8 encoded textual data?
    pub fn is_text(&self) -> (r: bool)
        ensures
            r == self@.0,
    {
        if let DataRepr::Text(_) = self.0 {
            true
        } else {
            false
        }
    }

    /// The bytes of the data.
    pub fn as_ref(&self) -> (r: &[u8])
        ensures
            r@ == self@.1,
    {
        match &self.0 {
            DataRepr::Binary(d) => bytes_as_slice(d),
            DataRepr::Text(d) => bytes_as_slice(d),
        }
    }
}

/// Wrapper which restricts the length of its byte slice to 125 bytes.
#[derive(Debug)]
pub struct ByteSlice125<'a>(&'a [u8]);

/// Error, if converting to `[ByteSlice125`] fails.
#[derive(Debug)]
pub struct SliceTooLarge(());

impl Clone for SliceTooLarge {
    fn clone(&self) -> (r: Self)
        ensures
            r == *self,
    {
        SliceTooLarge(())
    }
}

impl SliceTooLarge {
    /// The error message.
    pub fn to_string(&self) -> (r: String)
        ensures
            r@ == "Slice larger than 125 bytes"@,
    {
        "Slice larger than 125 bytes".to_owned()
    }
}

impl<'a> View for ByteSlice125<'a> {
    type V = Seq<u8>;

    closed spec fn view(&self) -> Seq<u8> {
        self.0@
    }
}

/// A slice of at most 125 bytes, the largest payload of a control frame.
pub open spec fn fits_125(s: Seq<u8>) -> bool {
    s.len() <= 125
}

/// The one value of `SliceTooLarge`.
pub closed spec fn slice_too_large() -> SliceTooLarge {
    SliceTooLarge(())
}

impl<'a> ByteSlice125<'a> {
    /// The wrapped slice holds at most 125 bytes.
    #[verifier::type_invariant]
    closed spec fn inv(self) -> bool {
        fits_125(self.0@)
    }

    /// The wrapped bytes.
    pub fn as_ref(&self) -> (r: &[u8])
        ensures
            r@ == self@,
            fits_125(r@),
    {
        proof {
            use_type_invariant(self);
        }
        self.0
    }
}

impl<'a> TryFrom<&'a [u8]> for ByteSlice125<'a> {
    type Error = SliceTooLarge;

    fn try_from(value: &'a [u8]) -> (r: Result<Self, Self::Error>) {
        if value.len() > 125 {
            Err(SliceTooLarge(()))
        } else {
            Ok(ByteSlice125(value))
        }
    }
}

impl<'a> vstd::std_specs::convert::TryFromSpecImpl<&'a [u8]> for ByteSlice125<'a> {
    open spec fn obeys_try_from_spec() -> bool {
        true
    }

    open spec fn try_from_spec(v: &'a [u8]) -> Result<ByteSlice125<'a>, SliceTooLarge> {
        if fits_125(v@) {
            Ok(wrap_125(v))
        } else {
            Err(slice_too_large())
        }
    }
}

/// The wrapper around a slice.
pub closed spec fn wrap_125<'a>(v: &'a [u8]) -> ByteSlice125<'a> {
    ByteSlice125(v)
}

/// The wrapper holds the bytes it was made from.
pub proof fn lemma_wrap_125<'a>(v: &'a [u8])
    ensures
        wrap_125(v)@ == v@,
{
}

} // verus!
