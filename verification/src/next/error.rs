//! The errors of the handshake codec.

use vstd::prelude::*;

verus! {

/// What can go wrong while reading a handshake head.
#[derive(Debug)]
pub enum Error {
    /// The head was read, but it is no valid handshake; the text says why.
    Invalid(String),
    /// The bytes are no HTTP head.
    Http,
    /// A header value that must be text is no UTF-8.
    Utf8,
}

/// An error, with its text as characters.
pub enum ErrorModel {
    Invalid(Seq<char>),
    Http,
    Utf8,
}

impl View for Error {
    type V = ErrorModel;

    open spec fn view(&self) -> ErrorModel {
        match self {
            Error::Invalid(s) => ErrorModel::Invalid(s@),
            Error::Http => ErrorModel::Http,
            Error::Utf8 => ErrorModel::Utf8,
        }
    }
}

} // verus!
