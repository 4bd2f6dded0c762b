//! Per-message compression extensions: the traits an extension implements
//! to be set up from, and to answer, a `Sec-WebSocket-Extensions` header.

use vstd::prelude::*;

verus! {

/// Extensions are built from the `Sec-WebSocket-Extensions` headers.
pub trait FromHeader {
    /// Initialize the extension from the given `Sec-WebSocket-Extensions`
    /// header text.
    fn init(&mut self, header: &str);
}

/// Server-side extensions implement this to answer a request.
pub trait IntoResponse {
    /// The `Sec-WebSocket-Extensions` part of the response.
    fn response(&self) -> String;
}

} // verus!
