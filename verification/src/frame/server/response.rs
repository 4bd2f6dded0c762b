//! The server's handshake response to a client's request.

use vstd::prelude::*;
use vstd::utf8::encode_utf8;
use crate::codec::http::{ResponseHead, Version};
use crate::frame::handshake::Invalid;
use crate::frame::handshake::server::{accepting_head, response_head_model, ResponseHeadModel};
use crate::handshake::server::accept_key;

verus! {

/// Builder of the response that accepts a key.
#[derive(Debug)]
pub struct Builder(ResponseHead);

/// The server's handshake response.
#[derive(Debug)]
pub struct ServerHandshake(ResponseHead);

/// A header with a name and the bytes of a text.
fn text_header(name: &str, value: &str) -> (r: (String, Vec<u8>))
    ensures
        r.0@ == name@,
        r.1@ == encode_utf8(value@),
{
    (name.to_owned(), vstd::slice::slice_to_vec(value.as_bytes()))
}

impl Builder {
    /// The response built so far.
    pub closed spec fn head(&self) -> ResponseHeadModel {
        response_head_model(self.0)
    }

    /// A builder of the response that accepts `key`: status 101 with
    /// HTTP/1.1, `upgrade: websocket`, `connection: upgrade`, the key and
    /// its accept value.
    pub fn accept(key: &str) -> (r: Self)
        ensures
            r.head() == accepting_head(key@),
    {
        let accept = accept_key(key.as_bytes());
        let mut headers: Vec<(String, Vec<u8>)> = Vec::new();
        headers.push(text_header("upgrade", "websocket"));
        headers.push(text_header("connection", "upgrade"));
        headers.push(text_header("sec-websocket-key", key));
        headers.push(text_header("sec-websocket-accept", accept.as_str()));
        let r = Builder(ResponseHead { status: 101, version: Version::Http11, headers });
        assert(r.head().headers =~= accepting_head(key@).headers);
        r
    }

    /// Add a `sec-websocket-protocol` header.
    pub fn protocol(&mut self, proto: &str) -> (r: &mut Self)
        ensures
            r.head() == (ResponseHeadModel {
                headers: old(self).head().headers.push(
                    ("sec-websocket-protocol"@, encode_utf8(proto@)),
                ),
                ..old(self).head()
            }),
            *final(self) == *final(r),
    {
        self.0.headers.push(text_header("sec-websocket-protocol", proto));
        assert(self.head().headers =~= old(self).head().headers.push(
            ("sec-websocket-protocol"@, encode_utf8(proto@)),
        ));
        self
    }

    /// The response.
    pub fn finish(self) -> (r: Result<ServerHandshake, Invalid>)
        ensures
            r matches Ok(s) && s.head() == self.head(),
    {
        Ok(ServerHandshake(self.0))
    }
}

impl ServerHandshake {
    /// The response head.
    pub closed spec fn head(&self) -> ResponseHeadModel {
        response_head_model(self.0)
    }

    /// The response head.
    pub fn response(&self) -> (r: &ResponseHead)
        ensures
            response_head_model(*r) == self.head(),
    {
        &self.0
    }
}

} // verus!
