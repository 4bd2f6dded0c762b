//! The client's handshake request.

use vstd::prelude::*;
use vstd::utf8::encode_utf8;
use crate::Nonce;
use crate::codec::http::{owned_header_models, RequestHead, Version};
use crate::frame::handshake::{
    expect_header, get_all, header_check, header_text, header_values, with_header, Invalid,
};
use crate::util::str_eq;

verus! {

/// Websocket handshake request builder.
#[derive(Debug)]
pub struct Builder {
    request: RequestHead,
    ws_key: Nonce,
}

/// The client's websocket handshake request.
#[derive(Debug)]
pub struct Request {
    request: RequestHead,
    ws_key: Nonce,
}

/// The head of a request in the model: method, path, version and headers.
pub struct RequestHeadModel {
    pub method: Seq<char>,
    pub path: Seq<char>,
    pub version: Version,
    pub headers: Seq<(Seq<char>, Seq<u8>)>,
}

/// The model of a request head.
pub open spec fn head_model(h: RequestHead) -> RequestHeadModel {
    RequestHeadModel {
        method: h.method@,
        path: h.path@,
        version: h.version,
        headers: owned_header_models(h.headers@),
    }
}

/// The head a handshake request starts with: a GET request of `/` with
/// HTTP/1.1, `upgrade: websocket`, `connection: upgrade`,
/// `sec-websocket-version: 13` and the key.
pub open spec fn initial_head(key: Seq<char>) -> RequestHeadModel {
    RequestHeadModel {
        method: "GET"@,
        path: "/"@,
        version: Version::Http11,
        headers: seq![
            ("upgrade"@, encode_utf8("websocket"@)),
            ("connection"@, encode_utf8("upgrade"@)),
            ("sec-websocket-version"@, encode_utf8("13"@)),
            ("sec-websocket-key"@, encode_utf8(key)),
        ],
    }
}

/// A header with a name and the bytes of a text.
fn text_header(name: &str, value: &str) -> (r: (String, Vec<u8>))
    ensures
        r.0@ == name@,
        r.1@ == encode_utf8(value@),
{
    (name.to_owned(), vstd::slice::slice_to_vec(value.as_bytes()))
}

impl Builder {
    /// The request built so far.
    pub closed spec fn head(&self) -> RequestHeadModel {
        head_model(self.request)
    }

    /// The key of the request.
    pub closed spec fn key(&self) -> Seq<char> {
        self.ws_key.text()
    }

    /// Add a `sec-websocket-protocol` header.
    pub fn add_protocol(&mut self, proto: &str) -> (r: &mut Self)
        ensures
            r.head() == (RequestHeadModel {
                headers: old(self).head().headers.push(
                    ("sec-websocket-protocol"@, encode_utf8(proto@)),
                ),
                ..old(self).head()
            }),
            r.key() == old(self).key(),
            *final(self) == *final(r),
    {
        self.request.headers.push(text_header("sec-websocket-protocol", proto));
        assert(self.head().headers =~= old(self).head().headers.push(
            ("sec-websocket-protocol"@, encode_utf8(proto@)),
        ));
        self
    }

    /// Add a `sec-websocket-extensions` header.
    pub fn add_extension(&mut self, ext: &str) -> (r: &mut Self)
        ensures
            r.head() == (RequestHeadModel {
                headers: old(self).head().headers.push(
                    ("sec-websocket-extensions"@, encode_utf8(ext@)),
                ),
                ..old(self).head()
            }),
            r.key() == old(self).key(),
            *final(self) == *final(r),
    {
        self.request.headers.push(text_header("sec-websocket-extensions", ext));
        assert(self.head().headers =~= old(self).head().headers.push(
            ("sec-websocket-extensions"@, encode_utf8(ext@)),
        ));
        self
    }

    /// The request.
    pub fn finish(self) -> (r: Result<Request, Invalid>)
        ensures
            r matches Ok(q) && q.head() == self.head() && q.key() == self.key(),
    {
        Ok(Request { request: self.request, ws_key: self.ws_key })
    }
}

/// What checking a handshake request gives: its key, or the message of
/// the first check it fails (a GET request of HTTP/1.1 with a `host`
/// header, `upgrade: websocket`, `connection: upgrade`,
/// `sec-websocket-version: 13` and a `sec-websocket-key`).
pub open spec fn request_check(h: RequestHeadModel) -> Result<Seq<u8>, Seq<char>> {
    if h.method != "GET"@ {
        Err("request method != GET"@)
    } else if h.version != Version::Http11 {
        Err("unsupported HTTP version"@)
    } else if header_text(h.headers, "host"@) is Err {
        Err(header_text(h.headers, "host"@)->Err_0)
    } else if header_check(h.headers, "upgrade"@, "websocket"@) is Err {
        Err(header_check(h.headers, "upgrade"@, "websocket"@)->Err_0)
    } else if header_check(h.headers, "connection"@, "upgrade"@) is Err {
        Err(header_check(h.headers, "connection"@, "upgrade"@)->Err_0)
    } else if header_check(h.headers, "sec-websocket-version"@, "13"@) is Err {
        Err(header_check(h.headers, "sec-websocket-version"@, "13"@)->Err_0)
    } else {
        header_text(h.headers, "sec-websocket-key"@)
    }
}

impl Request {
    /// The request head.
    pub closed spec fn head(&self) -> RequestHeadModel {
        head_model(self.request)
    }

    /// The key of the request.
    pub closed spec fn key(&self) -> Seq<char> {
        self.ws_key.text()
    }

    /// A builder for a handshake request with the given key.
    pub fn builder(ws_key: Nonce) -> (r: Builder)
        ensures
            r.head() == initial_head(ws_key.text()),
            r.key() == ws_key.text(),
    {
        let mut headers: Vec<(String, Vec<u8>)> = Vec::new();
        headers.push(text_header("upgrade", "websocket"));
        headers.push(text_header("connection", "upgrade"));
        headers.push(text_header("sec-websocket-version", "13"));
        headers.push(text_header("sec-websocket-key", ws_key.as_ref()));
        let request = RequestHead {
            method: "GET".to_owned(),
            path: "/".to_owned(),
            version: Version::Http11,
            headers,
        };
        let r = Builder { request, ws_key };
        assert(r.head().headers =~= initial_head(ws_key.text()).headers);
        r
    }

    /// Check a request received from a client (see `request_check`).
    pub fn new(request: RequestHead) -> (r: Result<Self, Invalid>)
        ensures
            match request_check(head_model(request)) {
                Ok(key) => r matches Ok(q) && q.head() == head_model(request) && encode_utf8(
                    q.key(),
                ) == key,
                Err(msg) => r matches Err(e) && e.message() == msg,
            },
    {
        if !str_eq(request.method.as_str(), "GET") {
            return Err(Invalid::new("request method != GET"));
        }
        if request.version != Version::Http11 {
            return Err(Invalid::new("unsupported HTTP version"));
        }
        // The host is not validated.
        match with_header(&request.headers, "host") {
            Ok(_) => {},
            Err(e) => return Err(e),
        }
        match expect_header(&request.headers, "upgrade", "websocket") {
            Ok(()) => {},
            Err(e) => return Err(e),
        }
        match expect_header(&request.headers, "connection", "upgrade") {
            Ok(()) => {},
            Err(e) => return Err(e),
        }
        match expect_header(&request.headers, "sec-websocket-version", "13") {
            Ok(()) => {},
            Err(e) => return Err(e),
        }
        let ws_key = match with_header(&request.headers, "sec-websocket-key") {
            Ok(k) => Nonce::wrap(k.to_owned()),
            Err(e) => return Err(e),
        };
        Ok(Request { request, ws_key })
    }

    /// The request head.
    pub fn as_http(&self) -> (r: &RequestHead)
        ensures
            head_model(*r) == self.head(),
    {
        &self.request
    }

    /// The key of the request.
    pub fn websocket_key(&self) -> (r: &Nonce)
        ensures
            r.text() == self.key(),
    {
        &self.ws_key
    }

    /// The values of the `sec-websocket-extensions` headers.
    pub fn websocket_extensions(&self) -> (r: Vec<&[u8]>)
        ensures
            r@.map_values(|v: &[u8]| v@) == header_values(
                self.head().headers,
                "sec-websocket-extensions"@,
            ),
    {
        get_all(&self.request.headers, "sec-websocket-extensions")
    }

    /// The values of the `sec-websocket-protocol` headers.
    pub fn websocket_protocols(&self) -> (r: Vec<&[u8]>)
        ensures
            r@.map_values(|v: &[u8]| v@) == header_values(
                self.head().headers,
                "sec-websocket-protocol"@,
            ),
    {
        get_all(&self.request.headers, "sec-websocket-protocol")
    }
}

} // verus!
