//! The client's handshake request, as the server receives it.

use vstd::prelude::*;
use vstd::utf8::encode_utf8;
use crate::codec::http::{RequestHead, Version};
use crate::frame::handshake::{
    expect_header, get_all, header_check, header_text, header_values, lemma_first_at,
    lemma_push_keeps_text, lemma_visible_text, with_header, Invalid,
};
use crate::frame::handshake::client::{head_model, initial_head, RequestHeadModel};
use crate::handshake::lemma_first_named;
use crate::util::str_eq;

verus! {

/// A client's handshake request: first as received (`ClientHandshake<RequestHead>`),
/// then once its checks passed (`ClientHandshake<Validated>`).
#[derive(Debug)]
pub struct ClientHandshake<S = Validated>(S);

/// A request that passed the checks, with its key.
#[derive(Debug)]
pub struct Validated {
    request: RequestHead,
    ws_key: String,
}

/// What checking a request gives: its key, or the message of the first
/// check it fails (a GET request of HTTP/1.1 with `upgrade: websocket`,
/// `connection: upgrade`, `sec-websocket-version: 13` and a
/// `sec-websocket-key`). The host is not checked.
pub open spec fn validation(h: RequestHeadModel) -> Result<Seq<u8>, Seq<char>> {
    if h.method != "GET"@ {
        Err("request method != GET"@)
    } else if h.version != Version::Http11 {
        Err("unsupported HTTP version"@)
    } else if header_check(h.headers, "upgrade"@, "websocket"@) is Err {
        Err(header_check(h.headers, "upgrade"@, "websocket"@)->Err_0)
    } else if header_check(h.headers, "connection"@, "upgrade"@) is Err {
        Err(header_check(h.headers, "connection"@, "upgrade"@)->Err_0)
    } else if header_check(h.headers, "sec-websocket-version"@, "13"@) is Err {
        Err(header_check(h.headers, "sec-websocket-version"@, "13"@)->Err_0)
    } else {
        header_text(h.headers, "sec-websocket-key"@)
    }
}

/// A request a client builds for a key of visible ASCII characters passes
/// the server's validation, which finds that key in it.
pub proof fn lemma_built_request_validates(key: Seq<char>)
    requires
        forall|i: int| 0 <= i < key.len() ==> ' ' <= #[trigger] key[i] <= '~',
    ensures
        validation(initial_head(key)) == Ok::<Seq<u8>, Seq<char>>(encode_utf8(key)),
{
    reveal_strlit("GET");
    reveal_strlit("upgrade");
    reveal_strlit("connection");
    reveal_strlit("sec-websocket-version");
    reveal_strlit("sec-websocket-key");
    reveal_strlit("websocket");
    reveal_strlit("13");
    let hs = initial_head(key).headers;
    lemma_visible_text("upgrade"@);
    lemma_visible_text("connection"@);
    lemma_visible_text("sec-websocket-version"@);
    lemma_visible_text("sec-websocket-key"@);
    lemma_visible_text("websocket"@);
    lemma_visible_text("13"@);
    lemma_visible_text(key);
    lemma_first_at(hs, "upgrade"@, 0);
    lemma_first_at(hs, "connection"@, 1);
    lemma_first_at(hs, "sec-websocket-version"@, 2);
    lemma_first_at(hs, "sec-websocket-key"@, 3);
}

/// Headers added to a request that passes the validation leave what the
/// validation finds as it was.
pub proof fn lemma_validation_survives_push(h: RequestHeadModel, x: (Seq<char>, Seq<u8>))
    requires
        validation(h) is Ok,
    ensures
        validation(RequestHeadModel { headers: h.headers.push(x), ..h }) == validation(h),
{
    let hs = h.headers;
    lemma_first_named(hs, "upgrade"@);
    lemma_first_named(hs, "connection"@);
    lemma_first_named(hs, "sec-websocket-version"@);
    lemma_first_named(hs, "sec-websocket-key"@);
    lemma_push_keeps_text(hs, "upgrade"@, x);
    lemma_push_keeps_text(hs, "connection"@, x);
    lemma_push_keeps_text(hs, "sec-websocket-version"@, x);
    lemma_push_keeps_text(hs, "sec-websocket-key"@, x);
}

impl ClientHandshake<RequestHead> {
    /// The request as received.
    pub closed spec fn head(&self) -> RequestHeadModel {
        head_model(self.0)
    }

    /// Wrap a received request.
    pub fn new(r: RequestHead) -> (s: Self)
        ensures
            s.head() == head_model(r),
    {
        ClientHandshake(r)
    }

    /// The request head.
    pub fn request(&self) -> (r: &RequestHead)
        ensures
            head_model(*r) == self.head(),
    {
        &self.0
    }

    /// Check the request (see `validation`).
    pub fn validated(self) -> (r: Result<ClientHandshake<Validated>, Invalid>)
        ensures
            match validation(self.head()) {
                Ok(key) => r matches Ok(v) && v.head() == self.head() && encode_utf8(v.key())
                    == key,
                Err(msg) => r matches Err(e) && e.message() == msg,
            },
    {
        if !str_eq(self.0.method.as_str(), "GET") {
            return Err(Invalid::new("request method != GET"));
        }
        if self.0.version != Version::Http11 {
            return Err(Invalid::new("unsupported HTTP version"));
        }
        match expect_header(&self.0.headers, "upgrade", "websocket") {
            Ok(()) => {},
            Err(e) => return Err(e),
        }
        match expect_header(&self.0.headers, "connection", "upgrade") {
            Ok(()) => {},
            Err(e) => return Err(e),
        }
        match expect_header(&self.0.headers, "sec-websocket-version", "13") {
            Ok(()) => {},
            Err(e) => return Err(e),
        }
        let ws_key = match with_header(&self.0.headers, "sec-websocket-key") {
            Ok(k) => k.to_owned(),
            Err(e) => return Err(e),
        };
        Ok(ClientHandshake(Validated { request: self.0, ws_key }))
    }
}

impl ClientHandshake<Validated> {
    /// The request head.
    pub closed spec fn head(&self) -> RequestHeadModel {
        head_model(self.0.request)
    }

    /// The key of the request.
    pub closed spec fn key(&self) -> Seq<char> {
        self.0.ws_key@
    }

    /// The request head.
    pub fn request(&self) -> (r: &RequestHead)
        ensures
            head_model(*r) == self.head(),
    {
        &self.0.request
    }

    /// The key of the request.
    pub fn websocket_key(&self) -> (r: &str)
        ensures
            r@ == self.key(),
    {
        self.0.ws_key.as_str()
    }

    /// The values of the `sec-websocket-extensions` headers.
    pub fn websocket_extensions(&self) -> (r: Vec<&[u8]>)
        ensures
            r@.map_values(|v: &[u8]| v@) == header_values(
                self.head().headers,
                "sec-websocket-extensions"@,
            ),
    {
        get_all(&self.0.request.headers, "sec-websocket-extensions")
    }

    /// The values of the `sec-websocket-protocol` headers.
    pub fn websocket_protocols(&self) -> (r: Vec<&[u8]>)
        ensures
            r@.map_values(|v: &[u8]| v@) == header_values(
                self.head().headers,
                "sec-websocket-protocol"@,
            ),
    {
        get_all(&self.0.request.headers, "sec-websocket-protocol")
    }
}

} // verus!
