//! The server's handshake response.

use vstd::prelude::*;
use vstd::utf8::encode_utf8;
use crate::Nonce;
use crate::codec::http::{owned_header_models, ResponseHead, Version};
use crate::frame::handshake::{
    expect_header, get_all, get_first, header_check, header_text, header_values, lemma_first_at,
    lemma_push_keeps_text, lemma_visible_text, with_header, Invalid,
};
use crate::handshake::{first_named, lemma_first_named};
use crate::handshake::server::{accept_key, accept_value, base64_char};
use crate::util::str_eq;

verus! {

/// Websocket handshake response builder.
#[derive(Debug)]
pub struct Builder {
    response: ResponseHead,
    ws_key: Nonce,
}

/// The server's websocket handshake response.
#[derive(Debug)]
pub struct Response {
    response: ResponseHead,
    ws_key: Nonce,
}

/// The head of a response in the model: status, version and headers.
pub struct ResponseHeadModel {
    pub status: u16,
    pub version: Version,
    pub headers: Seq<(Seq<char>, Seq<u8>)>,
}

/// The model of a response head.
pub open spec fn response_head_model(h: ResponseHead) -> ResponseHeadModel {
    ResponseHeadModel {
        status: h.status,
        version: h.version,
        headers: owned_header_models(h.headers@),
    }
}

/// The head a server's answer to a key starts with: status 101 with
/// HTTP/1.1, `upgrade: websocket`, `connection: upgrade`, the key and its
/// accept value.
pub open spec fn accepting_head(key: Seq<char>) -> ResponseHeadModel {
    ResponseHeadModel {
        status: 101,
        version: Version::Http11,
        headers: seq![
            ("upgrade"@, encode_utf8("websocket"@)),
            ("connection"@, encode_utf8("upgrade"@)),
            ("sec-websocket-key"@, encode_utf8(key)),
            ("sec-websocket-accept"@, encode_utf8(accept_value(encode_utf8(key)))),
        ],
    }
}

/// A header with a name and the bytes of a text.
fn text_header(name: &str, value: &str) -> (r: (String, Vec<u8>))
    ensures
        r.0@ == name@,
        r.1@ == encode_utf8(value@),
{
    (name.to_owned(), vstd::slice::slice_to_vec(value.as_bytes()))
}

impl Builder {
    /// The response built so far.
    pub closed spec fn head(&self) -> ResponseHeadModel {
        response_head_model(self.response)
    }

    /// The key answered.
    pub closed spec fn key(&self) -> Seq<char> {
        self.ws_key.text()
    }

    /// Add a `sec-websocket-protocol` header.
    pub fn add_protocol(&mut self, proto: &str) -> (r: &mut Self)
        ensures
            r.head() == (ResponseHeadModel {
                headers: old(self).head().headers.push(
                    ("sec-websocket-protocol"@, encode_utf8(proto@)),
                ),
                ..old(self).head()
            }),
            r.key() == old(self).key(),
            *final(self) == *final(r),
            response_check(old(self).key(), old(self).head()) is Ok ==> response_check(
                r.key(),
                r.head(),
            ) is Ok,
    {
        self.response.headers.push(text_header("sec-websocket-protocol", proto));
        assert(self.head().headers =~= old(self).head().headers.push(
            ("sec-websocket-protocol"@, encode_utf8(proto@)),
        ));
        proof {
            if response_check(old(self).key(), old(self).head()) is Ok {
                lemma_check_survives_push(
                    old(self).key(),
                    old(self).head(),
                    ("sec-websocket-protocol"@, encode_utf8(proto@)),
                );
            }
        }
        self
    }

    /// Add a `sec-websocket-extensions` header.
    pub fn add_extension(&mut self, ext: &str) -> (r: &mut Self)
        ensures
            r.head() == (ResponseHeadModel {
                headers: old(self).head().headers.push(
                    ("sec-websocket-extensions"@, encode_utf8(ext@)),
                ),
                ..old(self).head()
            }),
            r.key() == old(self).key(),
            *final(self) == *final(r),
            response_check(old(self).key(), old(self).head()) is Ok ==> response_check(
                r.key(),
                r.head(),
            ) is Ok,
    {
        self.response.headers.push(text_header("sec-websocket-extensions", ext));
        assert(self.head().headers =~= old(self).head().headers.push(
            ("sec-websocket-extensions"@, encode_utf8(ext@)),
        ));
        proof {
            if response_check(old(self).key(), old(self).head()) is Ok {
                lemma_check_survives_push(
                    old(self).key(),
                    old(self).head(),
                    ("sec-websocket-extensions"@, encode_utf8(ext@)),
                );
            }
        }
        self
    }

    /// The response.
    pub fn finish(self) -> (r: Result<Response, Invalid>)
        ensures
            r matches Ok(q) && q.head() == self.head() && q.key() == self.key(),
    {
        Ok(Response { response: self.response, ws_key: self.ws_key })
    }
}

/// What a client's check of a handshake response gives: nothing, or the
/// message of the first check it fails (status 101 with HTTP/1.1,
/// `upgrade: websocket`, `connection: upgrade`, and a
/// `sec-websocket-accept` that is the accept value of the client's key).
pub open spec fn response_check(key: Seq<char>, h: ResponseHeadModel) -> Result<(), Seq<char>> {
    if h.version != Version::Http11 {
        Err("unsupported HTTP version"@)
    } else if h.status != 101 {
        Err("unexpected HTTP status code"@)
    } else if header_check(h.headers, "upgrade"@, "websocket"@) is Err {
        Err(header_check(h.headers, "upgrade"@, "websocket"@)->Err_0)
    } else if header_check(h.headers, "connection"@, "upgrade"@) is Err {
        Err(header_check(h.headers, "connection"@, "upgrade"@)->Err_0)
    } else {
        match header_text(h.headers, "sec-websocket-accept"@) {
            Err(msg) => Err(msg),
            Ok(theirs) => if theirs == encode_utf8(accept_value(encode_utf8(key))) {
                Ok(())
            } else {
                Err("invalid 'Sec-WebSocket-Accept' received"@)
            },
        }
    }
}

/// A header added to a response leaves the client's check of it as it
/// was, where it passed.
proof fn lemma_check_survives_push(key: Seq<char>, h: ResponseHeadModel, x: (Seq<char>, Seq<u8>))
    requires
        response_check(key, h) is Ok,
    ensures
        response_check(key, ResponseHeadModel { headers: h.headers.push(x), ..h }) == response_check(
            key,
            h,
        ),
{
    let hs = h.headers;
    lemma_first_named(hs, "upgrade"@);
    lemma_first_named(hs, "connection"@);
    lemma_first_named(hs, "sec-websocket-accept"@);
    lemma_push_keeps_text(hs, "upgrade"@, x);
    lemma_push_keeps_text(hs, "connection"@, x);
    lemma_push_keeps_text(hs, "sec-websocket-accept"@, x);
}

/// The head that accepts a key passes the check of a client with that key,
/// where the accept value is base64 text.
proof fn lemma_accepting_head_passes(key: Seq<char>)
    requires
        forall|i: int|
            0 <= i < accept_value(encode_utf8(key)).len() ==> base64_char(
                #[trigger] accept_value(encode_utf8(key))[i],
            ),
    ensures
        response_check(key, accepting_head(key)) == Ok::<(), Seq<char>>(()),
{
    reveal_strlit("upgrade");
    reveal_strlit("connection");
    reveal_strlit("sec-websocket-key");
    reveal_strlit("sec-websocket-accept");
    reveal_strlit("websocket");
    let hs = accepting_head(key).headers;
    let acc = accept_value(encode_utf8(key));
    lemma_visible_text("upgrade"@);
    lemma_visible_text("connection"@);
    lemma_visible_text("sec-websocket-key"@);
    lemma_visible_text("sec-websocket-accept"@);
    lemma_visible_text("websocket"@);
    assert forall|i: int| 0 <= i < acc.len() implies ' ' <= #[trigger] acc[i] <= '~' by {
        assert(base64_char(acc[i]));
    }
    lemma_visible_text(acc);
    lemma_first_at(hs, "upgrade"@, 0);
    lemma_first_at(hs, "connection"@, 1);
    lemma_first_at(hs, "sec-websocket-accept"@, 3);
}

impl Response {
    /// The response head.
    pub closed spec fn head(&self) -> ResponseHeadModel {
        response_head_model(self.response)
    }

    /// The key answered.
    pub closed spec fn key(&self) -> Seq<char> {
        self.ws_key.text()
    }

    /// A builder for the response that accepts the given key.
    pub fn accept(ws_key: Nonce) -> (r: Builder)
        ensures
            r.head() == accepting_head(ws_key.text()),
            r.key() == ws_key.text(),
            response_check(r.key(), r.head()) is Ok,
    {
        let accept = accept_key(ws_key.as_ref().as_bytes());
        let mut headers: Vec<(String, Vec<u8>)> = Vec::new();
        headers.push(text_header("upgrade", "websocket"));
        headers.push(text_header("connection", "upgrade"));
        headers.push(text_header("sec-websocket-key", ws_key.as_ref()));
        headers.push(text_header("sec-websocket-accept", accept.as_str()));
        let response = ResponseHead { status: 101, version: Version::Http11, headers };
        let r = Builder { response, ws_key };
        assert(r.head().headers =~= accepting_head(ws_key.text()).headers);
        proof {
            lemma_accepting_head_passes(ws_key.text());
        }
        r
    }

    /// Check a response received from the server to the given key (see
    /// `response_check`).
    pub fn new(ws_key: Nonce, response: ResponseHead) -> (r: Result<Self, Invalid>)
        ensures
            match response_check(ws_key.text(), response_head_model(response)) {
                Ok(()) => r matches Ok(q) && q.head() == response_head_model(response) && q.key()
                    == ws_key.text(),
                Err(msg) => r matches Err(e) && e.message() == msg,
            },
    {
        if response.version != Version::Http11 {
            return Err(Invalid::new("unsupported HTTP version"));
        }
        if response.status != 101 {
            return Err(Invalid::new("unexpected HTTP status code"));
        }
        match expect_header(&response.headers, "upgrade", "websocket") {
            Ok(()) => {},
            Err(e) => return Err(e),
        }
        match expect_header(&response.headers, "connection", "upgrade") {
            Ok(()) => {},
            Err(e) => return Err(e),
        }
        let theirs = match with_header(&response.headers, "sec-websocket-accept") {
            Ok(t) => t,
            Err(e) => return Err(e),
        };
        let ours = accept_key(ws_key.as_ref().as_bytes());
        let same = str_eq(ours.as_str(), theirs);
        proof {
            vstd::utf8::encode_utf8_decode_utf8(ours@);
            vstd::utf8::encode_utf8_decode_utf8(theirs@);
        }
        if !same {
            return Err(Invalid::new("invalid 'Sec-WebSocket-Accept' received"));
        }
        Ok(Response { response, ws_key })
    }

    /// The response head.
    pub fn as_http(&self) -> (r: &ResponseHead)
        ensures
            response_head_model(*r) == self.head(),
    {
        &self.response
    }

    /// The key answered.
    pub fn websocket_key(&self) -> (r: &Nonce)
        ensures
            r.text() == self.key(),
    {
        &self.ws_key
    }

    /// The values of the `sec-websocket-extensions` headers.
    pub fn websocket_extensions(&self) -> (r: Vec<&[u8]>)
        ensures
            r@.map_values(|v: &[u8]| v@) == header_values(
                self.head().headers,
                "sec-websocket-extensions"@,
            ),
    {
        get_all(&self.response.headers, "sec-websocket-extensions")
    }

    /// The value of the first `sec-websocket-protocol` header, if any.
    pub fn websocket_protocol(&self) -> (r: Option<&[u8]>)
        ensures
            match first_named(self.head().headers, "sec-websocket-protocol"@) {
                Some(i) => r matches Some(v) && v@ == self.head().headers[i].1,
                None => r is None,
            },
    {
        get_first(&self.response.headers, "sec-websocket-protocol")
    }
}

} // verus!
