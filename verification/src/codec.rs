//! Codecs for the websocket protocol: the handshake heads first, then base
//! frames.

pub mod base;
pub mod http;

use vstd::prelude::*;
use bytes::BytesMut;
use crate::Nonce;
use crate::buffer::{bytes_as_slice, bytes_of, extend_bytes};
use crate::frame::WebSocket;
use crate::frame::handshake::Invalid;
use crate::frame::handshake::client::{request_check, Request, RequestHeadModel};
use crate::frame::handshake::server::{response_check, Response, ResponseHeadModel};
use crate::handshake::server::status_reason;
use vstd::utf8::encode_utf8;
use self::base::{decode_post, BaseCodec};
use crate::frame::base::FrameSpec;
use self::http::{
    decimal_text, headers_text, parsed_request, parsed_response, version_of, RequestHeaderCodec, RequestModel,
    ResponseHeaderCodec, ResponseModel,
};

verus! {

/// Codec for use with the websocket protocol.
pub struct WebSocketCodec {
    /// The codec to use to decode the buffer into a base frame.
    base_codec: BaseCodec,
    /// The client-generated random nonce if any.
    nonce: Option<Nonce>,
    /// The handshake indicator.  If this is false, the handshake is not complete.
    handshake_complete: bool,
}

/// Errors of the websocket codec.
#[derive(Debug)]
pub enum Error {
    /// An HTTP head could not be read.
    Http(http::Error),
    /// A base frame could not be read.
    Base(base::Error),
    /// A handshake frame was refused.
    Invalid(Invalid),
}

/// A decode result of the base codec, as the base codec's contract sees it.
pub open spec fn base_view(r: Result<Option<WebSocket>, Error>) -> Result<
    Option<FrameSpec>,
    base::Error,
> {
    match r {
        Ok(Some(WebSocket::Base(f))) => Ok(Some(f@)),
        Err(Error::Base(e)) => Err(e),
        _ => Ok(None),
    }
}

/// The bytes of a request head: the request line with HTTP/1.1, each
/// header, and the empty line.
pub open spec fn request_head_text(h: RequestHeadModel) -> Seq<u8> {
    encode_utf8(h.method) + encode_utf8(" "@) + encode_utf8(h.path) + encode_utf8(" HTTP/1.1\r\n"@)
        + headers_text(h.headers) + encode_utf8("\r\n"@)
}

/// The bytes of a response head: the status line with HTTP/1.1, the status
/// code and its reason phrase (`N/A` for an unknown code), each header, and
/// the empty line.
pub open spec fn response_head_text(h: ResponseHeadModel) -> Seq<u8> {
    encode_utf8("HTTP/1.1 "@) + decimal_text(h.status as nat) + encode_utf8(
        match status_reason(h.status) {
            Some(reason) => reason,
            None => "N/A"@,
        },
    ) + encode_utf8("\r\n"@) + headers_text(h.headers) + encode_utf8("\r\n"@)
}

/// What reading the server's response to a key gives, given what the
/// response parser finds.
pub open spec fn response_answer(
    key: Seq<char>,
    m: ResponseModel,
    r: Result<Option<WebSocket>, Error>,
) -> bool {
    match m {
        ResponseModel::Partial => r matches Ok(None),
        ResponseModel::Invalid => r matches Err(Error::Http(http::Error::Parse)),
        ResponseModel::Complete { code, version, headers, .. } => match version_of(version->0) {
            None => r matches Err(Error::Http(http::Error::UnknownHttpVersion(n))) && n
                == version->0,
            Some(v) => {
                let head = crate::frame::handshake::server::ResponseHeadModel {
                    status: code->0,
                    version: v,
                    headers,
                };
                match response_check(key, head) {
                    Ok(()) => r matches Ok(Some(WebSocket::ServerResponse(q))) && q.head() == head
                        && q.key() == key,
                    Err(msg) => r matches Err(Error::Invalid(e)) && e.message() == msg,
                }
            },
        },
    }
}

/// What reading a client's request gives, given what the request parser
/// finds.
pub open spec fn request_answer(m: RequestModel, r: Result<Option<WebSocket>, Error>) -> bool {
    match m {
        RequestModel::Partial => r matches Ok(None),
        RequestModel::Invalid => r matches Err(Error::Http(http::Error::Parse)),
        RequestModel::Complete { method, path, version, headers, .. } => match version_of(
            version->0,
        ) {
            None => r matches Err(Error::Http(http::Error::UnknownHttpVersion(n))) && n
                == version->0,
            Some(v) => {
                let head = crate::frame::handshake::client::RequestHeadModel {
                    method: method->0,
                    path: path->0,
                    version: v,
                    headers,
                };
                match request_check(head) {
                    Ok(key) => r matches Ok(Some(WebSocket::ClientRequest(q))) && q.head() == head,
                    Err(msg) => r matches Err(Error::Invalid(e)) && e.message() == msg,
                }
            },
        },
    }
}

impl WebSocketCodec {
    /// Whether the handshake is complete.
    pub closed spec fn complete(&self) -> bool {
        self.handshake_complete
    }

    /// The key of a client that has not had its answer yet.
    pub closed spec fn key(&self) -> Option<Seq<char>> {
        match self.nonce {
            Some(n) => Some(n.text()),
            None => None,
        }
    }

    /// The base codec is well formed.
    pub closed spec fn wf(&self) -> bool {
        self.base_codec.wf()
    }

    /// The base codec.
    pub closed spec fn base(&self) -> BaseCodec {
        self.base_codec
    }

    /// A codec for a server: it reads the client's request first.
    pub fn server() -> (r: Self)
        ensures
            r.wf(),
            !r.complete(),
            r.key() is None,
    {
        WebSocketCodec { nonce: None, base_codec: BaseCodec::new(), handshake_complete: false }
    }

    /// A codec for a client with the given nonce: it reads the server's
    /// response first.
    pub fn client(nonce: Nonce) -> (r: Self)
        ensures
            r.wf(),
            !r.complete(),
            r.key() == Some(nonce.text()),
    {
        WebSocketCodec { nonce: Some(nonce), base_codec: BaseCodec::new(), handshake_complete: false }
    }

    /// Decode the next message: base frames once the handshake is complete,
    /// before that the server's response (on a client, which gives up its
    /// key on the first attempt) or the client's request (on a server). The
    /// handshake heads are read from the start of `buf`, which they leave
    /// as it is.
    pub fn decode(&mut self, buf: &mut BytesMut) -> (r: Result<Option<WebSocket>, Error>)
        requires
            old(self).wf(),
        ensures
            final(self).wf(),
            old(self).complete() ==> {
                &&& final(self).complete()
                &&& final(self).key() == old(self).key()
                &&& (r matches Ok(Some(WebSocket::Base(_)))) || (r matches Ok(None)) || (r matches Err(
                    Error::Base(_),
                ))
                &&& decode_post(
                    old(self).base()@,
                    old(self).base().stage(),
                    old(self).base().pending(),
                    old(self).base().app(),
                    old(self).base().pos(),
                    bytes_of(*old(buf)),
                    base_view(r),
                    final(self).base().stage(),
                    final(self).base().pending(),
                    final(self).base().app(),
                    final(self).base().pos(),
                    bytes_of(*final(buf)),
                )
            },
            !old(self).complete() ==> {
                &&& bytes_of(*final(buf)) == bytes_of(*old(buf))
                &&& final(self).base() == old(self).base()
                &&& final(self).key() is None
                &&& match old(self).key() {
                    Some(key) => {
                        &&& response_answer(key, parsed_response(bytes_of(*old(buf)), 64), r)
                        &&& final(self).complete() == (r matches Ok(Some(_)))
                    },
                    None => {
                        &&& request_answer(parsed_request(bytes_of(*old(buf)), 64), r)
                        &&& !final(self).complete()
                    },
                }
            },
    {
        if self.handshake_complete {
            return match self.base_codec.decode(buf) {
                Ok(Some(frame)) => Ok(Some(WebSocket::Base(frame))),
                Ok(None) => Ok(None),
                Err(e) => Err(Error::Base(e)),
            };
        }
        let nonce = self.nonce.take();
        match nonce {
            Some(nonce) => {
                // decode server response
                let mut codec = ResponseHeaderCodec::new();
                match codec.decode(bytes_as_slice(buf)) {
                    Ok(Some(http_resp)) => {
                        match Response::new(nonce, http_resp) {
                            Ok(r) => {
                                self.handshake_complete = true;
                                Ok(Some(WebSocket::ServerResponse(r)))
                            },
                            Err(e) => Err(Error::Invalid(e)),
                        }
                    },
                    Ok(None) => Ok(None),
                    Err(e) => Err(Error::Http(e)),
                }
            },
            None => {
                // decode client request
                let mut codec = RequestHeaderCodec::new();
                match codec.decode(bytes_as_slice(buf)) {
                    Ok(Some(http_req)) => {
                        match Request::new(http_req) {
                            Ok(r) => Ok(Some(WebSocket::ClientRequest(r))),
                            Err(e) => Err(Error::Invalid(e)),
                        }
                    },
                    Ok(None) => Ok(None),
                    Err(e) => Err(Error::Http(e)),
                }
            },
        }
    }

    /// Encode a message: a handshake request or response before the
    /// handshake is complete (a response completes it), base frames after.
    pub fn encode(&mut self, msg: WebSocket, buf: &mut BytesMut) -> (r: Result<(), Error>)
        requires
            old(self).wf(),
            msg is Base <==> old(self).complete(),
        ensures
            final(self).wf(),
            r is Ok,
            final(self).key() == old(self).key(),
            final(self).complete() == (old(self).complete() || msg is ServerResponse),
            msg matches WebSocket::Base(f) ==> bytes_of(*final(buf)) == bytes_of(*old(buf))
                + base::encode_spec(f@),
            msg matches WebSocket::ClientRequest(q) ==> bytes_of(*final(buf)) == bytes_of(
                *old(buf),
            ) + request_head_text(q.head()),
            msg matches WebSocket::ServerResponse(q) ==> bytes_of(*final(buf)) == bytes_of(
                *old(buf),
            ) + response_head_text(q.head()),
    {
        match msg {
            WebSocket::ClientRequest(request) => {
                let mut bytes: Vec<u8> = Vec::new();
                let mut codec = RequestHeaderCodec::new();
                codec.encode(request.as_http(), &mut bytes);
                extend_bytes(buf, bytes.as_slice());
                Ok(())
            },
            WebSocket::ServerResponse(response) => {
                let mut bytes: Vec<u8> = Vec::new();
                let mut codec = ResponseHeaderCodec::new();
                codec.encode(response.as_http(), &mut bytes);
                extend_bytes(buf, bytes.as_slice());
                self.handshake_complete = true;
                Ok(())
            },
            WebSocket::Base(frame) => {
                match self.base_codec.encode(frame, buf) {
                    Ok(()) => Ok(()),
                    Err(e) => Err(Error::Base(e)),
                }
            },
        }
    }
}

} // verus!
