//! Handshake requests and responses as plain values, and the codec that
//! reads them from the bytes of an HTTP head.

use vstd::prelude::*;
use vstd::string::StringExecFns;
use vstd::utf8::{decode_utf8, encode_utf8, valid_utf8};
use bytes::BytesMut;
use crate::buffer::{bytes_as_slice, bytes_of, split_bytes_to};
use crate::codec::http::{
    parse_request, parse_response, parsed_request, parsed_response, RequestModel, RequestParse,
    ResponseModel, ResponseParse,
};
use crate::handshake::{
    first_named, has_name, header_models, lemma_first_named, with_first_header, Header,
};
use crate::handshake::server::{accept_key, accept_value, strs_chars};
use crate::next::error::{Error, ErrorModel};
use crate::util::{bytes_eq, eq_ignore_ascii_case, eq_ignore_ascii_case_spec, str_eq, utf8_str};

verus! {

// Request ////////////////////////////////////////////////////////////////////

/// A websocket handshake request.
#[derive(Debug)]
pub struct Request {
    path: String,
    key: String,
    origin: Option<String>,
    protocols: Option<Vec<String>>,
    extensions: Option<Vec<String>>,
}

/// A request as plain values.
pub struct RequestView {
    pub path: Seq<char>,
    pub key: Seq<char>,
    pub origin: Option<Seq<char>>,
    pub protocols: Option<Seq<Seq<char>>>,
    pub extensions: Option<Seq<Seq<char>>>,
}

/// The characters of some strings.
pub open spec fn texts(v: Seq<String>) -> Seq<Seq<char>> {
    v.map_values(|s: String| s@)
}

/// The characters of an optional list of strings.
pub open spec fn opt_texts(o: Option<Vec<String>>) -> Option<Seq<Seq<char>>> {
    match o {
        Some(v) => Some(texts(v@)),
        None => None,
    }
}

/// The list an optional list stands for: itself, or no entry.
pub open spec fn listed(o: Option<Seq<Seq<char>>>) -> Seq<Seq<char>> {
    match o {
        Some(v) => v,
        None => Seq::empty(),
    }
}

impl View for Request {
    type V = RequestView;

    closed spec fn view(&self) -> RequestView {
        RequestView {
            path: self.path@,
            key: self.key@,
            origin: match self.origin {
                Some(o) => Some(o@),
                None => None,
            },
            protocols: opt_texts(self.protocols),
            extensions: opt_texts(self.extensions),
        }
    }
}

/// A copy of a list of strings.
fn copy_texts(v: &Vec<String>) -> (r: Vec<String>)
    ensures
        texts(r@) == texts(v@),
{
    let mut r: Vec<String> = Vec::new();
    let mut i: usize = 0;
    while i < v.len()
        invariant
            i <= v@.len(),
            texts(r@) == texts(v@.take(i as int)),
        decreases v@.len() - i,
    {
        r.push(v[i].clone());
        assert(texts(v@.take(i + 1)) =~= texts(v@.take(i as int)).push(v@[i as int]@));
        i = i + 1;
    }
    assert(v@.take(i as int) =~= v@);
    r
}

/// The entries of an optional list of strings.
fn entries(o: &Option<Vec<String>>) -> (r: Vec<String>)
    ensures
        texts(r@) == listed(opt_texts(*o)),
{
    match o {
        Some(v) => copy_texts(v),
        None => {
            let r: Vec<String> = Vec::new();
            assert(texts(r@) =~= Seq::<Seq<char>>::empty());
            r
        },
    }
}

impl Request {
    /// A request for `path` with the key `key`, without origin, protocols or
    /// extensions.
    pub fn new(path: String, key: String) -> (r: Self)
        ensures
            r@ == (RequestView {
                path: path@,
                key: key@,
                origin: None,
                protocols: None,
                extensions: None,
            }),
    {
        Request { path, key, origin: None, protocols: None, extensions: None }
    }

    /// The requested path.
    pub fn path(&self) -> (r: &str)
        ensures
            r@ == self@.path,
    {
        self.path.as_str()
    }

    /// The `Sec-WebSocket-Key` of the request.
    pub fn key(&self) -> (r: &str)
        ensures
            r@ == self@.key,
    {
        self.key.as_str()
    }

    /// The origin, if one is set.
    pub fn origin(&self) -> (r: Option<&str>)
        ensures
            match r {
                Some(o) => self@.origin == Some(o@),
                None => self@.origin is None,
            },
    {
        match &self.origin {
            Some(o) => Some(o.as_str()),
            None => None,
        }
    }

    /// Set the origin.
    pub fn set_origin(&mut self, o: String) -> (r: &mut Self)
        ensures
            r@ == (RequestView { origin: Some(o@), ..old(self)@ }),
            *final(self) == *final(r),
    {
        self.origin = Some(o);
        self
    }

    /// The extensions of the request: those set, or none.
    pub fn extensions(&self) -> (r: Vec<String>)
        ensures
            texts(r@) == listed(self@.extensions),
    {
        entries(&self.extensions)
    }

    /// Set the extensions.
    pub fn set_extensions(&mut self, ext: Vec<String>) -> (r: &mut Self)
        ensures
            r@ == (RequestView { extensions: Some(texts(ext@)), ..old(self)@ }),
            *final(self) == *final(r),
    {
        self.extensions = Some(ext);
        self
    }

    /// The protocols of the request: those set, or none.
    pub fn protocols(&self) -> (r: Vec<String>)
        ensures
            texts(r@) == listed(self@.protocols),
    {
        entries(&self.protocols)
    }

    /// Set the protocols.
    pub fn set_protocols(&mut self, protos: Vec<String>) -> (r: &mut Self)
        ensures
            r@ == (RequestView { protocols: Some(texts(protos@)), ..old(self)@ }),
            *final(self) == *final(r),
    {
        self.protocols = Some(protos);
        self
    }
}

// Response ///////////////////////////////////////////////////////////////////

/// A websocket handshake response.
#[derive(Debug)]
pub struct Response<'a> {
    protocol: Option<&'a str>,
    extensions: Option<Vec<&'a str>>,
}

/// A response as plain values.
pub struct ResponseView {
    pub protocol: Option<Seq<char>>,
    pub extensions: Option<Seq<Seq<char>>>,
}

impl<'a> View for Response<'a> {
    type V = ResponseView;

    closed spec fn view(&self) -> ResponseView {
        ResponseView {
            protocol: match self.protocol {
                Some(p) => Some(p@),
                None => None,
            },
            extensions: match self.extensions {
                Some(v) => Some(strs_chars(v@)),
                None => None,
            },
        }
    }
}

impl<'a> Response<'a> {
    /// A response without protocol or extensions.
    pub fn new() -> (r: Self)
        ensures
            r@ == (ResponseView { protocol: None, extensions: None }),
    {
        Response { protocol: None, extensions: None }
    }

    /// The protocol, if one is set.
    pub fn protocol(&self) -> (r: Option<&'a str>)
        ensures
            match r {
                Some(p) => self@.protocol == Some(p@),
                None => self@.protocol is None,
            },
    {
        self.protocol
    }

    /// Set the protocol.
    pub fn set_protocol(&mut self, p: &'a str) -> (r: &mut Self)
        ensures
            r@ == (ResponseView { protocol: Some(p@), ..old(self)@ }),
            *final(self) == *final(r),
    {
        self.protocol = Some(p);
        self
    }

    /// The extensions of the response: those set, or none.
    pub fn extensions(&self) -> (r: Vec<&'a str>)
        ensures
            strs_chars(r@) == listed(self@.extensions),
    {
        match &self.extensions {
            Some(v) => {
                let r = v.clone();
                assert(r@ =~= v@);
                r
            },
            None => {
                let r: Vec<&'a str> = Vec::new();
                assert(strs_chars(r@) =~= Seq::<Seq<char>>::empty());
                r
            },
        }
    }

    /// Set the extensions.
    pub fn set_extensions(&mut self, ext: Vec<&'a str>) -> (r: &mut Self)
        ensures
            r@ == (ResponseView { extensions: Some(strs_chars(ext@)), ..old(self)@ }),
            *final(self) == *final(r),
    {
        self.extensions = Some(ext);
        self
    }
}

// Handshake codec ////////////////////////////////////////////////////////////

/// How many HTTP headers do we support during parsing?
pub const MAX_NUM_HEADERS: usize = 32;

/// The error of a header that is missing.
pub open spec fn missing(name: Seq<char>) -> ErrorModel {
    ErrorModel::Invalid("header "@ + name + " not found"@)
}

/// What the check of the first header named `name` against the value
/// `ours` finds: nothing wrong where the value is text equal to `ours` up to
/// ASCII case, else the error.
pub open spec fn header_error(
    hs: Seq<(Seq<char>, Seq<u8>)>,
    name: Seq<char>,
    ours: Seq<char>,
) -> Option<ErrorModel> {
    match first_named(hs, name) {
        None => Some(missing(name)),
        Some(i) => if !valid_utf8(hs[i].1) {
            Some(ErrorModel::Utf8)
        } else if eq_ignore_ascii_case_spec(hs[i].1, encode_utf8(ours)) {
            None
        } else {
            Some(ErrorModel::Invalid("invalid value for header "@ + name))
        },
    }
}

/// The values of the headers named `name`, in order.
pub open spec fn named_values(hs: Seq<(Seq<char>, Seq<u8>)>, name: Seq<char>) -> Seq<Seq<u8>>
    decreases hs.len(),
{
    if hs.len() == 0 {
        Seq::empty()
    } else {
        let rest = named_values(hs.drop_last(), name);
        if has_name(hs.last(), name) {
            rest.push(hs.last().1)
        } else {
            rest
        }
    }
}

/// Every header named `name` has a UTF-8 value.
pub open spec fn named_utf8(hs: Seq<(Seq<char>, Seq<u8>)>, name: Seq<char>) -> bool {
    forall|j: int| 0 <= j < hs.len() && has_name(#[trigger] hs[j], name) ==> valid_utf8(hs[j].1)
}

/// The texts of some UTF-8 values.
pub open spec fn decoded(vs: Seq<Seq<u8>>) -> Seq<Seq<char>> {
    vs.map_values(|v: Seq<u8>| decode_utf8(v))
}

/// What a server reads from a request head: a GET request of HTTP/1.1 with
/// a `Host` header, `Upgrade: websocket`, `Connection: upgrade` and
/// `Sec-WebSocket-Version: 13` (the first header of each name counts, its
/// value compared up to ASCII case), and a `Sec-WebSocket-Key`. The request
/// holds the path (`/` where the head has none), the key, and the values of
/// all `Sec-WebSocket-Protocol` and `Sec-WebSocket-Extensions` headers.
pub open spec fn request_answer(
    method: Option<Seq<char>>,
    path: Option<Seq<char>>,
    version: Option<u8>,
    hs: Seq<(Seq<char>, Seq<u8>)>,
) -> Result<RequestView, ErrorModel> {
    if method != Some("GET"@) {
        Err(ErrorModel::Invalid("request method != GET"@))
    } else if version != Some(1u8) {
        Err(ErrorModel::Invalid("unsupported HTTP version"@))
    } else if first_named(hs, "Host"@) is None {
        Err(missing("Host"@))
    } else if header_error(hs, "Upgrade"@, "websocket"@) is Some {
        Err(header_error(hs, "Upgrade"@, "websocket"@)->0)
    } else if header_error(hs, "Connection"@, "upgrade"@) is Some {
        Err(header_error(hs, "Connection"@, "upgrade"@)->0)
    } else if header_error(hs, "Sec-WebSocket-Version"@, "13"@) is Some {
        Err(header_error(hs, "Sec-WebSocket-Version"@, "13"@)->0)
    } else {
        match first_named(hs, "Sec-WebSocket-Key"@) {
            None => Err(missing("Sec-WebSocket-Key"@)),
            Some(i) => if !valid_utf8(hs[i].1) || !named_utf8(hs, "Sec-WebSocket-Extensions"@)
                || !named_utf8(hs, "Sec-WebSocket-Protocol"@) {
                Err(ErrorModel::Utf8)
            } else {
                Ok(
                    RequestView {
                        path: match path {
                            Some(p) => p,
                            None => "/"@,
                        },
                        key: decode_utf8(hs[i].1),
                        origin: None,
                        protocols: Some(decoded(named_values(hs, "Sec-WebSocket-Protocol"@))),
                        extensions: Some(decoded(named_values(hs, "Sec-WebSocket-Extensions"@))),
                    },
                )
            },
        }
    }
}

/// Some of the offers is written as the value.
pub open spec fn requested(offers: Seq<Seq<char>>, v: Seq<u8>) -> bool {
    exists|i: int| 0 <= i < offers.len() && encode_utf8(#[trigger] offers[i]) == v
}

/// The extensions a response selects: the values of its
/// `Sec-WebSocket-Extensions` headers, none where one of them was not
/// offered.
pub open spec fn selected(offers: Seq<Seq<char>>, hs: Seq<(Seq<char>, Seq<u8>)>) -> Option<
    Seq<Seq<char>>,
>
    decreases hs.len(),
{
    if hs.len() == 0 {
        Some(Seq::empty())
    } else {
        match selected(offers, hs.drop_last()) {
            None => None,
            Some(rest) => if !has_name(hs.last(), "Sec-WebSocket-Extensions"@) {
                Some(rest)
            } else if requested(offers, hs.last().1) {
                Some(rest.push(decode_utf8(hs.last().1)))
            } else {
                None
            },
        }
    }
}

/// What a client that sent the key `nonce` and offered `protocols` and
/// `extensions` reads from a response head: a `101` response of HTTP/1.1
/// with `Upgrade: websocket` and `Connection: upgrade`, whose first
/// `Sec-WebSocket-Accept` header is the accept value of the key, whose
/// extensions were all offered, and whose first `Sec-WebSocket-Protocol`
/// header, if any, names an offered protocol.
pub open spec fn response_answer(
    nonce: Seq<char>,
    protocols: Seq<Seq<char>>,
    extensions: Seq<Seq<char>>,
    version: Option<u8>,
    code: Option<u16>,
    hs: Seq<(Seq<char>, Seq<u8>)>,
) -> Result<ResponseView, ErrorModel> {
    if version != Some(1u8) {
        Err(ErrorModel::Invalid("unsupported HTTP version"@))
    } else if code != Some(101u16) {
        Err(ErrorModel::Invalid("unexpected HTTP status code"@))
    } else if header_error(hs, "Upgrade"@, "websocket"@) is Some {
        Err(header_error(hs, "Upgrade"@, "websocket"@)->0)
    } else if header_error(hs, "Connection"@, "upgrade"@) is Some {
        Err(header_error(hs, "Connection"@, "upgrade"@)->0)
    } else {
        match first_named(hs, "Sec-WebSocket-Accept"@) {
            None => Err(missing("Sec-WebSocket-Accept"@)),
            Some(i) => if encode_utf8(accept_value(encode_utf8(nonce))) != hs[i].1 {
                Err(ErrorModel::Invalid("invalid 'Sec-WebSocket-Accept' received"@))
            } else {
                match selected(extensions, hs) {
                    None => Err(ErrorModel::Invalid("extension was not requested"@)),
                    Some(sel) => match first_named(hs, "Sec-WebSocket-Protocol"@) {
                        None => Ok(ResponseView { protocol: None, extensions: Some(sel) }),
                        Some(j) => if requested(protocols, hs[j].1) {
                            Ok(
                                ResponseView {
                                    protocol: Some(decode_utf8(hs[j].1)),
                                    extensions: Some(sel),
                                },
                            )
                        } else {
                            Err(ErrorModel::Invalid("protocol was not requested"@))
                        },
                    },
                }
            },
        }
    }
}

/// The error of a missing header.
fn missing_header(name: &str) -> (e: Error)
    ensures
        e@ == missing(name@),
{
    Error::Invalid("header ".to_owned().concat(name).concat(" not found"))
}

/// Check the first header named `name` against the value `ours`.
fn expect_header(headers: &[Header], name: &str, ours: &str) -> (r: Result<(), Error>)
    ensures
        match header_error(header_models(headers@), name@, ours@) {
            None => r is Ok,
            Some(m) => r matches Err(e) && e@ == m,
        },
{
    let ghost hs = header_models(headers@);
    proof {
        lemma_first_named(hs, name@);
    }
    match with_first_header(headers, name) {
        Err(_) => Err(missing_header(name)),
        Ok(v) => {
            assert(v@ == hs[first_named(hs, name@)->0].1);
            match utf8_str(v) {
                None => Err(Error::Utf8),
                Some(s) => if eq_ignore_ascii_case(s.as_bytes(), ours.as_bytes()) {
                    Ok(())
                } else {
                    Err(Error::Invalid("invalid value for header ".to_owned().concat(name)))
                },
            }
        },
    }
}

/// The texts of the values of the headers named `name`.
fn header_texts(headers: &[Header], name: &str) -> (r: Result<Vec<String>, Error>)
    ensures
        named_utf8(header_models(headers@), name@) ==> (r matches Ok(v) && texts(v@) == decoded(
            named_values(header_models(headers@), name@),
        )),
        !named_utf8(header_models(headers@), name@) ==> (r matches Err(e) && e@ == ErrorModel::Utf8),
{
    let ghost hs = header_models(headers@);
    let mut out: Vec<String> = Vec::new();
    let mut i: usize = 0;
    while i < headers.len()
        invariant
            i <= headers@.len(),
            hs == header_models(headers@),
            forall|j: int| 0 <= j < i && has_name(#[trigger] hs[j], name@) ==> valid_utf8(hs[j].1),
            texts(out@) == decoded(named_values(hs.take(i as int), name@)),
        decreases headers@.len() - i,
    {
        let h = headers[i];
        assert(hs.take(i + 1).drop_last() =~= hs.take(i as int));
        assert(hs.take(i + 1).last() == hs[i as int]);
        assert(hs[i as int] == (h.name@, h.value@));
        if eq_ignore_ascii_case(h.name.as_bytes(), name.as_bytes()) {
            match utf8_str(h.value) {
                None => {
                    assert(!named_utf8(hs, name@));
                    return Err(Error::Utf8);
                },
                Some(s) => {
                    proof {
                        vstd::utf8::encode_utf8_decode_utf8(s@);
                    }
                    let ghost prev = out@;
                    out.push(s.to_owned());
                    assert(decoded(named_values(hs.take(i + 1), name@)) =~= decoded(
                        named_values(hs.take(i as int), name@),
                    ).push(s@));
                    assert(texts(out@) =~= texts(prev).push(s@));
                },
            }
        } else {
            assert(named_values(hs.take(i + 1), name@) == named_values(hs.take(i as int), name@));
        }
        i = i + 1;
    }
    assert(hs.take(i as int) =~= hs);
    Ok(out)
}

/// The first offer written as `v`.
fn find_offer<'a>(offers: &[&'a str], v: &[u8]) -> (r: Option<&'a str>)
    ensures
        r is Some <==> requested(strs_chars(offers@), v@),
        r matches Some(x) ==> x@ == decode_utf8(v@),
{
    let mut i: usize = 0;
    while i < offers.len()
        invariant
            i <= offers@.len(),
            forall|j: int| 0 <= j < i ==> encode_utf8(#[trigger] offers@[j]@) != v@,
        decreases offers@.len() - i,
    {
        if bytes_eq(offers[i].as_bytes(), v) {
            proof {
                vstd::utf8::encode_utf8_decode_utf8(offers@[i as int]@);
                assert(strs_chars(offers@)[i as int] == offers@[i as int]@);
            }
            return Some(offers[i]);
        }
        i = i + 1;
    }
    assert forall|j: int| 0 <= j < strs_chars(offers@).len() implies encode_utf8(
        #[trigger] strs_chars(offers@)[j],
    ) != v@ by {
        assert(strs_chars(offers@)[j] == offers@[j]@);
    }
    None
}

/// Once some headers select no extension, more headers select none either.
proof fn lemma_unselected_stays(offers: Seq<Seq<char>>, hs: Seq<(Seq<char>, Seq<u8>)>, k: int)
    requires
        0 <= k <= hs.len(),
        selected(offers, hs.take(k)) is None,
    ensures
        selected(offers, hs) is None,
    decreases hs.len() - k,
{
    if k == hs.len() {
        assert(hs.take(k) =~= hs);
    } else {
        assert(hs.drop_last().take(k) =~= hs.take(k));
        lemma_unselected_stays(offers, hs.drop_last(), k);
    }
}

/// The extensions the headers select among the offers.
fn select_extensions<'a>(headers: &[Header], offers: &[&'a str]) -> (r: Result<Vec<&'a str>, Error>)
    ensures
        match selected(strs_chars(offers@), header_models(headers@)) {
            Some(sel) => r matches Ok(v) && strs_chars(v@) == sel,
            None => r matches Err(e) && e@ == ErrorModel::Invalid("extension was not requested"@),
        },
{
    let ghost hs = header_models(headers@);
    let ghost os = strs_chars(offers@);
    let mut out: Vec<&'a str> = Vec::new();
    let mut i: usize = 0;
    while i < headers.len()
        invariant
            i <= headers@.len(),
            hs == header_models(headers@),
            os == strs_chars(offers@),
            selected(os, hs.take(i as int)) == Some(strs_chars(out@)),
        decreases headers@.len() - i,
    {
        let h = headers[i];
        assert(hs.take(i + 1).drop_last() =~= hs.take(i as int));
        assert(hs.take(i + 1).last() == hs[i as int]);
        assert(hs[i as int] == (h.name@, h.value@));
        if eq_ignore_ascii_case(h.name.as_bytes(), "Sec-WebSocket-Extensions".as_bytes()) {
            match find_offer(offers, h.value) {
                Some(x) => {
                    let ghost prev = out@;
                    out.push(x);
                    assert(strs_chars(out@) =~= strs_chars(prev).push(x@));
                },
                None => {
                    proof {
                        lemma_unselected_stays(os, hs, i + 1);
                    }
                    return Err(Error::Invalid("extension was not requested".to_owned()));
                },
            }
        }
        i = i + 1;
    }
    assert(hs.take(i as int) =~= hs);
    Ok(out)
}

/// The protocol the first `Sec-WebSocket-Protocol` header selects among the
/// offers, if there is such a header.
fn select_protocol<'a>(headers: &[Header], offers: &[&'a str]) -> (r: Result<Option<&'a str>, Error>)
    ensures
        match first_named(header_models(headers@), "Sec-WebSocket-Protocol"@) {
            None => r matches Ok(None),
            Some(j) => if requested(strs_chars(offers@), header_models(headers@)[j].1) {
                r matches Ok(Some(p)) && p@ == decode_utf8(header_models(headers@)[j].1)
            } else {
                r matches Err(e) && e@ == ErrorModel::Invalid("protocol was not requested"@)
            },
        },
{
    let ghost hs = header_models(headers@);
    proof {
        lemma_first_named(hs, "Sec-WebSocket-Protocol"@);
    }
    match with_first_header(headers, "Sec-WebSocket-Protocol") {
        Err(_) => Ok(None),
        Ok(v) => {
            assert(v@ == hs[first_named(hs, "Sec-WebSocket-Protocol"@)->0].1);
            match find_offer(offers, v) {
                Some(p) => Ok(Some(p)),
                None => Err(Error::Invalid("protocol was not requested".to_owned())),
            }
        },
    }
}

/// Read a client's request head from `buf`: the request and the length of
/// the head, once the head is complete.
fn decode_request(buf: &[u8]) -> (r: Result<Option<(Request, usize)>, Error>)
    ensures
        match parsed_request(buf@, MAX_NUM_HEADERS as nat) {
            RequestModel::Partial => r matches Ok(None),
            RequestModel::Invalid => r matches Err(e) && e@ == ErrorModel::Http,
            RequestModel::Complete { offset, method, path, version, headers } => match request_answer(
                method,
                path,
                version,
                headers,
            ) {
                Ok(v) => r matches Ok(Some((q, o))) && q@ == v && o == offset && o <= buf@.len(),
                Err(m) => r matches Err(e) && e@ == m,
            },
        },
{
    match parse_request(buf, MAX_NUM_HEADERS) {
        RequestParse::Partial => Ok(None),
        RequestParse::Invalid => Err(Error::Http),
        RequestParse::Complete { offset, method, path, version, headers } => {
            let ghost hs = header_models(headers@);
            proof {
                lemma_first_named(hs, "Host"@);
                lemma_first_named(hs, "Sec-WebSocket-Key"@);
            }
            let is_get = match method {
                Some(m) => str_eq(m, "GET"),
                None => false,
            };
            if !is_get {
                return Err(Error::Invalid("request method != GET".to_owned()));
            }
            let is_11 = match version {
                Some(v) => v == 1,
                None => false,
            };
            if !is_11 {
                return Err(Error::Invalid("unsupported HTTP version".to_owned()));
            }
            // The host is not validated.
            if with_first_header(headers.as_slice(), "Host").is_err() {
                return Err(missing_header("Host"));
            }
            match expect_header(headers.as_slice(), "Upgrade", "websocket") {
                Ok(()) => {},
                Err(e) => return Err(e),
            }
            match expect_header(headers.as_slice(), "Connection", "upgrade") {
                Ok(()) => {},
                Err(e) => return Err(e),
            }
            match expect_header(headers.as_slice(), "Sec-WebSocket-Version", "13") {
                Ok(()) => {},
                Err(e) => return Err(e),
            }
            let ws_key = match with_first_header(headers.as_slice(), "Sec-WebSocket-Key") {
                Err(_) => return Err(missing_header("Sec-WebSocket-Key")),
                Ok(k) => {
                    assert(k@ == hs[first_named(hs, "Sec-WebSocket-Key"@)->0].1);
                    match utf8_str(k) {
                        None => return Err(Error::Utf8),
                        Some(s) => {
                            proof {
                                vstd::utf8::encode_utf8_decode_utf8(s@);
                            }
                            s.to_owned()
                        },
                    }
                },
            };
            let path = match path {
                Some(p) => p.to_owned(),
                None => "/".to_owned(),
            };
            let mut result = Request::new(path, ws_key);
            let extensions = match header_texts(headers.as_slice(), "Sec-WebSocket-Extensions") {
                Ok(v) => v,
                Err(e) => return Err(e),
            };
            result.set_extensions(extensions);
            let protocols = match header_texts(headers.as_slice(), "Sec-WebSocket-Protocol") {
                Ok(v) => v,
                Err(e) => return Err(e),
            };
            result.set_protocols(protocols);
            Ok(Some((result, offset)))
        },
    }
}

/// Read a server's response head from `buf`, as a client that sent the key
/// `nonce` and offered `protocols` and `extensions`: the response and the
/// length of the head, once the head is complete.
fn decode_response<'a>(
    nonce: &str,
    protocols: &[&'a str],
    extensions: &[&'a str],
    buf: &[u8],
) -> (r: Result<Option<(Response<'a>, usize)>, Error>)
    ensures
        match parsed_response(buf@, MAX_NUM_HEADERS as nat) {
            ResponseModel::Partial => r matches Ok(None),
            ResponseModel::Invalid => r matches Err(e) && e@ == ErrorModel::Http,
            ResponseModel::Complete { offset, version, code, headers } => match response_answer(
                nonce@,
                strs_chars(protocols@),
                strs_chars(extensions@),
                version,
                code,
                headers,
            ) {
                Ok(v) => r matches Ok(Some((q, o))) && q@ == v && o == offset && o <= buf@.len(),
                Err(m) => r matches Err(e) && e@ == m,
            },
        },
{
    match parse_response(buf, MAX_NUM_HEADERS) {
        ResponseParse::Partial => Ok(None),
        ResponseParse::Invalid => Err(Error::Http),
        ResponseParse::Complete { offset, version, code, headers } => {
            let ghost hs = header_models(headers@);
            proof {
                lemma_first_named(hs, "Sec-WebSocket-Accept"@);
            }
            let is_11 = match version {
                Some(v) => v == 1,
                None => false,
            };
            if !is_11 {
                return Err(Error::Invalid("unsupported HTTP version".to_owned()));
            }
            let is_101 = match code {
                Some(c) => c == 101,
                None => false,
            };
            if !is_101 {
                return Err(Error::Invalid("unexpected HTTP status code".to_owned()));
            }
            match expect_header(headers.as_slice(), "Upgrade", "websocket") {
                Ok(()) => {},
                Err(e) => return Err(e),
            }
            match expect_header(headers.as_slice(), "Connection", "upgrade") {
                Ok(()) => {},
                Err(e) => return Err(e),
            }
            match with_first_header(headers.as_slice(), "Sec-WebSocket-Accept") {
                Err(_) => return Err(missing_header("Sec-WebSocket-Accept")),
                Ok(theirs) => {
                    assert(theirs@ == hs[first_named(hs, "Sec-WebSocket-Accept"@)->0].1);
                    let ours = accept_key(nonce.as_bytes());
                    if !bytes_eq(ours.as_str().as_bytes(), theirs) {
                        return Err(
                            Error::Invalid("invalid 'Sec-WebSocket-Accept' received".to_owned()),
                        );
                    }
                },
            }
            let mut result = Response::new();
            let selected_extensions = match select_extensions(headers.as_slice(), extensions) {
                Ok(v) => v,
                Err(e) => return Err(e),
            };
            result.set_extensions(selected_extensions);
            match select_protocol(headers.as_slice(), protocols) {
                Ok(Some(p)) => {
                    result.set_protocol(p);
                },
                Ok(None) => {},
                Err(e) => return Err(e),
            }
            Ok(Some((result, offset)))
        },
    }
}

/// What the codec reads: a client's request (on the server side) or a
/// server's response (on the client side).
#[derive(Debug)]
pub enum Decoded<'a> {
    Request(Request),
    Response(Response<'a>),
}

/// The handshake codec of one side.
#[derive(Debug)]
pub enum Codec<'a> {
    /// The client: it sent `nonce` as its key and offered the protocols and
    /// extensions; it reads the server's response.
    Client { nonce: &'a str, protocols: &'a [&'a str], extensions: &'a [&'a str] },
    /// The server: it reads the client's request.
    Server,
}

impl<'a> Codec<'a> {
    /// A client codec for the key `nonce`, offering no protocol and no
    /// extension.
    pub fn client(nonce: &'a str) -> (r: Self)
        ensures
            r matches Codec::Client { nonce: n, protocols, extensions } && n@ == nonce@
                && protocols@.len() == 0 && extensions@.len() == 0,
    {
        Codec::Client { nonce, protocols: &[], extensions: &[] }
    }

    /// A server codec.
    pub fn server() -> (r: Self)
        ensures
            r is Server,
    {
        Codec::Server
    }
}

impl<'a> Codec<'a> {
    /// Read the other side's handshake head from the front of `bytes`. Once
    /// the head is complete, it is taken off `bytes` and what it says is
    /// handed out; until then, and on error, `bytes` stays as it is.
    pub fn decode(&mut self, bytes: &mut BytesMut) -> (r: Result<Option<Decoded<'a>>, Error>)
        ensures
            *final(self) == *old(self),
            match *old(self) {
                Codec::Server => match parsed_request(bytes_of(*old(bytes)), MAX_NUM_HEADERS as nat) {
                    RequestModel::Complete { offset, method, path, version, headers } => match request_answer(
                        method,
                        path,
                        version,
                        headers,
                    ) {
                        Ok(v) => r matches Ok(Some(Decoded::Request(q))) && q@ == v,
                        Err(m) => r matches Err(e) && e@ == m,
                    },
                    RequestModel::Partial => r matches Ok(None),
                    RequestModel::Invalid => r matches Err(e) && e@ == ErrorModel::Http,
                },
                Codec::Client { nonce, protocols, extensions } => match parsed_response(
                    bytes_of(*old(bytes)),
                    MAX_NUM_HEADERS as nat,
                ) {
                    ResponseModel::Complete { offset, version, code, headers } => match response_answer(
                        nonce@,
                        strs_chars(protocols@),
                        strs_chars(extensions@),
                        version,
                        code,
                        headers,
                    ) {
                        Ok(v) => r matches Ok(Some(Decoded::Response(q))) && q@ == v,
                        Err(m) => r matches Err(e) && e@ == m,
                    },
                    ResponseModel::Partial => r matches Ok(None),
                    ResponseModel::Invalid => r matches Err(e) && e@ == ErrorModel::Http,
                },
            },
            r matches Ok(Some(_)) ==> match *old(self) {
                Codec::Server => parsed_request(bytes_of(*old(bytes)), MAX_NUM_HEADERS as nat) matches RequestModel::Complete { offset, .. }
                    && bytes_of(*final(bytes)) == bytes_of(*old(bytes)).skip(offset as int),
                Codec::Client { .. } => parsed_response(bytes_of(*old(bytes)), MAX_NUM_HEADERS as nat) matches ResponseModel::Complete { offset, .. }
                    && bytes_of(*final(bytes)) == bytes_of(*old(bytes)).skip(offset as int),
            },
            !(r matches Ok(Some(_))) ==> bytes_of(*final(bytes)) == bytes_of(*old(bytes)),
    {
        let (result, offset) = match *self {
            Codec::Client { nonce, protocols, extensions } => {
                let buf = bytes_as_slice(bytes);
                match decode_response(nonce, protocols, extensions, buf) {
                    Ok(Some((q, o))) => (Decoded::Response(q), o),
                    Ok(None) => return Ok(None),
                    Err(e) => return Err(e),
                }
            },
            Codec::Server => {
                let buf = bytes_as_slice(bytes);
                match decode_request(buf) {
                    Ok(Some((q, o))) => (Decoded::Request(q), o),
                    Ok(None) => return Ok(None),
                    Err(e) => return Err(e),
                }
            },
        };
        // Chop off the head we have read.
        split_bytes_to(bytes, offset);
        Ok(Some(result))
    }
}

} // verus!
