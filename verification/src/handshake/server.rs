//! Websocket server handshake: reading the client's request and writing the
//! answer. Reading and writing the socket is the caller's part.

use vstd::prelude::*;
use vstd::utf8::{encode_utf8, valid_utf8};
use sha1::Digest;
use base64::Engine;
use crate::Parsing;
use crate::codec::http::{parse_request, parsed_request, RequestModel, RequestParse};
use crate::extension::Extension;
use crate::handshake::{
    append_extensions, configure_extensions, expect_ascii_header, extensions_header,
    first_named, has_name, header_models, lemma_first_named, scan_answer, scan_headers, with_first_header, Error,
    Header, Scan, MAX_NUM_HEADERS, value_lists,
};
use crate::util::{append_bytes, bytes_eq, eq_ignore_ascii_case, str_eq, utf8_str};

verus! {

/// Defined in RFC 6455 and used to generate the `Sec-WebSocket-Accept`
/// header in the server handshake response.
pub open spec fn websocket_guid() -> Seq<char> {
    "258EAFA5-E914-47DA-95CA-C5AB0DC85B11"@
}

/// The version this library answers with in the `Server` header.
pub open spec fn soketto_version() -> Seq<char> {
    "0.1.0"@
}

// Outside computations ///////////////////////////////////////////////////////

/// The SHA-1 digest of some bytes, as the `sha1` crate computes it.
pub uninterp spec fn sha1_of(data: Seq<u8>) -> Seq<u8>;

/// `sha1::Sha1::digest`: the SHA-1 digest of `data`, twenty bytes.
#[verifier::external_body]
fn sha1_digest(data: &[u8]) -> (r: Vec<u8>)
    ensures
        r@ == sha1_of(data@),
        r@.len() == 20,
{
    sha1::Sha1::digest(data).to_vec()
}

/// The digit of the standard base64 alphabet for a number below 64:
/// `A`-`Z`, `a`-`z`, `0`-`9`, `+`, `/`.
pub open spec fn base64_digit(n: u8) -> char {
    if n < 26 {
        (65 + n) as char
    } else if n < 52 {
        (97 + n - 26) as char
    } else if n < 62 {
        (48 + n - 52) as char
    } else if n == 62 {
        '+'
    } else {
        '/'
    }
}

/// The standard, padded base64 encoding of some bytes (RFC 4648, section
/// 4): each group of three bytes becomes four digits of six bits each; a
/// last group of one or two bytes is filled with zero bits and its missing
/// digits are written as `=`.
pub open spec fn base64_of(data: Seq<u8>) -> Seq<char>
    decreases data.len(),
{
    if data.len() == 0 {
        Seq::empty()
    } else {
        let b0 = data[0];
        let b1 = if data.len() > 1 { data[1] } else { 0u8 };
        let b2 = if data.len() > 2 { data[2] } else { 0u8 };
        let c0 = base64_digit(b0 >> 2u8);
        let c1 = base64_digit(((b0 & 3u8) << 4u8) | (b1 >> 4u8));
        let c2 = if data.len() > 1 { base64_digit(((b1 & 15u8) << 2u8) | (b2 >> 6u8)) } else { '=' };
        let c3 = if data.len() > 2 { base64_digit(b2 & 63u8) } else { '=' };
        seq![c0, c1, c2, c3] + if data.len() > 3 {
            base64_of(data.skip(3))
        } else {
            Seq::empty()
        }
    }
}

/// A character of base64 text: a letter, a digit, `+` or `/` of the
/// standard alphabet, or the padding `=`.
pub open spec fn base64_char(c: char) -> bool {
    ('A' <= c <= 'Z') || ('a' <= c <= 'z') || ('0' <= c <= '9') || c == '+' || c == '/' || c
        == '='
}

/// `base64::engine::general_purpose::STANDARD.encode`: the standard, padded
/// base64 text of `data`, which is written with the standard alphabet and
/// the `=` padding.
#[verifier::external_body]
fn base64_encode(data: &[u8]) -> (r: String)
    ensures
        r@ == base64_of(data@),
        forall|i: int| 0 <= i < r@.len() ==> base64_char(#[trigger] r@[i]),
{
    base64::engine::general_purpose::STANDARD.encode(data)
}

/// The `Sec-WebSocket-Accept` value for a key: the base64 text of the
/// SHA-1 digest of the key followed by the websocket GUID.
pub open spec fn accept_value(key: Seq<u8>) -> Seq<char> {
    base64_of(sha1_of(key + encode_utf8(websocket_guid())))
}

/// Compute the `Sec-WebSocket-Accept` value for a key.
pub fn accept_key(key: &[u8]) -> (r: String)
    ensures
        r@ == accept_value(key@),
        forall|i: int| 0 <= i < r@.len() ==> base64_char(#[trigger] r@[i]),
{
    let mut data: Vec<u8> = Vec::new();
    append_bytes(&mut data, key);
    append_bytes(&mut data, "258EAFA5-E914-47DA-95CA-C5AB0DC85B11".as_bytes());
    let digest = sha1_digest(data.as_slice());
    base64_encode(digest.as_slice())
}

/// The reason phrase of a known status code.
pub open spec fn status_reason(code: u16) -> Option<Seq<char>> {
    match code {
        100 => Some("Continue"@),
        101 => Some("Switching Protocols"@),
        102 => Some("Processing"@),
        200 => Some("OK"@),
        201 => Some("Created"@),
        202 => Some("Accepted"@),
        203 => Some("Non Authoritative Information"@),
        204 => Some("No Content"@),
        205 => Some("Reset Content"@),
        206 => Some("Partial Content"@),
        207 => Some("Multi-Status"@),
        208 => Some("Already Reported"@),
        226 => Some("IM Used"@),
        300 => Some("Multiple Choices"@),
        301 => Some("Moved Permanently"@),
        302 => Some("Found"@),
        303 => Some("See Other"@),
        304 => Some("Not Modified"@),
        305 => Some("Use Proxy"@),
        307 => Some("Temporary Redirect"@),
        308 => Some("Permanent Redirect"@),
        400 => Some("Bad Request"@),
        401 => Some("Unauthorized"@),
        402 => Some("Payment Required"@),
        403 => Some("Forbidden"@),
        404 => Some("Not Found"@),
        405 => Some("Method Not Allowed"@),
        406 => Some("Not Acceptable"@),
        407 => Some("Proxy Authentication Required"@),
        408 => Some("Request Timeout"@),
        409 => Some("Conflict"@),
        410 => Some("Gone"@),
        411 => Some("Length Required"@),
        412 => Some("Precondition Failed"@),
        413 => Some("Payload Too Large"@),
        414 => Some("URI Too Long"@),
        415 => Some("Unsupported Media Type"@),
        416 => Some("Range Not Satisfiable"@),
        417 => Some("Expectation Failed"@),
        418 => Some("I'm a teapot"@),
        421 => Some("Misdirected Request"@),
        422 => Some("Unprocessable Entity"@),
        423 => Some("Locked"@),
        424 => Some("Failed Dependency"@),
        426 => Some("Upgrade Required"@),
        428 => Some("Precondition Required"@),
        429 => Some("Too Many Requests"@),
        431 => Some("Request Header Fields Too Large"@),
        451 => Some("Unavailable For Legal Reasons"@),
        500 => Some("Internal Server Error"@),
        501 => Some("Not Implemented"@),
        502 => Some("Bad Gateway"@),
        503 => Some("Service Unavailable"@),
        504 => Some("Gateway Timeout"@),
        505 => Some("HTTP Version Not Supported"@),
        506 => Some("Variant Also Negotiates"@),
        507 => Some("Insufficient Storage"@),
        508 => Some("Loop Detected"@),
        510 => Some("Not Extended"@),
        511 => Some("Network Authentication Required"@),
        _ => None,
    }
}

/// The decimal text of a known status code.
pub open spec fn status_number(code: u16) -> Seq<char> {
    match code {
        100 => "100"@,
        101 => "101"@,
        102 => "102"@,
        200 => "200"@,
        201 => "201"@,
        202 => "202"@,
        203 => "203"@,
        204 => "204"@,
        205 => "205"@,
        206 => "206"@,
        207 => "207"@,
        208 => "208"@,
        226 => "226"@,
        300 => "300"@,
        301 => "301"@,
        302 => "302"@,
        303 => "303"@,
        304 => "304"@,
        305 => "305"@,
        307 => "307"@,
        308 => "308"@,
        400 => "400"@,
        401 => "401"@,
        402 => "402"@,
        403 => "403"@,
        404 => "404"@,
        405 => "405"@,
        406 => "406"@,
        407 => "407"@,
        408 => "408"@,
        409 => "409"@,
        410 => "410"@,
        411 => "411"@,
        412 => "412"@,
        413 => "413"@,
        414 => "414"@,
        415 => "415"@,
        416 => "416"@,
        417 => "417"@,
        418 => "418"@,
        421 => "421"@,
        422 => "422"@,
        423 => "423"@,
        424 => "424"@,
        426 => "426"@,
        428 => "428"@,
        429 => "429"@,
        431 => "431"@,
        451 => "451"@,
        500 => "500"@,
        501 => "501"@,
        502 => "502"@,
        503 => "503"@,
        504 => "504"@,
        505 => "505"@,
        506 => "506"@,
        507 => "507"@,
        508 => "508"@,
        510 => "510"@,
        511 => "511"@,
        _ => "500"@,
    }
}

/// The status line text of a known status code: its number and reason
/// phrase.
pub fn status_text(code: u16) -> (r: Option<(&'static str, &'static str)>)
    ensures
        match r {
            Some((n, reason)) => status_reason(code) == Some(reason@) && n@ == status_number(code),
            None => status_reason(code) is None,
        },
{
    match code {
        100 => Some(("100", "Continue")),
        101 => Some(("101", "Switching Protocols")),
        102 => Some(("102", "Processing")),
        200 => Some(("200", "OK")),
        201 => Some(("201", "Created")),
        202 => Some(("202", "Accepted")),
        203 => Some(("203", "Non Authoritative Information")),
        204 => Some(("204", "No Content")),
        205 => Some(("205", "Reset Content")),
        206 => Some(("206", "Partial Content")),
        207 => Some(("207", "Multi-Status")),
        208 => Some(("208", "Already Reported")),
        226 => Some(("226", "IM Used")),
        300 => Some(("300", "Multiple Choices")),
        301 => Some(("301", "Moved Permanently")),
        302 => Some(("302", "Found")),
        303 => Some(("303", "See Other")),
        304 => Some(("304", "Not Modified")),
        305 => Some(("305", "Use Proxy")),
        307 => Some(("307", "Temporary Redirect")),
        308 => Some(("308", "Permanent Redirect")),
        400 => Some(("400", "Bad Request")),
        401 => Some(("401", "Unauthorized")),
        402 => Some(("402", "Payment Required")),
        403 => Some(("403", "Forbidden")),
        404 => Some(("404", "Not Found")),
        405 => Some(("405", "Method Not Allowed")),
        406 => Some(("406", "Not Acceptable")),
        407 => Some(("407", "Proxy Authentication Required")),
        408 => Some(("408", "Request Timeout")),
        409 => Some(("409", "Conflict")),
        410 => Some(("410", "Gone")),
        411 => Some(("411", "Length Required")),
        412 => Some(("412", "Precondition Failed")),
        413 => Some(("413", "Payload Too Large")),
        414 => Some(("414", "URI Too Long")),
        415 => Some(("415", "Unsupported Media Type")),
        416 => Some(("416", "Range Not Satisfiable")),
        417 => Some(("417", "Expectation Failed")),
        418 => Some(("418", "I'm a teapot")),
        421 => Some(("421", "Misdirected Request")),
        422 => Some(("422", "Unprocessable Entity")),
        423 => Some(("423", "Locked")),
        424 => Some(("424", "Failed Dependency")),
        426 => Some(("426", "Upgrade Required")),
        428 => Some(("428", "Precondition Required")),
        429 => Some(("429", "Too Many Requests")),
        431 => Some(("431", "Request Header Fields Too Large")),
        451 => Some(("451", "Unavailable For Legal Reasons")),
        500 => Some(("500", "Internal Server Error")),
        501 => Some(("501", "Not Implemented")),
        502 => Some(("502", "Bad Gateway")),
        503 => Some(("503", "Service Unavailable")),
        504 => Some(("504", "Gateway Timeout")),
        505 => Some(("505", "HTTP Version Not Supported")),
        506 => Some(("506", "Variant Also Negotiates")),
        507 => Some(("507", "Insufficient Storage")),
        508 => Some(("508", "Loop Detected")),
        510 => Some(("510", "Not Extended")),
        511 => Some(("511", "Network Authentication Required")),
        _ => None,
    }
}

// The server /////////////////////////////////////////////////////////////////

/// Websocket handshake server: the protocols and extensions it supports.
pub struct Server<'a> {
    /// Protocols the server supports.
    protocols: Vec<&'a str>,
    /// Extensions the server supports.
    extensions: Vec<Box<dyn Extension>>,
}

/// Handshake request received from the client.
#[derive(Debug)]
pub struct ClientRequest<'a> {
    ws_key: Vec<u8>,
    protocols: Vec<&'a str>,
}

/// Handshake response the server sends back to the client.
#[derive(Debug)]
pub enum Response<'a> {
    /// The server accepts the handshake request.
    Accept { key: &'a [u8], protocol: Option<&'a str> },
    /// The server rejects the handshake request.
    Reject { status_code: u16 },
}

/// The characters of some strings.
pub open spec fn strs_chars(v: Seq<&str>) -> Seq<Seq<char>> {
    v.map_values(|s: &str| s@)
}

impl<'a> ClientRequest<'a> {
    /// The key the client sent.
    pub closed spec fn key_spec(&self) -> Seq<u8> {
        self.ws_key@
    }

    /// The protocols both sides support, as the client listed them.
    pub closed spec fn protocols_spec(&self) -> Seq<Seq<char>> {
        strs_chars(self.protocols@)
    }

    /// A reference to the nonce.
    pub fn key(&self) -> (r: &[u8])
        ensures
            r@ == self.key_spec(),
    {
        self.ws_key.as_slice()
    }

    /// The nonce.
    pub fn into_key(self) -> (r: Vec<u8>)
        ensures
            r@ == self.key_spec(),
    {
        self.ws_key
    }

    /// The protocols the client is proposing (that the server supports).
    pub fn protocols(&self) -> (r: Vec<&'a str>)
        ensures
            strs_chars(r@) == self.protocols_spec(),
    {
        let mut r: Vec<&'a str> = Vec::new();
        let mut i: usize = 0;
        while i < self.protocols.len()
            invariant
                i <= self.protocols@.len(),
                r@ == self.protocols@.take(i as int),
            decreases self.protocols@.len() - i,
        {
            r.push(self.protocols[i]);
            assert(self.protocols@.take(i + 1) =~= self.protocols@.take(i as int).push(
                self.protocols@[i as int],
            ));
            i = i + 1;
        }
        assert(self.protocols@.take(i as int) =~= self.protocols@);
        r
    }
}

/// What the checks of a request head decide.
pub enum RequestVerdict {
    BadMethod,
    BadVersion,
    NoHost,
    Upgrade(Scan),
    Connection(Scan),
    WsVersion(Scan),
    NoKey,
    /// The request passes, with this key.
    Accepted(Seq<u8>),
}

/// The checks of a request head, in order: a GET request of HTTP/1.1, with
/// a `Host` header, an `Upgrade` header listing `websocket`, a
/// `Connection` header listing `upgrade`, a `Sec-WebSocket-Version` header
/// listing `13`, and a `Sec-WebSocket-Key` header (the first one counts).
pub open spec fn request_verdict(
    method: Option<Seq<char>>,
    version: Option<u8>,
    hs: Seq<(Seq<char>, Seq<u8>)>,
) -> RequestVerdict {
    if method != Some("GET"@) {
        RequestVerdict::BadMethod
    } else if version != Some(1u8) {
        RequestVerdict::BadVersion
    } else if first_named(hs, "Host"@) is None {
        RequestVerdict::NoHost
    } else if !(scan_headers(hs, "Upgrade"@, "websocket"@) is Match) {
        RequestVerdict::Upgrade(scan_headers(hs, "Upgrade"@, "websocket"@))
    } else if !(scan_headers(hs, "Connection"@, "upgrade"@) is Match) {
        RequestVerdict::Connection(scan_headers(hs, "Connection"@, "upgrade"@))
    } else if !(scan_headers(hs, "Sec-WebSocket-Version"@, "13"@) is Match) {
        RequestVerdict::WsVersion(scan_headers(hs, "Sec-WebSocket-Version"@, "13"@))
    } else {
        match first_named(hs, "Sec-WebSocket-Key"@) {
            Some(i) => RequestVerdict::Accepted(hs[i].1),
            None => RequestVerdict::NoKey,
        }
    }
}

/// Some protocol encodes to the given bytes.
pub open spec fn supports_protocol(protocols: Seq<Seq<char>>, v: Seq<u8>) -> bool {
    exists|i: int| 0 <= i < protocols.len() && encode_utf8(#[trigger] protocols[i]) == v
}

/// The values of the `Sec-WebSocket-Protocol` headers that name a protocol
/// the server supports, in the order of the headers.
pub open spec fn chosen_protocols(
    protocols: Seq<Seq<char>>,
    hs: Seq<(Seq<char>, Seq<u8>)>,
) -> Seq<Seq<char>>
    decreases hs.len(),
{
    if hs.len() == 0 {
        Seq::empty()
    } else {
        let rest = chosen_protocols(protocols, hs.drop_last());
        let h = hs.last();
        if has_name(h, "Sec-WebSocket-Protocol"@) && supports_protocol(protocols, h.1) {
            rest.push(vstd::utf8::decode_utf8(h.1))
        } else {
            rest
        }
    }
}

/// A request names no extension.
pub open spec fn no_extension_header(hs: Seq<(Seq<char>, Seq<u8>)>) -> bool {
    forall|i: int| 0 <= i < hs.len() ==> !has_name(#[trigger] hs[i], "Sec-WebSocket-Extensions"@)
}

/// The protocol header line of an accepting response, if it names one.
pub open spec fn protocol_line(protocol: Option<&str>) -> Seq<u8> {
    match protocol {
        Some(p) => encode_utf8("\r\nSec-WebSocket-Protocol: "@) + encode_utf8(p@),
        None => Seq::empty(),
    }
}

/// The status number and reason phrase a rejection is sent with: those of
/// its code where the code is known, else 500 (internal server error).
pub open spec fn rejection_status(code: u16) -> (Seq<char>, Seq<char>) {
    match status_reason(code) {
        Some(reason) => (status_number(code), reason),
        None => ("500"@, "Internal Server Error"@),
    }
}

/// The bytes of a handshake response. An acceptance: the status line, the
/// `Server`, `Upgrade`, `Connection` and `Sec-WebSocket-Accept` headers, the
/// protocol if one is chosen, the header of the enabled extensions, and the
/// empty line. A rejection: its status line and the empty line.
pub open spec fn response_bytes(r: Response, extensions: Seq<Box<dyn Extension>>) -> Seq<u8> {
    match r {
        Response::Accept { key, protocol } => encode_utf8("HTTP/1.1 101 Switching Protocols"@)
            + encode_utf8("\r\nServer: soketto-"@) + encode_utf8(soketto_version())
            + encode_utf8("\r\nUpgrade: websocket\r\nConnection: upgrade"@) + encode_utf8(
            "\r\nSec-WebSocket-Accept: "@,
        ) + encode_utf8(accept_value(key@)) + protocol_line(protocol) + extensions_header(
            extensions.filter(|e: Box<dyn Extension>| e.spec_enabled()),
        ) + encode_utf8("\r\n\r\n"@),
        Response::Reject { status_code } => encode_utf8("HTTP/1.1 "@) + encode_utf8(
            rejection_status(status_code).0,
        ) + encode_utf8(" "@) + encode_utf8(rejection_status(status_code).1) + encode_utf8(
            "\r\n\r\n"@,
        ),
    }
}

/// The answer to a request head, given what its checks decide.
pub open spec fn request_answer<'a>(
    v: RequestVerdict,
    offset: nat,
    protocols: Seq<Seq<char>>,
    hs: Seq<(Seq<char>, Seq<u8>)>,
    r: Result<Parsing<ClientRequest<'a>>, Error>,
) -> bool {
    match v {
        RequestVerdict::BadMethod => r matches Err(Error::InvalidRequestMethod),
        RequestVerdict::BadVersion => r matches Err(Error::UnsupportedHttpVersion),
        RequestVerdict::NoHost => r matches Err(Error::HeaderNotFound(n)) && n@ == "Host"@,
        RequestVerdict::Upgrade(st) => scan_answer(st, r, "Upgrade"@),
        RequestVerdict::Connection(st) => scan_answer(st, r, "Connection"@),
        RequestVerdict::WsVersion(st) => scan_answer(st, r, "Sec-WebSocket-Version"@),
        RequestVerdict::NoKey => r matches Err(Error::HeaderNotFound(n)) && n@
            == "Sec-WebSocket-Key"@,
        RequestVerdict::Accepted(key) => match r {
            Ok(Parsing::Done { value, offset: o }) => o == offset && value.key_spec() == key
                && value.protocols_spec() == protocols && extension_values_utf8(hs),
            Ok(Parsing::NeedMore(_)) => false,
            Err(Error::Utf8) => !extension_values_utf8(hs),
            Err(Error::Extension(_)) => true,
            Err(_) => false,
        },
    }
}

/// Every `Sec-WebSocket-Extensions` header has a UTF-8 value.
pub open spec fn extension_values_utf8(hs: Seq<(Seq<char>, Seq<u8>)>) -> bool {
    forall|i: int|
        0 <= i < hs.len() && has_name(#[trigger] hs[i], "Sec-WebSocket-Extensions"@)
            ==> valid_utf8(hs[i].1)
}

impl<'a> Server<'a> {
    /// The protocols the server supports.
    pub closed spec fn protocols_spec(&self) -> Seq<Seq<char>> {
        strs_chars(self.protocols@)
    }

    /// The extensions the server supports.
    pub closed spec fn extensions_spec(&self) -> Seq<Box<dyn Extension>> {
        self.extensions@
    }

    /// Create a new server handshake.
    pub fn new() -> (r: Self)
        ensures
            r.protocols_spec() == Seq::<Seq<char>>::empty(),
            r.extensions_spec() == Seq::<Box<dyn Extension>>::empty(),
    {
        let r = Server { protocols: Vec::new(), extensions: Vec::new() };
        assert(r.protocols_spec() =~= Seq::<Seq<char>>::empty());
        r
    }

    /// Add a protocol the server supports.
    pub fn add_protocol(&mut self, p: &'a str)
        ensures
            final(self).protocols_spec() == old(self).protocols_spec().push(p@),
            final(self).extensions_spec() == old(self).extensions_spec(),
    {
        self.protocols.push(p);
        assert(self.protocols_spec() =~= old(self).protocols_spec().push(p@));
    }

    /// Add an extension the server supports.
    pub fn add_extension(&mut self, e: Box<dyn Extension>)
        ensures
            final(self).protocols_spec() == old(self).protocols_spec(),
            final(self).extensions_spec() == old(self).extensions_spec().push(e),
    {
        self.extensions.push(e);
    }

    /// Take out all extensions.
    pub fn drain_extensions(&mut self) -> (r: Vec<Box<dyn Extension>>)
        ensures
            r@ == old(self).extensions_spec(),
            final(self).extensions_spec() == Seq::<Box<dyn Extension>>::empty(),
            final(self).protocols_spec() == old(self).protocols_spec(),
    {
        let mut r = Vec::new();
        std::mem::swap(&mut r, &mut self.extensions);
        r
    }

    /// The extensions, to configure them.
    pub fn extensions_mut(&mut self) -> (r: &mut Vec<Box<dyn Extension>>)
        ensures
            r@ == old(self).extensions_spec(),
            final(self).extensions_spec() == final(r)@,
            final(self).protocols_spec() == old(self).protocols_spec(),
    {
        &mut self.extensions
    }

    /// The supported protocols named by the request's protocol headers.
    fn choose_protocols(&self, headers: &Vec<Header>) -> (r: Vec<&'a str>)
        ensures
            strs_chars(r@) == chosen_protocols(self.protocols_spec(), header_models(headers@)),
    {
        let ghost hs = header_models(headers@);
        let mut protocols: Vec<&'a str> = Vec::new();
        let mut i: usize = 0;
        while i < headers.len()
            invariant
                i <= headers@.len(),
                hs == header_models(headers@),
                strs_chars(protocols@) == chosen_protocols(self.protocols_spec(), hs.take(i as int)),
            decreases headers@.len() - i,
        {
            let h = headers[i];
            assert(hs.take(i + 1).drop_last() =~= hs.take(i as int));
            assert(hs.take(i + 1).last() == (h.name@, h.value@));
            let ghost before = protocols@;
            if eq_ignore_ascii_case(h.name.as_bytes(), "Sec-WebSocket-Protocol".as_bytes()) {
                let mut j: usize = 0;
                let mut found = false;
                while j < self.protocols.len() && !found
                    invariant
                        j <= self.protocols@.len(),
                        protocols@ == before,
                        !found ==> forall|k: int|
                            0 <= k < j ==> encode_utf8(#[trigger] self.protocols@[k]@) != h.value@,
                        found ==> j < self.protocols@.len() && encode_utf8(self.protocols@[j as int]@)
                            == h.value@,
                    decreases self.protocols@.len() - j, (if found { 0int } else { 1int }),
                {
                    if bytes_eq(self.protocols[j].as_bytes(), h.value) {
                        found = true;
                    } else {
                        j = j + 1;
                    }
                }
                let ghost ps = self.protocols_spec();
                if found {
                    let p = self.protocols[j];
                    protocols.push(p);
                    proof {
                        vstd::utf8::encode_utf8_decode_utf8(p@);
                        assert(ps[j as int] == p@);
                        assert(supports_protocol(ps, h.value@));
                    }
                    assert(strs_chars(protocols@) =~= strs_chars(before).push(p@));
                } else {
                    assert(!supports_protocol(ps, h.value@)) by {
                        if supports_protocol(ps, h.value@) {
                            let k = choose|k: int| 0 <= k < ps.len() && encode_utf8(#[trigger] ps[k]) == h.value@;
                            assert(ps[k] == self.protocols@[k]@);
                        }
                    }
                }
            }
            i = i + 1;
        }
        assert(hs.take(i as int) =~= hs);
        protocols
    }

    /// Configure the extensions with the request's extension headers.
    fn negotiate_extensions(&mut self, headers: &Vec<Header>) -> (r: Result<(), Error>)
        ensures
            final(self).protocols_spec() == old(self).protocols_spec(),
            no_extension_header(header_models(headers@)) ==> r is Ok
                && final(self).extensions_spec() == old(self).extensions_spec(),
            match r {
                Ok(()) => extension_values_utf8(header_models(headers@)),
                Err(Error::Utf8) => !extension_values_utf8(header_models(headers@)),
                Err(Error::Extension(_)) => true,
                Err(_) => false,
            },
    {
        let ghost hs = header_models(headers@);
        let mut i: usize = 0;
        while i < headers.len()
            invariant
                i <= headers@.len(),
                hs == header_models(headers@),
                self.protocols == old(self).protocols,
                no_extension_header(hs) ==> self.extensions@ == old(self).extensions@,
                forall|k: int|
                    0 <= k < i && has_name(#[trigger] hs[k], "Sec-WebSocket-Extensions"@)
                        ==> valid_utf8(hs[k].1),
            decreases headers@.len() - i,
        {
            let h = headers[i];
            assert(hs[i as int] == (h.name@, h.value@));
            if eq_ignore_ascii_case(h.name.as_bytes(), "Sec-WebSocket-Extensions".as_bytes()) {
                assert(has_name(hs[i as int], "Sec-WebSocket-Extensions"@));
                match utf8_str(h.value) {
                    None => return Err(Error::Utf8),
                    Some(line) => {
                        match configure_extensions(&mut self.extensions, line) {
                            Ok(()) => {},
                            Err(e) => return Err(e),
                        }
                    },
                }
            }
            i = i + 1;
        }
        Ok(())
    }

    /// Decode the client's handshake request from `buf`: the request, and
    /// the number of bytes its head takes, once the head is complete. The
    /// extensions named in the request are configured on the way.
    pub fn decode_request(&mut self, buf: &[u8]) -> (r: Result<Parsing<ClientRequest<'a>>, Error>)
        ensures
            final(self).protocols_spec() == old(self).protocols_spec(),
            match parsed_request(buf@, MAX_NUM_HEADERS as nat) {
                RequestModel::Partial => r matches Ok(Parsing::NeedMore(_)),
                RequestModel::Invalid => r matches Err(Error::Http),
                RequestModel::Complete { offset, method, version, headers, .. } => {
                    &&& request_answer(
                        request_verdict(method, version, headers),
                        offset,
                        chosen_protocols(old(self).protocols_spec(), headers),
                        headers,
                        r,
                    )
                    &&& (request_verdict(method, version, headers) is Accepted
                        && no_extension_header(headers)) ==> r is Ok
                        && final(self).extensions_spec() == old(self).extensions_spec()
                },
            },
    {
        let parsed = parse_request(buf, MAX_NUM_HEADERS);
        match parsed {
            RequestParse::Partial => Ok(Parsing::NeedMore(())),
            RequestParse::Invalid => Err(Error::Http),
            RequestParse::Complete { offset, method, path: _, version, headers } => {
                let ghost hs = header_models(headers@);
                proof {
                    lemma_first_named(hs, "Host"@);
                    lemma_first_named(hs, "Sec-WebSocket-Key"@);
                    let ki = first_named(hs, "Sec-WebSocket-Key"@)->0;
                    if first_named(hs, "Sec-WebSocket-Key"@) is Some {
                        assert(hs[ki] == (headers@[ki].name@, headers@[ki].value@));
                    }
                }
                let is_get = match method {
                    Some(m) => str_eq(m, "GET"),
                    None => false,
                };
                if !is_get {
                    return Err(Error::InvalidRequestMethod);
                }
                let is_11 = match version {
                    Some(v) => v == 1,
                    None => false,
                };
                if !is_11 {
                    return Err(Error::UnsupportedHttpVersion);
                }
                // The host is not validated.
                match with_first_header(headers.as_slice(), "Host") {
                    Ok(_) => {},
                    Err(e) => return Err(e),
                }
                match expect_ascii_header(headers.as_slice(), "Upgrade", "websocket") {
                    Ok(()) => {},
                    Err(e) => return Err(e),
                }
                match expect_ascii_header(headers.as_slice(), "Connection", "upgrade") {
                    Ok(()) => {},
                    Err(e) => return Err(e),
                }
                match expect_ascii_header(headers.as_slice(), "Sec-WebSocket-Version", "13") {
                    Ok(()) => {},
                    Err(e) => return Err(e),
                }
                let ws_key = match with_first_header(headers.as_slice(), "Sec-WebSocket-Key") {
                    Ok(k) => vstd::slice::slice_to_vec(k),
                    Err(e) => return Err(e),
                };
                match self.negotiate_extensions(&headers) {
                    Ok(()) => {},
                    Err(e) => return Err(e),
                }
                let protocols = self.choose_protocols(&headers);
                Ok(Parsing::Done { value: ClientRequest { ws_key, protocols }, offset })
            },
        }
    }

    /// Encode the server's handshake response into `buf`.
    pub fn encode_response(&self, response: &Response, buf: &mut Vec<u8>)
        ensures
            final(buf)@ == old(buf)@ + response_bytes(*response, self.extensions_spec()),
    {
        match response {
            Response::Accept { key, protocol } => {
                let accept = accept_key(key);
                let ghost start = buf@;
                append_bytes(buf, "HTTP/1.1 101 Switching Protocols".as_bytes());
                append_bytes(buf, "\r\nServer: soketto-".as_bytes());
                append_bytes(buf, "0.1.0".as_bytes());
                append_bytes(buf, "\r\nUpgrade: websocket\r\nConnection: upgrade".as_bytes());
                append_bytes(buf, "\r\nSec-WebSocket-Accept: ".as_bytes());
                append_bytes(buf, accept.as_str().as_bytes());
                let ghost mid = buf@;
                match protocol {
                    Some(p) => {
                        append_bytes(buf, "\r\nSec-WebSocket-Protocol: ".as_bytes());
                        append_bytes(buf, p.as_bytes());
                    },
                    None => {},
                }
                assert(buf@ =~= mid + protocol_line(*protocol));
                append_extensions(&self.extensions, buf);
                append_bytes(buf, "\r\n\r\n".as_bytes());
                assert(buf@ =~= start + response_bytes(*response, self.extensions_spec()));
            },
            Response::Reject { status_code } => {
                let ghost start = buf@;
                append_bytes(buf, "HTTP/1.1 ".as_bytes());
                let (n, reason) = match status_text(*status_code) {
                    Some((n, reason)) => (n, reason),
                    None => ("500", "Internal Server Error"),
                };
                append_bytes(buf, n.as_bytes());
                append_bytes(buf, " ".as_bytes());
                append_bytes(buf, reason.as_bytes());
                append_bytes(buf, "\r\n\r\n".as_bytes());
                assert(buf@ =~= start + response_bytes(*response, self.extensions_spec()));
            },
        }
    }
}

} // verus!

verus! {

/// Where the search for a value among the headers of a name matches, some
/// header of that name lists the value.
proof fn lemma_scan_match_found(hs: Seq<(Seq<char>, Seq<u8>)>, name: Seq<char>, ours: Seq<char>)
    ensures
        scan_headers(hs, name, ours) is Match ==> exists|i: int|
            0 <= i < hs.len() && has_name(#[trigger] hs[i], name) && value_lists(
                hs[i].1,
                encode_utf8(ours),
            ),
    decreases hs.len(),
{
    if hs.len() > 0 {
        let init = hs.drop_last();
        lemma_scan_match_found(init, name, ours);
        if scan_headers(hs, name, ours) is Match {
            if scan_headers(init, name, ours) is Match {
                let i = choose|i: int|
                    0 <= i < init.len() && has_name(#[trigger] init[i], name) && value_lists(
                        init[i].1,
                        encode_utf8(ours),
                    );
                assert(hs[i] == init[i]);
            } else {
                let k = hs.len() - 1;
                assert(hs[k] == hs.last());
                assert(has_name(hs[k], name) && value_lists(hs[k].1, encode_utf8(ours)));
            }
        }
    }
}

/// A request the server accepts (the result `decode_request` gives on the
/// bytes `buf`, as its contract states it) is a complete GET request of
/// HTTP/1.1 whose headers hold a `Host` header, an `Upgrade` header listing
/// `websocket`, a `Connection` header listing `upgrade`, a
/// `Sec-WebSocket-Version` header listing `13` and a `Sec-WebSocket-Key`
/// header (names and values up to ASCII case).
pub proof fn lemma_accepted_request_checked<'a>(
    buf: Seq<u8>,
    protocols: Seq<Seq<char>>,
    r: Result<Parsing<ClientRequest<'a>>, Error>,
)
    requires
        match parsed_request(buf, MAX_NUM_HEADERS as nat) {
            RequestModel::Partial => r matches Ok(Parsing::NeedMore(_)),
            RequestModel::Invalid => r matches Err(Error::Http),
            RequestModel::Complete { offset, method, version, headers, .. } => request_answer(
                request_verdict(method, version, headers),
                offset,
                protocols,
                headers,
                r,
            ),
        },
        r matches Ok(Parsing::Done { .. }),
    ensures
        parsed_request(buf, MAX_NUM_HEADERS as nat) matches RequestModel::Complete {
            method,
            version,
            headers,
            ..
        } && {
            &&& method == Some("GET"@)
            &&& version == Some(1u8)
            &&& exists|i: int| 0 <= i < headers.len() && has_name(#[trigger] headers[i], "Host"@)
            &&& exists|i: int|
                0 <= i < headers.len() && has_name(#[trigger] headers[i], "Upgrade"@)
                    && value_lists(headers[i].1, encode_utf8("websocket"@))
            &&& exists|i: int|
                0 <= i < headers.len() && has_name(#[trigger] headers[i], "Connection"@)
                    && value_lists(headers[i].1, encode_utf8("upgrade"@))
            &&& exists|i: int|
                0 <= i < headers.len() && has_name(#[trigger] headers[i], "Sec-WebSocket-Version"@)
                    && value_lists(headers[i].1, encode_utf8("13"@))
            &&& exists|i: int|
                0 <= i < headers.len() && has_name(#[trigger] headers[i], "Sec-WebSocket-Key"@)
        },
{
    match parsed_request(buf, MAX_NUM_HEADERS as nat) {
        RequestModel::Complete { offset, method, version, headers, .. } => {
            lemma_first_named(headers, "Host"@);
            lemma_first_named(headers, "Sec-WebSocket-Key"@);
            lemma_scan_match_found(headers, "Upgrade"@, "websocket"@);
            lemma_scan_match_found(headers, "Connection"@, "upgrade"@);
            lemma_scan_match_found(headers, "Sec-WebSocket-Version"@, "13"@);
            let v = request_verdict(method, version, headers);
            assert(v is Accepted);
            let h = first_named(headers, "Host"@)->0;
            assert(has_name(headers[h], "Host"@));
            let k = first_named(headers, "Sec-WebSocket-Key"@)->0;
            assert(has_name(headers[k], "Sec-WebSocket-Key"@));
        },
        _ => {},
    }
}

} // verus!
