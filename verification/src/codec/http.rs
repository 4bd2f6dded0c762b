//! HTTP/1.1 request and response heads: reading them with `httparse`, and
//! writing them.

use vstd::prelude::*;
use vstd::utf8::encode_utf8;
use crate::handshake::Header;
use crate::handshake::server::status_reason;
use crate::util::append_bytes;

verus! {

// Reading with httparse //////////////////////////////////////////////////////

/// What `httparse::Request::parse` finds in a buffer.
pub enum RequestParse<'b> {
    /// A whole request head of `offset` bytes.
    Complete {
        offset: usize,
        method: Option<&'b str>,
        path: Option<&'b str>,
        version: Option<u8>,
        headers: Vec<Header<'b>>,
    },
    /// The head is not complete yet.
    Partial,
    /// The bytes are no HTTP request head.
    Invalid,
}

/// The model of what the request parser finds.
pub enum RequestModel {
    Complete {
        offset: nat,
        method: Option<Seq<char>>,
        path: Option<Seq<char>>,
        version: Option<u8>,
        headers: Seq<(Seq<char>, Seq<u8>)>,
    },
    Partial,
    Invalid,
}

/// An optional string, by its characters.
pub open spec fn opt_chars(o: Option<&str>) -> Option<Seq<char>> {
    match o {
        Some(s) => Some(s@),
        None => None,
    }
}

/// The model of a request parse result.
pub open spec fn request_model(r: RequestParse) -> RequestModel {
    match r {
        RequestParse::Complete { offset, method, path, version, headers } => RequestModel::Complete {
            offset: offset as nat,
            method: opt_chars(method),
            path: opt_chars(path),
            version,
            headers: crate::handshake::header_models(headers@),
        },
        RequestParse::Partial => RequestModel::Partial,
        RequestParse::Invalid => RequestModel::Invalid,
    }
}

/// What `httparse::Request::parse`, with room for `max_headers` headers,
/// finds in a buffer.
pub uninterp spec fn parsed_request(buf: Seq<u8>, max_headers: nat) -> RequestModel;

/// `httparse::Request::parse` on `buf`, with room for `max_headers`
/// headers. The result is named by `parsed_request`; beyond that the
/// contract claims what the crate's source shows: a complete head is no
/// longer than the buffer, has a method, a path and a version, and holds at
/// most as many headers as there is room for.
#[verifier::external_body]
pub(crate) fn parse_request<'b>(buf: &'b [u8], max_headers: usize) -> (r: RequestParse<'b>)
    ensures
        request_model(r) == parsed_request(buf@, max_headers as nat),
        r matches RequestParse::Complete { offset, method, path, version, headers } ==> {
            &&& offset <= buf@.len()
            &&& headers@.len() <= max_headers
            &&& method is Some
            &&& path is Some
            &&& version is Some
        },
{
    let mut header_buf = vec![httparse::EMPTY_HEADER; max_headers];
    let mut request = httparse::Request::new(&mut header_buf);
    match request.parse(buf) {
        Ok(httparse::Status::Complete(offset)) => RequestParse::Complete {
            offset,
            method: request.method,
            path: request.path,
            version: request.version,
            headers: request.headers.iter().map(|h| Header { name: h.name, value: h.value }).collect(),
        },
        Ok(httparse::Status::Partial) => RequestParse::Partial,
        Err(_) => RequestParse::Invalid,
    }
}

/// What `httparse::Response::parse` finds in a buffer.
pub enum ResponseParse<'b> {
    /// A whole response head of `offset` bytes.
    Complete {
        offset: usize,
        version: Option<u8>,
        code: Option<u16>,
        headers: Vec<Header<'b>>,
    },
    /// The head is not complete yet.
    Partial,
    /// The bytes are no HTTP response head.
    Invalid,
}

/// The model of what the response parser finds.
pub enum ResponseModel {
    Complete {
        offset: nat,
        version: Option<u8>,
        code: Option<u16>,
        headers: Seq<(Seq<char>, Seq<u8>)>,
    },
    Partial,
    Invalid,
}

/// The model of a response parse result.
pub open spec fn response_model(r: ResponseParse) -> ResponseModel {
    match r {
        ResponseParse::Complete { offset, version, code, headers } => ResponseModel::Complete {
            offset: offset as nat,
            version,
            code,
            headers: crate::handshake::header_models(headers@),
        },
        ResponseParse::Partial => ResponseModel::Partial,
        ResponseParse::Invalid => ResponseModel::Invalid,
    }
}

/// What `httparse::Response::parse`, with room for `max_headers` headers,
/// finds in a buffer.
pub uninterp spec fn parsed_response(buf: Seq<u8>, max_headers: nat) -> ResponseModel;

/// `httparse::Response::parse` on `buf`, with room for `max_headers`
/// headers. The result is named by `parsed_response`; beyond that the
/// contract claims what the crate's source shows: a complete head is no
/// longer than the buffer, has a version and a code, and holds at most as
/// many headers as there is room for.
#[verifier::external_body]
pub(crate) fn parse_response<'b>(buf: &'b [u8], max_headers: usize) -> (r: ResponseParse<'b>)
    ensures
        response_model(r) == parsed_response(buf@, max_headers as nat),
        r matches ResponseParse::Complete { offset, version, code, headers } ==> {
            &&& offset <= buf@.len()
            &&& headers@.len() <= max_headers
            &&& version is Some
            &&& code is Some
        },
{
    let mut header_buf = vec![httparse::EMPTY_HEADER; max_headers];
    let mut response = httparse::Response::new(&mut header_buf);
    match response.parse(buf) {
        Ok(httparse::Status::Complete(offset)) => ResponseParse::Complete {
            offset,
            version: response.version,
            code: response.code,
            headers: response.headers.iter().map(|h| Header { name: h.name, value: h.value }).collect(),
        },
        Ok(httparse::Status::Partial) => ResponseParse::Partial,
        Err(_) => ResponseParse::Invalid,
    }
}

// Heads ///////////////////////////////////////////////////////////////////////

/// The HTTP versions a head can have.
#[derive(Debug, Clone, Copy, PartialEq, Eq, Structural)]
pub enum Version {
    /// HTTP/1.0
    Http10,
    /// HTTP/1.1
    Http11,
}

/// The head of an HTTP request: method, path, version and headers.
#[derive(Debug, Clone)]
pub struct RequestHead {
    pub method: String,
    pub path: String,
    pub version: Version,
    pub headers: Vec<(String, Vec<u8>)>,
}

/// The head of an HTTP response: status code, version and headers.
#[derive(Debug, Clone)]
pub struct ResponseHead {
    pub status: u16,
    pub version: Version,
    pub headers: Vec<(String, Vec<u8>)>,
}

/// The names and values of owned headers.
pub open spec fn owned_header_models(hs: Seq<(String, Vec<u8>)>) -> Seq<(Seq<char>, Seq<u8>)> {
    hs.map_values(|h: (String, Vec<u8>)| (h.0@, h.1@))
}

/// Errors reading an HTTP head.
#[derive(Debug, PartialEq, Eq, Structural)]
pub enum Error {
    /// The bytes are no HTTP head.
    Parse,
    /// The head has an HTTP version other than 1.0 and 1.1.
    UnknownHttpVersion(u8),
}

/// The version a minor version number stands for.
pub open spec fn version_of(n: u8) -> Option<Version> {
    if n == 0 {
        Some(Version::Http10)
    } else if n == 1 {
        Some(Version::Http11)
    } else {
        None
    }
}

/// Copy borrowed headers into owned ones.
fn own_headers(headers: &Vec<Header>) -> (r: Vec<(String, Vec<u8>)>)
    ensures
        owned_header_models(r@) == crate::handshake::header_models(headers@),
{
    let mut r: Vec<(String, Vec<u8>)> = Vec::new();
    let mut i: usize = 0;
    while i < headers.len()
        invariant
            i <= headers@.len(),
            owned_header_models(r@) =~= crate::handshake::header_models(headers@.take(i as int)),
        decreases headers@.len() - i,
    {
        let h = headers[i];
        let ghost before = r@;
        r.push((h.name.to_owned(), vstd::slice::slice_to_vec(h.value)));
        assert(headers@.take(i + 1) =~= headers@.take(i as int).push(h));
        assert(owned_header_models(r@) =~= owned_header_models(before).push((h.name@, h.value@)));
        i = i + 1;
    }
    assert(headers@.take(i as int) =~= headers@);
    r
}

/// HTTP/1.1 request header encoder/decoder.
#[derive(Debug)]
pub struct RequestHeaderCodec(());

impl RequestHeaderCodec {
    /// A request head codec.
    pub fn new() -> (r: Self) {
        Self(())
    }

    /// Read a request head (with room for 64 headers) from the start of
    /// `bytes`: none while it is not complete.
    pub fn decode(&mut self, bytes: &[u8]) -> (r: Result<Option<RequestHead>, Error>)
        ensures
            match parsed_request(bytes@, 64) {
                RequestModel::Partial => r matches Ok(None),
                RequestModel::Invalid => r matches Err(Error::Parse),
                RequestModel::Complete { method, path, version, headers, .. } => match version_of(
                    version->0,
                ) {
                    None => r == Err::<Option<RequestHead>, Error>(
                        Error::UnknownHttpVersion(version->0),
                    ),
                    Some(v) => r matches Ok(Some(head)) && Some(head.method@)
                        == method && head.path@ == path->0 && head.version == v
                        && owned_header_models(head.headers@) == headers,
                },
            },
    {
        match parse_request(bytes, 64) {
            RequestParse::Partial => Ok(None),
            RequestParse::Invalid => Err(Error::Parse),
            RequestParse::Complete { method, path, version, headers, .. } => {
                let version = match version {
                    Some(0) => Version::Http10,
                    Some(1) => Version::Http11,
                    Some(n) => return Err(Error::UnknownHttpVersion(n)),
                    None => return Err(Error::Parse),
                };
                let method = match method {
                    Some(m) => m.to_owned(),
                    None => return Err(Error::Parse),
                };
                let path = match path {
                    Some(p) => p.to_owned(),
                    None => return Err(Error::Parse),
                };
                Ok(Some(RequestHead { method, path, version, headers: own_headers(&headers) }))
            },
        }
    }

    /// Write a request head: the request line with HTTP/1.1, each header,
    /// and the empty line.
    pub fn encode(&mut self, rq: &RequestHead, buf: &mut Vec<u8>)
        ensures
            final(buf)@ == old(buf)@ + encode_utf8(rq.method@) + encode_utf8(" "@) + encode_utf8(
                rq.path@,
            ) + encode_utf8(" HTTP/1.1\r\n"@) + headers_text(owned_header_models(rq.headers@))
                + encode_utf8("\r\n"@),
    {
        append_bytes(buf, rq.method.as_str().as_bytes());
        append_bytes(buf, " ".as_bytes());
        append_bytes(buf, rq.path.as_str().as_bytes());
        append_bytes(buf, " HTTP/1.1\r\n".as_bytes());
        append_headers(&rq.headers, buf);
        append_bytes(buf, "\r\n".as_bytes());
    }
}

/// The header lines of some headers: `name: value` and a line break each.
pub open spec fn headers_text(hs: Seq<(Seq<char>, Seq<u8>)>) -> Seq<u8>
    decreases hs.len(),
{
    if hs.len() == 0 {
        Seq::empty()
    } else {
        headers_text(hs.drop_last()) + encode_utf8(hs.last().0) + encode_utf8(": "@) + hs.last().1
            + encode_utf8("\r\n"@)
    }
}

/// Write header lines.
fn append_headers(headers: &Vec<(String, Vec<u8>)>, buf: &mut Vec<u8>)
    ensures
        final(buf)@ == old(buf)@ + headers_text(owned_header_models(headers@)),
{
    let ghost hs = owned_header_models(headers@);
    let ghost start = buf@;
    let mut i: usize = 0;
    assert(hs.take(0) =~= Seq::<(Seq<char>, Seq<u8>)>::empty());
    assert(start =~= start + headers_text(hs.take(0)));
    while i < headers.len()
        invariant
            i <= headers@.len(),
            hs == owned_header_models(headers@),
            buf@ == start + headers_text(hs.take(i as int)),
        decreases headers@.len() - i,
    {
        let (k, v) = &headers[i];
        append_bytes(buf, k.as_str().as_bytes());
        append_bytes(buf, ": ".as_bytes());
        append_bytes(buf, v.as_slice());
        append_bytes(buf, "\r\n".as_bytes());
        assert(hs.take(i + 1).drop_last() =~= hs.take(i as int));
        assert(hs.take(i + 1).last() == (k@, v@));
        i = i + 1;
    }
    assert(hs.take(i as int) =~= hs);
}

/// The decimal digits of a number.
pub open spec fn decimal_text(n: nat) -> Seq<u8>
    decreases n,
{
    if n < 10 {
        seq![(48 + n) as u8]
    } else {
        decimal_text(n / 10).push((48 + n % 10) as u8)
    }
}

/// Write the decimal digits of a number.
fn append_decimal(buf: &mut Vec<u8>, n: u16)
    ensures
        final(buf)@ == old(buf)@ + decimal_text(n as nat),
    decreases n,
{
    if n < 10 {
        buf.push(48 + n as u8);
    } else {
        append_decimal(buf, n / 10);
        buf.push(48 + (n % 10) as u8);
    }
}

/// HTTP/1.1 response header encoder/decoder.
#[derive(Debug)]
pub struct ResponseHeaderCodec(());

impl ResponseHeaderCodec {
    /// A response head codec.
    pub fn new() -> (r: Self) {
        Self(())
    }

    /// Read a response head (with room for 64 headers) from the start of
    /// `bytes`: none while it is not complete.
    pub fn decode(&mut self, bytes: &[u8]) -> (r: Result<Option<ResponseHead>, Error>)
        ensures
            match parsed_response(bytes@, 64) {
                ResponseModel::Partial => r matches Ok(None),
                ResponseModel::Invalid => r matches Err(Error::Parse),
                ResponseModel::Complete { code, version, headers, .. } => match version_of(
                    version->0,
                ) {
                    None => r == Err::<Option<ResponseHead>, Error>(
                        Error::UnknownHttpVersion(version->0),
                    ),
                    Some(v) => r matches Ok(Some(head)) && head.status == code->0 && head.version
                        == v && owned_header_models(head.headers@) == headers,
                },
            },
    {
        match parse_response(bytes, 64) {
            ResponseParse::Partial => Ok(None),
            ResponseParse::Invalid => Err(Error::Parse),
            ResponseParse::Complete { code, version, headers, .. } => {
                let status = match code {
                    Some(c) => c,
                    None => return Err(Error::Parse),
                };
                let version = match version {
                    Some(0) => Version::Http10,
                    Some(1) => Version::Http11,
                    Some(n) => return Err(Error::UnknownHttpVersion(n)),
                    None => return Err(Error::Parse),
                };
                Ok(Some(ResponseHead { status, version, headers: own_headers(&headers) }))
            },
        }
    }

    /// Write a response head: the status line with HTTP/1.1, the status
    /// code and its reason phrase (`N/A` for an unknown code) written
    /// together, each header, and the empty line.
    pub fn encode(&mut self, rs: &ResponseHead, buf: &mut Vec<u8>)
        ensures
            final(buf)@ == old(buf)@ + encode_utf8("HTTP/1.1 "@) + decimal_text(rs.status as nat)
                + encode_utf8(
                match status_reason(rs.status) {
                    Some(reason) => reason,
                    None => "N/A"@,
                },
            ) + encode_utf8("\r\n"@) + headers_text(owned_header_models(rs.headers@))
                + encode_utf8("\r\n"@),
    {
        append_bytes(buf, "HTTP/1.1 ".as_bytes());
        append_decimal(buf, rs.status);
        let reason = match crate::handshake::server::status_text(rs.status) {
            Some((_, reason)) => reason,
            None => "N/A",
        };
        append_bytes(buf, reason.as_bytes());
        append_bytes(buf, "\r\n".as_bytes());
        append_headers(&rs.headers, buf);
        append_bytes(buf, "\r\n".as_bytes());
    }
}

} // verus!
