//! Upgrading an HTTP request, as an HTTP server library has received it,
//! into a websocket connection.

use vstd::prelude::*;
use vstd::string::StringSliceAdditionalSpecFns;
use vstd::utf8::{decode_utf8, encode_utf8, valid_utf8};
use crate::handshake::server::{accept_value, accept_key, Server};
use crate::extension::Extension;
use crate::handshake::{
    append_extension_header_value, extensions_list, no_offer_named, offers_of,
    configure_extensions, first_named, has_name, header_models, lemma_first_named,
    with_first_header, Error, Header,
};
use crate::util::{
    bytes_eq, eq_ignore_ascii_case, eq_ignore_ascii_case_spec, is_ascii_whitespace, is_ascii_ws,
    split_bytes, split_slice, utf8_str,
};

verus! {

/// An error attempting to upgrade the request.
#[derive(Debug)]
pub enum NegotiationError {
    /// The request provided wasn't a socket upgrade request.
    NotAnUpgradeRequest,
    /// A handshake error encountered attempting to upgrade the request.
    HandshakeError(Error),
}

impl From<Error> for NegotiationError {
    fn from(e: Error) -> (r: Self) {
        NegotiationError::HandshakeError(e)
    }
}

impl vstd::std_specs::convert::FromSpecImpl<Error> for NegotiationError {
    open spec fn obeys_from_spec() -> bool {
        true
    }

    open spec fn from_spec(e: Error) -> NegotiationError {
        NegotiationError::HandshakeError(e)
    }
}

/// This is handed back on a successful call to [`negotiate_upgrade`]: the
/// client's key and the extension configuration it asked for.
pub struct Negotiation {
    key: Vec<u8>,
    extension_config: Vec<String>,
}

impl Negotiation {
    /// The client's key.
    pub closed spec fn key_spec(&self) -> Seq<u8> {
        self.key@
    }

    /// The values of the client's extension headers.
    pub closed spec fn config_spec(&self) -> Seq<Seq<char>> {
        self.extension_config@.map_values(|s: String| s@)
    }
}

// Header values //////////////////////////////////////////////////////////////

/// Bytes without their leading ASCII whitespace.
pub open spec fn ascii_trim_start(x: Seq<u8>) -> Seq<u8>
    decreases x.len(),
{
    if x.len() > 0 && is_ascii_ws(x[0]) {
        ascii_trim_start(x.drop_first())
    } else {
        x
    }
}

/// Bytes without their trailing ASCII whitespace.
pub open spec fn ascii_trim_end(x: Seq<u8>) -> Seq<u8>
    decreases x.len(),
{
    if x.len() > 0 && is_ascii_ws(x.last()) {
        ascii_trim_end(x.drop_last())
    } else {
        x
    }
}

/// Bytes without their leading and trailing ASCII whitespace.
pub open spec fn ascii_trim(x: Seq<u8>) -> Seq<u8> {
    ascii_trim_end(ascii_trim_start(x))
}

/// One of the comma separated parts of a header value is the given value,
/// up to ASCII case, once its whitespace is trimmed.
pub open spec fn value_contains(v: Seq<u8>, value: Seq<u8>) -> bool {
    exists|j: int|
        0 <= j < split_bytes(v, 44).len() && eq_ignore_ascii_case_spec(
            ascii_trim(#[trigger] split_bytes(v, 44)[j]),
            value,
        )
}

/// A header of the given name has a value that lists the given value.
pub open spec fn header_contains(
    hs: Seq<(Seq<char>, Seq<u8>)>,
    name: Seq<char>,
    value: Seq<u8>,
) -> bool {
    exists|i: int| 0 <= i < hs.len() && has_name(#[trigger] hs[i], name) && value_contains(hs[i].1, value)
}

/// Trim leading and trailing ASCII whitespace.
fn trim(x: &[u8]) -> (r: &[u8])
    ensures
        r@ == ascii_trim(x@),
{
    let mut a: usize = 0;
    assert(x@.skip(0) =~= x@);
    while a < x.len() && is_ascii_whitespace(x[a])
        invariant
            a <= x@.len(),
            ascii_trim_start(x@) == ascii_trim_start(x@.skip(a as int)),
        decreases x@.len() - a,
    {
        assert(x@.skip(a as int).drop_first() =~= x@.skip(a + 1));
        a = a + 1;
    }
    let ghost mid = x@.skip(a as int);
    let mut z: usize = x.len();
    assert(x@.subrange(a as int, z as int) =~= mid);
    while z > a && is_ascii_whitespace(x[z - 1])
        invariant
            a <= z <= x@.len(),
            mid == x@.skip(a as int),
            ascii_trim_end(mid) == ascii_trim_end(x@.subrange(a as int, z as int)),
        decreases z,
    {
        assert(x@.subrange(a as int, z as int).drop_last() =~= x@.subrange(a as int, z - 1));
        z = z - 1;
    }
    vstd::slice::slice_subrange(x, a, z)
}

/// Does a header value list the given value?
fn value_lists(v: &[u8], value: &[u8]) -> (r: bool)
    ensures
        r == value_contains(v@, value@),
{
    let pieces = split_slice(v, 44);
    let ghost sp = split_bytes(v@, 44);
    let mut i: usize = 0;
    while i < pieces.len()
        invariant
            i <= pieces@.len(),
            pieces@.len() == sp.len(),
            sp == split_bytes(v@, 44),
            forall|k: int| 0 <= k < pieces@.len() ==> (#[trigger] pieces@[k])@ == sp[k],
            forall|k: int| 0 <= k < i ==> !eq_ignore_ascii_case_spec(ascii_trim(#[trigger] sp[k]), value@),
        decreases pieces@.len() - i,
    {
        assert(pieces@[i as int]@ == sp[i as int]);
        if eq_ignore_ascii_case(trim(pieces[i]), value) {
            return true;
        }
        i = i + 1;
    }
    false
}

/// Check if there is a header of the given name containing the wanted value.
fn header_contains_value(headers: &[Header], name: &str, value: &[u8]) -> (r: bool)
    ensures
        r == header_contains(header_models(headers@), name@, value@),
{
    let ghost hs = header_models(headers@);
    let mut i: usize = 0;
    while i < headers.len()
        invariant
            i <= headers@.len(),
            hs == header_models(headers@),
            forall|k: int| 0 <= k < i ==> !(has_name(#[trigger] hs[k], name@) && value_contains(hs[k].1, value@)),
        decreases headers@.len() - i,
    {
        let h = headers[i];
        assert(hs[i as int] == (h.name@, h.value@));
        if eq_ignore_ascii_case(h.name.as_bytes(), name.as_bytes()) {
            if value_lists(h.value, value) {
                return true;
            }
        }
        i = i + 1;
    }
    false
}

/// A request looks like a websocket upgrade request: a `Connection` header
/// lists `upgrade` and an `Upgrade` header lists `websocket`.
#[verifier::opaque]
pub open spec fn upgrade_request(hs: Seq<(Seq<char>, Seq<u8>)>) -> bool {
    header_contains(hs, "Connection"@, encode_utf8("upgrade"@)) && header_contains(
        hs,
        "Upgrade"@,
        encode_utf8("websocket"@),
    )
}

/// Check if a request looks like a websocket upgrade request.
fn is_upgrade_request(headers: &[Header]) -> (r: bool)
    ensures
        r == upgrade_request(header_models(headers@)),
{
    reveal(upgrade_request);
    header_contains_value(headers, "Connection", "upgrade".as_bytes())
        && header_contains_value(headers, "Upgrade", "websocket".as_bytes())
}

/// Why a negotiation fails, in the model.
pub enum NegotiationFailure {
    NotAnUpgradeRequest,
    /// A header is missing, or wrong: its name.
    HeaderNotFound(Seq<char>),
    BadKey,
    Utf8,
}

/// The values of the headers named `Sec-WebSocket-Extensions`.
pub open spec fn extension_values(hs: Seq<(Seq<char>, Seq<u8>)>) -> Seq<Seq<u8>>
    decreases hs.len(),
{
    if hs.len() == 0 {
        Seq::empty()
    } else if has_name(hs.last(), "Sec-WebSocket-Extensions"@) {
        extension_values(hs.drop_last()).push(hs.last().1)
    } else {
        extension_values(hs.drop_last())
    }
}

/// The key of an upgrade request: it must be an upgrade request with a
/// key (the first `Sec-WebSocket-Key` header), whose first
/// `Sec-WebSocket-Version` header is exactly `13`.
pub open spec fn key_check(hs: Seq<(Seq<char>, Seq<u8>)>) -> Result<Seq<u8>, NegotiationFailure> {
    if !upgrade_request(hs) {
        Err(NegotiationFailure::NotAnUpgradeRequest)
    } else if first_named(hs, "Sec-WebSocket-Key"@) is None {
        Err(NegotiationFailure::HeaderNotFound("Sec-WebSocket-Key"@))
    } else if !(first_named(hs, "Sec-WebSocket-Version"@) matches Some(v) && hs[v].1 == encode_utf8(
        "13"@,
    )) {
        Err(NegotiationFailure::HeaderNotFound("Sec-WebSocket-Version"@))
    } else {
        Ok(hs[first_named(hs, "Sec-WebSocket-Key"@)->0].1)
    }
}

/// What `negotiate_upgrade` decides on the headers of a request: a key as
/// `key_check` finds it, of 24 bytes, and extension headers that are UTF-8;
/// it then gives the key and those extension headers.
pub open spec fn negotiation(hs: Seq<(Seq<char>, Seq<u8>)>) -> Result<
    (Seq<u8>, Seq<Seq<u8>>),
    NegotiationFailure,
> {
    match key_check(hs) {
        Err(e) => Err(e),
        Ok(key) => if key.len() != 24 {
            Err(NegotiationFailure::BadKey)
        } else if exists|i: int|
            0 <= i < extension_values(hs).len() && !valid_utf8(#[trigger] extension_values(hs)[i]) {
            Err(NegotiationFailure::Utf8)
        } else {
            Ok((key, extension_values(hs)))
        },
    }
}

/// A key check agrees with its model.
pub open spec fn key_matches<'a>(r: Result<&'a [u8], NegotiationError>, m: Result<Seq<u8>, NegotiationFailure>) -> bool {
    match m {
        Ok(key) => r matches Ok(k) && k@ == key,
        Err(NegotiationFailure::NotAnUpgradeRequest) => r matches Err(
            NegotiationError::NotAnUpgradeRequest,
        ),
        Err(NegotiationFailure::HeaderNotFound(name)) => r matches Err(
            NegotiationError::HandshakeError(Error::HeaderNotFound(n)),
        ) && n@ == name,
        Err(_) => false,
    }
}

/// Find the key of an upgrade request.
fn upgrade_key<'a>(headers: &[Header<'a>]) -> (r: Result<&'a [u8], NegotiationError>)
    ensures
        key_matches(r, key_check(header_models(headers@))),
{
    let ghost hs = header_models(headers@);
    if !is_upgrade_request(headers) {
        return Err(NegotiationError::NotAnUpgradeRequest);
    }
    let key = match with_first_header(headers, "Sec-WebSocket-Key") {
        Ok(k) => k,
        Err(_) => {
            return Err(
                NegotiationError::HandshakeError(
                    Error::HeaderNotFound("Sec-WebSocket-Key".to_owned()),
                ),
            );
        },
    };
    proof {
        lemma_first_named(hs, "Sec-WebSocket-Key"@);
        lemma_first_named(hs, "Sec-WebSocket-Version"@);
        let ki = first_named(hs, "Sec-WebSocket-Key"@)->0;
        assert(hs[ki] == (headers@[ki].name@, headers@[ki].value@));
    }
    let version_ok = match with_first_header(headers, "Sec-WebSocket-Version") {
        Ok(v) => {
            proof {
                let vi = first_named(hs, "Sec-WebSocket-Version"@)->0;
                assert(hs[vi] == (headers@[vi].name@, headers@[vi].value@));
            }
            bytes_eq(v, "13".as_bytes())
        },
        Err(_) => false,
    };
    if !version_ok {
        return Err(
            NegotiationError::HandshakeError(
                Error::HeaderNotFound("Sec-WebSocket-Version".to_owned()),
            ),
        );
    }
    Ok(key)
}

/// A negotiation result agrees with its model.
pub open spec fn negotiation_matches(
    r: Result<Negotiation, NegotiationError>,
    m: Result<(Seq<u8>, Seq<Seq<u8>>), NegotiationFailure>,
) -> bool {
    match m {
        Ok((key, values)) => r matches Ok(n) && n.key_spec() == key && n.config_spec() == values.map_values(
            |v: Seq<u8>| decode_utf8(v),
        ),
        Err(NegotiationFailure::NotAnUpgradeRequest) => r matches Err(
            NegotiationError::NotAnUpgradeRequest,
        ),
        Err(NegotiationFailure::HeaderNotFound(name)) => r matches Err(
            NegotiationError::HandshakeError(Error::HeaderNotFound(n)),
        ) && n@ == name,
        Err(NegotiationFailure::BadKey) => r matches Err(
            NegotiationError::HandshakeError(Error::InvalidSecWebSocketAccept),
        ),
        Err(NegotiationFailure::Utf8) => r matches Err(
            NegotiationError::HandshakeError(Error::Utf8),
        ),
    }
}

/// Collect the values of the extension headers, as strings.
fn extension_config(headers: &[Header]) -> (r: Option<Vec<String>>)
    ensures
        match r {
            Some(v) => {
                &&& forall|i: int| 0 <= i < extension_values(header_models(headers@)).len() ==> valid_utf8(#[trigger] extension_values(header_models(headers@))[i])
                &&& v@.map_values(|s: String| s@) == extension_values(header_models(headers@)).map_values(|b: Seq<u8>| decode_utf8(b))
            },
            None => exists|i: int| 0 <= i < extension_values(header_models(headers@)).len() && !valid_utf8(#[trigger] extension_values(header_models(headers@))[i]),
        },
{
    let ghost hs = header_models(headers@);
    let mut config: Vec<String> = Vec::new();
    let mut i: usize = 0;
    while i < headers.len()
        invariant
            i <= headers@.len(),
            hs == header_models(headers@),
            forall|k: int| 0 <= k < extension_values(hs.take(i as int)).len() ==> valid_utf8(#[trigger] extension_values(hs.take(i as int))[k]),
            config@.map_values(|s: String| s@) == extension_values(hs.take(i as int)).map_values(|b: Seq<u8>| decode_utf8(b)),
        decreases headers@.len() - i,
    {
        let h = headers[i];
        let ghost before = config@;
        assert(hs.take(i + 1).drop_last() =~= hs.take(i as int));
        assert(hs.take(i + 1).last() == (h.name@, h.value@));
        if eq_ignore_ascii_case(h.name.as_bytes(), "Sec-WebSocket-Extensions".as_bytes()) {
            match utf8_str(h.value) {
                None => {
                    proof {
                        assert(extension_values(hs.take(i + 1)).last() == h.value@);
                        prefix_values_in(hs, i + 1);
                    }
                    return None;
                },
                Some(s) => {
                    proof {
                        vstd::utf8::encode_utf8_decode_utf8(s@);
                    }
                    config.push(s.to_owned());
                    assert(config@.map_values(|s: String| s@) =~= before.map_values(|s: String| s@).push(decode_utf8(h.value@)));
                    assert(extension_values(hs.take(i + 1)) == extension_values(hs.take(i as int)).push(h.value@));
                    assert(extension_values(hs.take(i + 1)).map_values(|b: Seq<u8>| decode_utf8(b)) =~= extension_values(hs.take(i as int)).map_values(|b: Seq<u8>| decode_utf8(b)).push(decode_utf8(h.value@)));
                },
            }
        }
        i = i + 1;
    }
    assert(hs.take(i as int) =~= hs);
    Some(config)
}

/// The extension values of a prefix are the first extension values of the
/// whole.
proof fn prefix_values_in(hs: Seq<(Seq<char>, Seq<u8>)>, n: int)
    requires
        0 <= n <= hs.len(),
    ensures
        extension_values(hs.take(n)).len() <= extension_values(hs).len(),
        forall|k: int| 0 <= k < extension_values(hs.take(n)).len() ==> #[trigger] extension_values(hs.take(n))[k] == extension_values(hs)[k],
    decreases hs.len() - n,
{
    if n < hs.len() {
        assert(hs.take(n + 1).drop_last() =~= hs.take(n));
        let a = extension_values(hs.take(n));
        let b = extension_values(hs.take(n + 1));
        assert(forall|k: int| 0 <= k < a.len() ==> a[k] == b[k]);
        prefix_values_in(hs, n + 1);
    } else {
        assert(hs.take(n) =~= hs);
    }
}

/// Upgrade a request, given by its headers, to a socket connection: what
/// is needed to answer it, or why it cannot be.
pub fn negotiate_upgrade(headers: &[Header]) -> (r: Result<Negotiation, NegotiationError>)
    ensures
        negotiation_matches(r, negotiation(header_models(headers@))),
{
    let key = match upgrade_key(headers) {
        Ok(k) => k,
        Err(e) => return Err(e),
    };
    if key.len() != 24 {
        return Err(NegotiationError::HandshakeError(Error::InvalidSecWebSocketAccept));
    }
    let key = vstd::slice::slice_to_vec(key);
    match extension_config(headers) {
        None => Err(NegotiationError::HandshakeError(Error::Utf8)),
        Some(extension_config) => Ok(Negotiation { key, extension_config }),
    }
}

/// The response that completes an upgrade: its status code and headers.
#[derive(Debug)]
pub struct UpgradeResponse {
    /// The status code.
    pub status: u16,
    /// The header names and values.
    pub headers: Vec<(String, Vec<u8>)>,
}

/// The headers of an upgrade response, as names and values.
pub open spec fn response_headers(r: UpgradeResponse) -> Seq<(Seq<char>, Seq<u8>)> {
    r.headers@.map_values(|h: (String, Vec<u8>)| (h.0@, h.1@))
}

/// The headers an upgrade response has: `connection: upgrade`,
/// `upgrade: websocket`, the accept value of the key, and, where the server
/// has extensions, the list of the enabled ones.
pub open spec fn upgrade_headers(key: Seq<u8>, extensions: Seq<Box<dyn Extension>>) -> Seq<
    (Seq<char>, Seq<u8>),
> {
    let base = seq![
        ("connection"@, encode_utf8("upgrade"@)),
        ("upgrade"@, encode_utf8("websocket"@)),
        ("Sec-WebSocket-Accept"@, encode_utf8(accept_value(key))),
    ];
    if extensions.len() == 0 {
        base
    } else {
        base.push(
            (
                "Sec-WebSocket-Extensions"@,
                extensions_list(extensions.filter(|e: Box<dyn Extension>| e.spec_enabled())),
            ),
        )
    }
}

/// No line of an extension configuration offers an extension of the
/// given ones.
pub open spec fn config_unmatched(cs: Seq<Seq<char>>, extensions: Seq<Box<dyn Extension>>) -> bool {
    forall|i: int|
        0 <= i < cs.len() ==> no_offer_named(extensions, offers_of(encode_utf8(#[trigger] cs[i])))
}

impl Negotiation {
    /// Generate the response to the negotiation request, configuring the
    /// server's extensions with the configuration the client asked for.
    pub fn into_response(self, server: &mut Server) -> (r: Result<UpgradeResponse, Error>)
        ensures
            final(server).protocols_spec() == old(server).protocols_spec(),
            config_unmatched(self.config_spec(), old(server).extensions_spec()) ==> r is Ok
                && final(server).extensions_spec() == old(server).extensions_spec(),
            r matches Ok(resp) ==> {
                &&& resp.status == 101
                &&& response_headers(resp) == upgrade_headers(
                    self.key_spec(),
                    final(server).extensions_spec(),
                )
            },
    {
        let ghost cs = self.config_spec();
        let ghost unmatched = config_unmatched(cs, server.extensions_spec());
        let mut i: usize = 0;
        while i < self.extension_config.len()
            invariant
                i <= self.extension_config@.len(),
                cs == self.extension_config@.map_values(|s: String| s@),
                server.protocols_spec() == old(server).protocols_spec(),
                unmatched == config_unmatched(cs, old(server).extensions_spec()),
                unmatched ==> server.extensions_spec() == old(server).extensions_spec(),
            decreases self.extension_config@.len() - i,
        {
            let line = self.extension_config[i].as_str();
            assert(cs[i as int] == line@);
            proof {
                if unmatched {
                    assert(no_offer_named(
                        old(server).extensions_spec(),
                        offers_of(encode_utf8(cs[i as int])),
                    ));
                }
            }
            let exts = server.extensions_mut();
            let ghost before = exts@;
            assert(unmatched ==> before == old(server).extensions_spec());
            assert(line.spec_bytes() == encode_utf8(cs[i as int]));
            match configure_extensions(exts, line) {
                Ok(()) => {},
                Err(e) => {
                    assert(!no_offer_named(before, offers_of(line.spec_bytes())));
                    assert(!unmatched);
                    return Err(e);
                },
            }
            i = i + 1;
        }
        let accept = accept_key(self.key.as_slice());
        let mut headers: Vec<(String, Vec<u8>)> = Vec::new();
        headers.push(("connection".to_owned(), vstd::slice::slice_to_vec("upgrade".as_bytes())));
        headers.push(("upgrade".to_owned(), vstd::slice::slice_to_vec("websocket".as_bytes())));
        headers.push(
            (
                "Sec-WebSocket-Accept".to_owned(),
                vstd::slice::slice_to_vec(accept.as_str().as_bytes()),
            ),
        );
        let exts = server.extensions_mut();
        let has_extensions = exts.len() > 0;
        let mut value: Vec<u8> = Vec::new();
        append_extension_header_value(exts, &mut value);
        if has_extensions {
            headers.push(("Sec-WebSocket-Extensions".to_owned(), value));
        }
        let r = UpgradeResponse { status: 101, headers };
        assert(response_headers(r) =~= upgrade_headers(self.key_spec(), server.extensions_spec()));
        Ok(r)
    }
}

} // verus!
