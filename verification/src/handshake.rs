//! Websocket handshakes (RFC 6455, section 4): the header checks and the
//! extension negotiation both sides share.

pub mod access_control;
pub mod http;
pub mod server;

use vstd::prelude::*;
use vstd::string::StringSliceAdditionalSpecFns;
use vstd::utf8::{decode_utf8, encode_utf8, valid_utf8};
use crate::extension::{Extension, Param, ParamModel};
use crate::util::{
    append_bytes, eq_ignore_ascii_case, eq_ignore_ascii_case_spec, lemma_split_len, split_bytes,
    split_str, strip_end, strip_start, trim, trim_matches, trimmed, utf8_str,
};

verus! {

/// How many HTTP headers do we support during parsing?
pub const MAX_NUM_HEADERS: usize = 32;

/// An HTTP header as the request parser hands it out: its name and its
/// raw value.
#[derive(Debug, Clone, Copy)]
pub struct Header<'a> {
    /// The header name.
    pub name: &'a str,
    /// The raw header value.
    pub value: &'a [u8],
}

/// Enumeration of possible handshake errors.
#[derive(Debug)]
pub enum Error {
    /// An HTTP version =/= 1.1 was encountered.
    UnsupportedHttpVersion,
    /// The handshake request was not a GET request.
    InvalidRequestMethod,
    /// An HTTP header has not been present.
    HeaderNotFound(String),
    /// An HTTP header value was not expected.
    UnexpectedHeader(String),
    /// The Sec-WebSocket-Accept header value did not match.
    InvalidSecWebSocketAccept,
    /// The server returned an extension we did not ask for.
    UnsolicitedExtension,
    /// The server returned a protocol we did not ask for.
    UnsolicitedProtocol,
    /// An extension produced an error while encoding or decoding.
    Extension(String),
    /// The HTTP entity could not be parsed successfully.
    Http,
    /// UTF-8 decoding failed.
    Utf8,
}

// Header checks //////////////////////////////////////////////////////////////

/// The models of headers: their names and values.
pub open spec fn header_models(hs: Seq<Header>) -> Seq<(Seq<char>, Seq<u8>)> {
    hs.map_values(|h: Header| (h.name@, h.value@))
}

/// A header has the given name, up to ASCII case.
pub open spec fn has_name(h: (Seq<char>, Seq<u8>), name: Seq<char>) -> bool {
    eq_ignore_ascii_case_spec(encode_utf8(h.0), encode_utf8(name))
}

/// A header value holds, among its comma separated parts, one that is
/// `ours` up to ASCII case once its whitespace is trimmed.
pub open spec fn value_lists(value: Seq<u8>, ours: Seq<u8>) -> bool {
    exists|i: int|
        0 <= i < split_bytes(value, 44).len() && eq_ignore_ascii_case_spec(
            encode_utf8(trimmed(decode_utf8(#[trigger] split_bytes(value, 44)[i]))),
            ours,
        )
}

/// How far the search for a header value has come.
pub enum Scan {
    /// No header of the name seen.
    Init,
    /// Headers of the name seen, none with the value.
    Name,
    /// A header of the name with the value seen.
    Match,
    /// A header of the name whose value is not UTF-8 seen last.
    Failed,
}

/// One header of the name, seen in the given state: a match stays; else a
/// value that is not UTF-8 fails, one that lists ours matches, and any other
/// is a header of the name without the value.
pub open spec fn scan_header(st: Scan, value: Seq<u8>, ours: Seq<u8>) -> Scan {
    if st is Match {
        Scan::Match
    } else if !valid_utf8(value) {
        Scan::Failed
    } else if value_lists(value, ours) {
        Scan::Match
    } else {
        Scan::Name
    }
}

/// The search for `ours` among the values of the headers named `name`.
pub open spec fn scan_headers(hs: Seq<(Seq<char>, Seq<u8>)>, name: Seq<char>, ours: Seq<char>) -> Scan
    decreases hs.len(),
{
    if hs.len() == 0 {
        Scan::Init
    } else {
        let st = scan_headers(hs.drop_last(), name, ours);
        if has_name(hs.last(), name) {
            scan_header(st, hs.last().1, encode_utf8(ours))
        } else {
            st
        }
    }
}

/// Does the value list `ours`?
fn lists_value(value: &str, ours: &str) -> (r: bool)
    ensures
        r == value_lists(value.spec_bytes(), ours.spec_bytes()),
{
    let parts = split_str(value, 44);
    let ghost sp = split_bytes(value.spec_bytes(), 44);
    let mut i: usize = 0;
    while i < parts.len()
        invariant
            i <= parts@.len(),
            parts@.len() == sp.len(),
            sp == split_bytes(value.spec_bytes(), 44),
            forall|k: int| 0 <= k < parts@.len() ==> (#[trigger] parts@[k]).spec_bytes() == sp[k],
            forall|k: int|
                0 <= k < i ==> !eq_ignore_ascii_case_spec(
                    encode_utf8(trimmed(decode_utf8(#[trigger] sp[k]))),
                    ours.spec_bytes(),
                ),
        decreases parts@.len() - i,
    {
        let part = parts[i];
        proof {
            vstd::utf8::encode_utf8_decode_utf8(part@);
            assert(decode_utf8(sp[i as int]) == part@);
        }
        let t = trim(part);
        if eq_ignore_ascii_case(t.as_bytes(), ours.as_bytes()) {
            assert(eq_ignore_ascii_case_spec(
                encode_utf8(trimmed(decode_utf8(sp[i as int]))),
                ours.spec_bytes(),
            ));
            return true;
        }
        i = i + 1;
    }
    false
}

/// The answer to a search: found, or which header error.
pub open spec fn scan_answer<T>(st: Scan, r: Result<T, Error>, name: Seq<char>) -> bool {
    match st {
        Scan::Init => r matches Err(Error::HeaderNotFound(n)) && n@ == name,
        Scan::Name => r matches Err(Error::UnexpectedHeader(n)) && n@ == name,
        Scan::Match => r is Ok,
        Scan::Failed => r matches Err(Error::Utf8),
    }
}

/// Check that among the values of the headers named `name` (up to ASCII
/// case), one lists `ours`.
pub fn expect_ascii_header(headers: &[Header], name: &str, ours: &str) -> (r: Result<(), Error>)
    ensures
        scan_answer(scan_headers(header_models(headers@), name@, ours@), r, name@),
{
    let mut st = Scan::Init;
    let mut i: usize = 0;
    while i < headers.len()
        invariant
            i <= headers@.len(),
            st == scan_headers(header_models(headers@.take(i as int)), name@, ours@),
        decreases headers@.len() - i,
    {
        let h = headers[i];
        assert(headers@.take(i + 1).drop_last() =~= headers@.take(i as int));
        assert(header_models(headers@.take(i + 1)).drop_last() =~= header_models(headers@.take(i as int)));
        assert(header_models(headers@.take(i + 1)).last() == (h.name@, h.value@));
        if eq_ignore_ascii_case(h.name.as_bytes(), name.as_bytes()) {
            let matched = match st {
                Scan::Match => true,
                _ => false,
            };
            if !matched {
                st = match utf8_str(h.value) {
                    None => Scan::Failed,
                    Some(v) => if lists_value(v, ours) {
                        Scan::Match
                    } else {
                        Scan::Name
                    },
                };
            }
        }
        i = i + 1;
    }
    assert(headers@.take(i as int) =~= headers@);
    match st {
        Scan::Init => Err(Error::HeaderNotFound(name.to_owned())),
        Scan::Name => Err(Error::UnexpectedHeader(name.to_owned())),
        Scan::Match => Ok(()),
        Scan::Failed => Err(Error::Utf8),
    }
}

/// The index of the first header named `name`, if any.
#[verifier::opaque]
pub open spec fn first_named(hs: Seq<(Seq<char>, Seq<u8>)>, name: Seq<char>) -> Option<int> {
    if exists|i: int| 0 <= i < hs.len() && has_name(#[trigger] hs[i], name) {
        Some(
            choose|i: int|
                0 <= i < hs.len() && has_name(#[trigger] hs[i], name) && forall|j: int|
                    0 <= j < i ==> !has_name(#[trigger] hs[j], name),
        )
    } else {
        None
    }
}

/// What `first_named` finds: the first header of the name, or none where
/// no header has the name.
pub proof fn lemma_first_named(hs: Seq<(Seq<char>, Seq<u8>)>, name: Seq<char>)
    ensures
        first_named(hs, name) matches Some(i) ==> {
            &&& 0 <= i < hs.len()
            &&& has_name(hs[i], name)
            &&& forall|j: int| 0 <= j < i ==> !has_name(#[trigger] hs[j], name)
        },
        first_named(hs, name) is None ==> forall|j: int|
            0 <= j < hs.len() ==> !has_name(#[trigger] hs[j], name),
{
    reveal(first_named);
    if exists|i: int| 0 <= i < hs.len() && has_name(#[trigger] hs[i], name) {
        let w = choose|i: int| 0 <= i < hs.len() && has_name(#[trigger] hs[i], name);
        lemma_first_exists(hs, name, w);
    }
}

proof fn lemma_first_exists(hs: Seq<(Seq<char>, Seq<u8>)>, name: Seq<char>, w: int)
    requires
        0 <= w < hs.len(),
        has_name(hs[w], name),
    ensures
        exists|i: int|
            0 <= i < hs.len() && has_name(#[trigger] hs[i], name) && forall|j: int|
                0 <= j < i ==> !has_name(#[trigger] hs[j], name),
    decreases w,
{
    if exists|j: int| 0 <= j < w && has_name(#[trigger] hs[j], name) {
        let j = choose|j: int| 0 <= j < w && has_name(#[trigger] hs[j], name);
        lemma_first_exists(hs, name, j);
    }
}

/// Pick the first header with the given name (up to ASCII case) and hand
/// out its value.
pub fn with_first_header<'a>(headers: &[Header<'a>], name: &str) -> (r: Result<&'a [u8], Error>)
    ensures
        match first_named(header_models(headers@), name@) {
            Some(i) => r matches Ok(v) && v@ == headers@[i].value@,
            None => r matches Err(Error::HeaderNotFound(n)) && n@ == name@,
        },
{
    proof {
        lemma_first_named(header_models(headers@), name@);
    }
    let ghost hs = header_models(headers@);
    let mut i: usize = 0;
    while i < headers.len()
        invariant
            i <= headers@.len(),
            hs == header_models(headers@),
            forall|j: int| 0 <= j < i ==> !has_name(#[trigger] hs[j], name@),
        decreases headers@.len() - i,
    {
        assert(hs[i as int] == (headers@[i as int].name@, headers@[i as int].value@));
        if eq_ignore_ascii_case(headers[i].name.as_bytes(), name.as_bytes()) {
            let ghost k = i as int;
            assert(has_name(hs[k], name@));
            proof {
                lemma_first_named(hs, name@);
                let c = first_named(hs, name@)->0;
                if c < k {
                    assert(!has_name(hs[c], name@));
                } else if c > k {
                    assert(!has_name(hs[k], name@));
                }
            }
            return Ok(headers[i].value);
        }
        i = i + 1;
    }
    Err(Error::HeaderNotFound(name.to_owned()))
}

// Extension negotiation //////////////////////////////////////////////////////

/// An extension offered in a `Sec-WebSocket-Extensions` line: its name and
/// its parameters.
#[derive(Debug)]
pub struct Offer<'a> {
    /// The extension name.
    pub name: &'a str,
    /// The extension parameters.
    pub params: Vec<Param>,
}

/// The parameter a `key=value` piece stands for: the trimmed key, and the
/// trimmed value with its double quotes taken off, if there is a `=`.
pub open spec fn offered_param(p: Seq<u8>) -> ParamModel {
    let kv = split_bytes(p, 61);
    ParamModel {
        name: trimmed(decode_utf8(kv[0])),
        value: if kv.len() > 1 {
            Some(
                decode_utf8(
                    strip_end(strip_start(encode_utf8(trimmed(decode_utf8(kv[1]))), 34), 34),
                ),
            )
        } else {
            None
        },
    }
}

/// The parameters of an offer: the pieces after its name.
pub open spec fn offered_params(e: Seq<u8>) -> Seq<ParamModel> {
    split_bytes(e, 59).skip(1).map_values(|p: Seq<u8>| offered_param(p))
}

/// The name of an offer: its first piece, trimmed.
pub open spec fn offered_name(e: Seq<u8>) -> Seq<char> {
    trimmed(decode_utf8(split_bytes(e, 59)[0]))
}

/// The model of an offer.
pub open spec fn offer_model(o: Offer) -> (Seq<char>, Seq<ParamModel>) {
    (o.name@, o.params@.map_values(|p: Param| p@))
}

/// The offers of a line: its comma separated parts, each a name followed by
/// `;` separated parameters.
pub open spec fn offers_of(line: Seq<u8>) -> Seq<(Seq<char>, Seq<ParamModel>)> {
    split_bytes(line, 44).map_values(|e: Seq<u8>| (offered_name(e), offered_params(e)))
}

/// Read one `key=value` parameter.
fn parse_param(p: &str) -> (r: Param)
    ensures
        r@ == offered_param(p.spec_bytes()),
{
    let kv = split_str(p, 61);
    proof {
        lemma_split_len(p.spec_bytes(), 61);
    }
    let key = trim(kv[0]);
    proof {
        vstd::utf8::encode_utf8_decode_utf8(kv@[0]@);
    }
    let mut param = Param::new(key);
    if kv.len() > 1 {
        let v = trim(kv[1]);
        let w = trim_matches(v, 34);
        proof {
            vstd::utf8::encode_utf8_decode_utf8(kv@[1]@);
            vstd::utf8::encode_utf8_decode_utf8(w@);
        }
        param.set_value(Some(w));
    }
    param
}

/// Read one offer: a name and its parameters.
fn parse_offer(e: &str) -> (r: Offer)
    ensures
        offer_model(r) == (offered_name(e.spec_bytes()), offered_params(e.spec_bytes())),
{
    let parts = split_str(e, 59);
    proof {
        lemma_split_len(e.spec_bytes(), 59);
        vstd::utf8::encode_utf8_decode_utf8(parts@[0]@);
    }
    let name = trim(parts[0]);
    let ghost sp = split_bytes(e.spec_bytes(), 59);
    let mut params: Vec<Param> = Vec::new();
    let mut i: usize = 1;
    while i < parts.len()
        invariant
            1 <= i <= parts@.len(),
            parts@.len() == sp.len(),
            sp == split_bytes(e.spec_bytes(), 59),
            forall|k: int| 0 <= k < parts@.len() ==> (#[trigger] parts@[k]).spec_bytes() == sp[k],
            params@.map_values(|p: Param| p@) =~= sp.subrange(1, i as int).map_values(
                |p: Seq<u8>| offered_param(p),
            ),
        decreases parts@.len() - i,
    {
        let p = parse_param(parts[i]);
        let ghost before = params@;
        params.push(p);
        proof {
            let f = |q: Param| q@;
            let g = |q: Seq<u8>| offered_param(q);
            assert(sp.subrange(1, i + 1) =~= sp.subrange(1, i as int).push(sp[i as int]));
            assert(sp.subrange(1, i + 1).map_values(g) =~= sp.subrange(1, i as int).map_values(
                g,
            ).push(offered_param(sp[i as int])));
            assert(params@.map_values(f) =~= before.map_values(f).push(p@));
        }
        i = i + 1;
    }
    assert(sp.subrange(1, i as int) =~= sp.skip(1));
    Offer { name, params }
}

/// Read all offers of a `Sec-WebSocket-Extensions` line.
pub fn parse_offers(line: &str) -> (r: Vec<Offer>)
    ensures
        r@.map_values(|o: Offer| offer_model(o)) =~= offers_of(line.spec_bytes()),
{
    let parts = split_str(line, 44);
    let ghost sp = split_bytes(line.spec_bytes(), 44);
    let mut offers: Vec<Offer> = Vec::new();
    let mut i: usize = 0;
    while i < parts.len()
        invariant
            i <= parts@.len(),
            parts@.len() == sp.len(),
            sp == split_bytes(line.spec_bytes(), 44),
            forall|k: int| 0 <= k < parts@.len() ==> (#[trigger] parts@[k]).spec_bytes() == sp[k],
            offers@.map_values(|o: Offer| offer_model(o)) =~= sp.take(i as int).map_values(
                |e: Seq<u8>| (offered_name(e), offered_params(e)),
            ),
        decreases parts@.len() - i,
    {
        let o = parse_offer(parts[i]);
        let ghost before = offers@;
        let ghost om = offer_model(o);
        offers.push(o);
        proof {
            let f = |q: Offer| offer_model(q);
            let g = |e: Seq<u8>| (offered_name(e), offered_params(e));
            assert(sp.take(i + 1) =~= sp.take(i as int).push(sp[i as int]));
            assert(sp.take(i + 1).map_values(g) =~= sp.take(i as int).map_values(g).push(
                g(sp[i as int]),
            ));
            assert(offers@.map_values(f) =~= before.map_values(f).push(om));
        }
        i = i + 1;
    }
    assert(sp.take(i as int) =~= sp);
    offers
}

/// Configure the extensions with the parameters a line offers: each offer
/// goes to the first extension of its name (up to ASCII case), if any.
pub fn configure_extensions(extensions: &mut Vec<Box<dyn Extension>>, line: &str) -> (r: Result<(), Error>)
    ensures
        final(extensions)@.len() == old(extensions)@.len(),
        r is Ok || r matches Err(Error::Extension(_)),
        no_offer_named(old(extensions)@, offers_of(line.spec_bytes())) ==> {
            &&& r is Ok
            &&& final(extensions)@ == old(extensions)@
        },
        forall|k: int|
            0 <= k < old(extensions)@.len() && !#[trigger] named_by_offer(
                old(extensions)@[k].spec_name(),
                offers_of(line.spec_bytes()),
            ) ==> final(extensions)@[k] == old(extensions)@[k],
{
    let offers = parse_offers(line);
    let ghost os = offers_of(line.spec_bytes());
    let ghost none = no_offer_named(extensions@, os);
    let mut i: usize = 0;
    while i < offers.len()
        invariant
            i <= offers@.len(),
            os == offers_of(line.spec_bytes()),
            offers@.map_values(|o: Offer| offer_model(o)) =~= os,
            none == no_offer_named(old(extensions)@, os),
            none ==> extensions@ == old(extensions)@,
            extensions@.len() == old(extensions)@.len(),
            forall|k: int|
                0 <= k < old(extensions)@.len() && !#[trigger] named_by_offer(old(extensions)@[k].spec_name(), os)
                    ==> extensions@[k] == old(extensions)@[k],
        decreases offers@.len() - i,
    {
        let name = offers[i].name;
        assert(name == offers@[i as int].name);
        assert(offer_model(offers@[i as int]) == os[i as int]);
        assert(name@ == os[i as int].0);
        let mut j: usize = 0;
        let mut hit = false;
        while j < extensions.len() && !hit
            invariant
                j <= extensions@.len(),
                i < offers@.len(),
                offers@.map_values(|o: Offer| offer_model(o)) =~= os,
                offer_model(offers@[i as int]) == os[i as int],
                name@ == os[i as int].0,
                none == no_offer_named(old(extensions)@, os),
                none ==> extensions@ == old(extensions)@,
                extensions@.len() == old(extensions)@.len(),
                os == offers_of(line.spec_bytes()),
                forall|k: int|
                    0 <= k < old(extensions)@.len() && !#[trigger] named_by_offer(
                        old(extensions)@[k].spec_name(),
                        os,
                    ) ==> extensions@[k] == old(extensions)@[k],
                hit ==> !none && j < extensions@.len() && named_by_offer(old(extensions)@[j as int].spec_name(), os),
            decreases extensions@.len() - j, (if hit { 0int } else { 1int }),
        {
            let ext_name = extensions[j].name();
            if eq_ignore_ascii_case(ext_name.as_bytes(), name.as_bytes()) {
                proof {
                    if !named_by_offer(old(extensions)@[j as int].spec_name(), os) {
                        assert(extensions@[j as int] == old(extensions)@[j as int]);
                        assert(ext_name@ == extensions@[j as int].spec_name());
                        assert(name@ == os[i as int].0);
                        assert(eq_ignore_ascii_case_spec(
                            encode_utf8(old(extensions)@[j as int].spec_name()),
                            encode_utf8(os[i as int].0),
                        ));
                        assert(os.len() == offers@.len());
                        assert(named_by_offer(old(extensions)@[j as int].spec_name(), os));
                    }
                    if none {
                        assert(ext_name@ == extensions@[j as int].spec_name());
                        assert(name@ == os[i as int].0);
                        assert(extensions@[j as int] == old(extensions)@[j as int]);
                        assert(!eq_ignore_ascii_case_spec(
                            encode_utf8(old(extensions)@[j as int].spec_name()),
                            encode_utf8(os[i as int].0),
                        ));
                    }
                }
                hit = true;
            } else {
                j = j + 1;
            }
        }
        if hit {
            match extensions[j].configure(offers[i].params.as_slice()) {
                Ok(()) => {},
                Err(e) => return Err(Error::Extension(e.message)),
            }
        }
        i = i + 1;
    }
    Ok(())
}

/// Some offer has the name (up to ASCII case).
pub open spec fn named_by_offer(name: Seq<char>, offers: Seq<(Seq<char>, Seq<ParamModel>)>) -> bool {
    exists|j: int|
        0 <= j < offers.len() && eq_ignore_ascii_case_spec(
            encode_utf8(name),
            encode_utf8(#[trigger] offers[j].0),
        )
}

/// No extension has the name of an offer (up to ASCII case).
pub open spec fn no_offer_named(
    extensions: Seq<Box<dyn Extension>>,
    offers: Seq<(Seq<char>, Seq<ParamModel>)>,
) -> bool {
    forall|i: int, j: int|
        0 <= i < extensions.len() && 0 <= j < offers.len() ==> !eq_ignore_ascii_case_spec(
            encode_utf8(#[trigger] extensions[i].spec_name()),
            encode_utf8(#[trigger] offers[j].0),
        )
}

/// The text of a parameter in an extension header: `; name` and, with a
/// value, `=value`.
pub open spec fn param_text(p: ParamModel) -> Seq<u8> {
    encode_utf8("; "@) + encode_utf8(p.name) + match p.value {
        Some(v) => encode_utf8("="@) + encode_utf8(v),
        None => Seq::empty(),
    }
}

/// The texts of parameters, one after the other.
pub open spec fn params_text(ps: Seq<ParamModel>) -> Seq<u8>
    decreases ps.len(),
{
    if ps.len() == 0 {
        Seq::empty()
    } else {
        params_text(ps.drop_last()) + param_text(ps.last())
    }
}

/// The text of an extension: its name and its parameters.
pub open spec fn extension_text(name: Seq<char>, params: Seq<ParamModel>) -> Seq<u8> {
    encode_utf8(name) + params_text(params)
}

/// The texts of extensions, separated by `, `.
pub open spec fn extensions_list(es: Seq<Box<dyn Extension>>) -> Seq<u8>
    decreases es.len(),
{
    if es.len() == 0 {
        Seq::empty()
    } else if es.len() == 1 {
        extension_text(es[0].spec_name(), es[0].spec_params())
    } else {
        extensions_list(es.drop_last()) + encode_utf8(", "@) + extension_text(
            es.last().spec_name(),
            es.last().spec_params(),
        )
    }
}

/// The `Sec-WebSocket-Extensions` header line for some extensions (none for
/// none), to follow the previous header line.
pub open spec fn extensions_header(es: Seq<Box<dyn Extension>>) -> Seq<u8> {
    if es.len() == 0 {
        Seq::empty()
    } else {
        encode_utf8("\r\nSec-WebSocket-Extensions: "@) + extensions_list(es)
    }
}

/// Write an extension's name and parameters.
fn append_extension(e: &Box<dyn Extension>, bytes: &mut Vec<u8>)
    ensures
        final(bytes)@ == old(bytes)@ + extension_text(e.spec_name(), e.spec_params()),
{
    let name = e.name();
    append_bytes(bytes, name.as_bytes());
    assert(bytes@ == old(bytes)@ + encode_utf8(e.spec_name()));
    let params = e.params();
    let ghost ps = params@.map_values(|p: Param| p@);
    let ghost start = bytes@;
    let mut i: usize = 0;
    while i < params.len()
        invariant
            i <= params@.len(),
            ps == params@.map_values(|p: Param| p@),
            bytes@ == start + params_text(ps.take(i as int)),
        decreases params@.len() - i,
    {
        let ghost before = bytes@;
        append_bytes(bytes, "; ".as_bytes());
        append_bytes(bytes, params[i].name().as_bytes());
        match params[i].value() {
            Some(v) => {
                append_bytes(bytes, "=".as_bytes());
                append_bytes(bytes, v.as_bytes());
            },
            None => {},
        }
        assert(ps.take(i + 1).drop_last() =~= ps.take(i as int));
        assert(ps[i as int] == params@[i as int]@);
        assert(bytes@ =~= before + param_text(ps[i as int]));
        i = i + 1;
    }
    assert(ps.take(i as int) =~= ps);
    assert(ps == e.spec_params());
    assert(bytes@ == start + params_text(e.spec_params()));
    assert(start == old(bytes)@ + encode_utf8(e.spec_name()));
    assert(bytes@ =~= old(bytes)@ + extension_text(e.spec_name(), e.spec_params()));
}

/// Write the names and parameters of the enabled ones of the given
/// extensions, separated by `, ` (the value of a `Sec-WebSocket-Extensions`
/// header).
pub fn append_extension_header_value(extensions: &Vec<Box<dyn Extension>>, bytes: &mut Vec<u8>)
    ensures
        final(bytes)@ == old(bytes)@ + extensions_list(
            extensions@.filter(|e: Box<dyn Extension>| e.spec_enabled()),
        ),
{
    let mut enabled: Vec<&Box<dyn Extension>> = Vec::new();
    let mut i: usize = 0;
    while i < extensions.len()
        invariant
            i <= extensions@.len(),
            enabled@.len() == extensions@.take(i as int).filter(
                |e: Box<dyn Extension>| e.spec_enabled(),
            ).len(),
            forall|k: int|
                0 <= k < enabled@.len() ==> *enabled@[k] == extensions@.take(i as int).filter(
                    |e: Box<dyn Extension>| e.spec_enabled(),
                )[k],
        decreases extensions@.len() - i,
    {
        assert(extensions@.take(i + 1).drop_last() =~= extensions@.take(i as int));
        proof {
            reveal(Seq::filter);
            assert(extensions@.take(i + 1).last() == extensions@[i as int]);
        }
        if extensions[i].is_enabled() {
            enabled.push(&extensions[i]);
        }
        i = i + 1;
    }
    assert(extensions@.take(i as int) =~= extensions@);
    let ghost es = extensions@.filter(|e: Box<dyn Extension>| e.spec_enabled());
    let ghost start = bytes@;
    assert(start =~= start + extensions_list(es.take(0)));
    let mut j: usize = 0;
    while j < enabled.len()
        invariant
            j <= enabled@.len(),
            enabled@.len() == es.len(),
            forall|k: int| 0 <= k < enabled@.len() ==> *enabled@[k] == es[k],
            bytes@ == start + extensions_list(es.take(j as int)),
        decreases enabled@.len() - j,
    {
        if j > 0 {
            append_bytes(bytes, ", ".as_bytes());
        }
        let e = enabled[j];
        append_extension(e, bytes);
        assert(*e == es[j as int]);
        assert(e.spec_name() == es[j as int].spec_name());
        assert(e.spec_params() == es[j as int].spec_params());
        assert(es.take(j + 1).drop_last() =~= es.take(j as int));
        assert(es.take(j + 1).last() == es[j as int]);
        j = j + 1;
    }
    assert(es.take(j as int) =~= es);
}

/// Whether any of the given extensions is enabled.
fn any_enabled(extensions: &Vec<Box<dyn Extension>>) -> (r: bool)
    ensures
        r == (extensions@.filter(|e: Box<dyn Extension>| e.spec_enabled()).len() > 0),
{
    let mut i: usize = 0;
    while i < extensions.len()
        invariant
            i <= extensions@.len(),
            extensions@.take(i as int).filter(|e: Box<dyn Extension>| e.spec_enabled()).len() == 0,
        decreases extensions@.len() - i,
    {
        assert(extensions@.take(i + 1).drop_last() =~= extensions@.take(i as int));
        proof {
            reveal(Seq::filter);
            assert(extensions@.take(i + 1).last() == extensions@[i as int]);
        }
        if extensions[i].is_enabled() {
            proof {
                extensions@.lemma_filter_contains(|e: Box<dyn Extension>| e.spec_enabled(), i as int);
            }
            return true;
        }
        i = i + 1;
    }
    assert(extensions@.take(i as int) =~= extensions@);
    false
}

/// Write the `Sec-WebSocket-Extensions` header line for the enabled ones
/// of the given extensions.
pub fn append_extensions(extensions: &Vec<Box<dyn Extension>>, bytes: &mut Vec<u8>)
    ensures
        final(bytes)@ == old(bytes)@ + extensions_header(
            extensions@.filter(|e: Box<dyn Extension>| e.spec_enabled()),
        ),
{
    if any_enabled(extensions) {
        append_bytes(bytes, "\r\nSec-WebSocket-Extensions: ".as_bytes());
        append_extension_header_value(extensions, bytes);
    }
}

} // verus!
