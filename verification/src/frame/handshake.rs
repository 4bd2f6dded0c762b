//! The frames of the websocket handshake: the client's request and the
//! server's response, with the checks each side makes on the other's.

pub mod client;
pub mod server;

use vstd::prelude::*;
use vstd::string::{StringExecFns, StringSliceAdditionalSpecFns};
use crate::codec::http::owned_header_models;
use crate::handshake::{first_named, has_name, lemma_first_named};
use crate::util::{
    eq_ignore_ascii_case, eq_ignore_ascii_case_spec, lemma_ascii_valid_utf8, utf8_str,
};

verus! {

/// Why a handshake frame is refused.
#[derive(Debug)]
pub struct Invalid(String);

impl Invalid {
    /// What the refusal says.
    pub closed spec fn message(&self) -> Seq<char> {
        self.0@
    }

    /// A refusal with the given message.
    pub fn new(s: &str) -> (r: Self)
        ensures
            r.message() == s@,
    {
        Invalid(s.to_owned())
    }

    /// The text of the refusal.
    pub fn to_string(&self) -> (r: String)
        ensures
            r@ == "invalid: "@ + self.message(),
    {
        "invalid: ".to_owned().concat(self.0.as_str())
    }
}

/// The bytes an HTTP header value may hold to be read as text: visible
/// ASCII characters and tabs.
pub open spec fn visible_ascii(b: Seq<u8>) -> bool {
    forall|i: int| 0 <= i < b.len() ==> (32 <= #[trigger] b[i] < 127 || b[i] == 9)
}

/// Are the bytes visible ASCII?
fn is_visible_ascii(b: &[u8]) -> (r: bool)
    ensures
        r == visible_ascii(b@),
{
    let mut i: usize = 0;
    while i < b.len()
        invariant
            i <= b@.len(),
            forall|k: int| 0 <= k < i ==> (32 <= #[trigger] b@[k] < 127 || b@[k] == 9),
        decreases b@.len() - i,
    {
        if !((32 <= b[i] && b[i] < 127) || b[i] == 9) {
            return false;
        }
        i = i + 1;
    }
    true
}

/// What reading a header as text gives: the value of the first header of
/// the name where it is visible ASCII; otherwise the message saying that it
/// is missing or not text.
pub open spec fn header_text(hs: Seq<(Seq<char>, Seq<u8>)>, name: Seq<char>) -> Result<
    Seq<u8>,
    Seq<char>,
> {
    match first_named(hs, name) {
        None => Err("missing header name: "@ + name),
        Some(i) => if visible_ascii(hs[i].1) {
            Ok(hs[i].1)
        } else {
            Err("invalid header: "@ + name)
        },
    }
}

/// Read the first header of the given name as text.
pub fn with_header<'a>(m: &'a Vec<(String, Vec<u8>)>, n: &str) -> (r: Result<&'a str, Invalid>)
    ensures
        match header_text(owned_header_models(m@), n@) {
            Ok(v) => r matches Ok(s) && s.spec_bytes() == v,
            Err(msg) => r matches Err(e) && e.message() == msg,
        },
{
    let ghost hs = owned_header_models(m@);
    proof {
        lemma_first_named(hs, n@);
    }
    let mut i: usize = 0;
    while i < m.len()
        invariant
            i <= m@.len(),
            hs == owned_header_models(m@),
            forall|j: int| 0 <= j < i ==> !has_name(#[trigger] hs[j], n@),
        decreases m@.len() - i,
    {
        let (name, value) = &m[i];
        assert(hs[i as int] == (name@, value@));
        if eq_ignore_ascii_case(name.as_str().as_bytes(), n.as_bytes()) {
            proof {
                lemma_first_named(hs, n@);
                let c = first_named(hs, n@)->0;
                if c < i {
                    assert(!has_name(hs[c], n@));
                } else if c > i {
                    assert(!has_name(hs[i as int], n@));
                }
            }
            if !is_visible_ascii(value.as_slice()) {
                return Err(Invalid("invalid header: ".to_owned().concat(n)));
            }
            proof {
                lemma_ascii_valid_utf8(value@);
            }
            return match utf8_str(value.as_slice()) {
                Some(s) => Ok(s),
                None => Err(Invalid("invalid header: ".to_owned().concat(n))),
            };
        }
        i = i + 1;
    }
    Err(Invalid("missing header name: ".to_owned().concat(n)))
}

/// What checking a header gives: its text must be `v` up to ASCII case.
pub open spec fn header_check(hs: Seq<(Seq<char>, Seq<u8>)>, name: Seq<char>, v: Seq<char>) -> Result<
    (),
    Seq<char>,
> {
    match header_text(hs, name) {
        Err(msg) => Err(msg),
        Ok(value) => if eq_ignore_ascii_case_spec(value, vstd::utf8::encode_utf8(v)) {
            Ok(())
        } else {
            Err("unexpected header value: "@ + name)
        },
    }
}

/// Check that the first header of the given name is `v` up to ASCII case.
pub fn expect_header(m: &Vec<(String, Vec<u8>)>, n: &str, v: &str) -> (r: Result<(), Invalid>)
    ensures
        match header_check(owned_header_models(m@), n@, v@) {
            Ok(()) => r is Ok,
            Err(msg) => r matches Err(e) && e.message() == msg,
        },
{
    match with_header(m, n) {
        Err(e) => Err(e),
        Ok(value) => {
            if !eq_ignore_ascii_case(value.as_bytes(), v.as_bytes()) {
                Err(Invalid("unexpected header value: ".to_owned().concat(n)))
            } else {
                Ok(())
            }
        },
    }
}

/// The values of all headers of the given name, in order.
pub open spec fn header_values(hs: Seq<(Seq<char>, Seq<u8>)>, name: Seq<char>) -> Seq<Seq<u8>>
    decreases hs.len(),
{
    if hs.len() == 0 {
        Seq::empty()
    } else if has_name(hs.last(), name) {
        header_values(hs.drop_last(), name).push(hs.last().1)
    } else {
        header_values(hs.drop_last(), name)
    }
}

/// The values of all headers of the given name.
pub fn get_all<'a>(m: &'a Vec<(String, Vec<u8>)>, n: &str) -> (r: Vec<&'a [u8]>)
    ensures
        r@.map_values(|v: &[u8]| v@) == header_values(owned_header_models(m@), n@),
{
    let ghost hs = owned_header_models(m@);
    let mut r: Vec<&'a [u8]> = Vec::new();
    let mut i: usize = 0;
    while i < m.len()
        invariant
            i <= m@.len(),
            hs == owned_header_models(m@),
            r@.map_values(|v: &[u8]| v@) =~= header_values(hs.take(i as int), n@),
        decreases m@.len() - i,
    {
        let (name, value) = &m[i];
        let ghost before = r@;
        assert(hs.take(i + 1).drop_last() =~= hs.take(i as int));
        assert(hs.take(i + 1).last() == (name@, value@));
        if eq_ignore_ascii_case(name.as_str().as_bytes(), n.as_bytes()) {
            r.push(value.as_slice());
            assert(r@.map_values(|v: &[u8]| v@) =~= before.map_values(|v: &[u8]| v@).push(value@));
        }
        i = i + 1;
    }
    assert(hs.take(i as int) =~= hs);
    r
}

/// The value of the first header of the given name, if any.
pub fn get_first<'a>(m: &'a Vec<(String, Vec<u8>)>, n: &str) -> (r: Option<&'a [u8]>)
    ensures
        match first_named(owned_header_models(m@), n@) {
            Some(i) => r matches Some(v) && v@ == owned_header_models(m@)[i].1,
            None => r is None,
        },
{
    let ghost hs = owned_header_models(m@);
    proof {
        lemma_first_named(hs, n@);
    }
    let mut i: usize = 0;
    while i < m.len()
        invariant
            i <= m@.len(),
            hs == owned_header_models(m@),
            forall|j: int| 0 <= j < i ==> !has_name(#[trigger] hs[j], n@),
        decreases m@.len() - i,
    {
        let (name, value) = &m[i];
        assert(hs[i as int] == (name@, value@));
        if eq_ignore_ascii_case(name.as_str().as_bytes(), n.as_bytes()) {
            proof {
                lemma_first_named(hs, n@);
                let c = first_named(hs, n@)->0;
                if c < i {
                    assert(!has_name(hs[c], n@));
                } else if c > i {
                    assert(!has_name(hs[i as int], n@));
                }
            }
            return Some(value.as_slice());
        }
        i = i + 1;
    }
    None
}

// Facts about header lists //////////////////////////////////////////////////

/// The first header of a name is the one at `k` where the headers before
/// it have other names.
pub proof fn lemma_first_at(hs: Seq<(Seq<char>, Seq<u8>)>, name: Seq<char>, k: int)
    requires
        0 <= k < hs.len(),
        has_name(hs[k], name),
        forall|j: int| 0 <= j < k ==> !has_name(#[trigger] hs[j], name),
    ensures
        first_named(hs, name) == Some(k),
{
    lemma_first_named(hs, name);
    if let Some(i) = first_named(hs, name) {
        if i < k {
            assert(!has_name(hs[i], name));
        } else if i > k {
            assert(!has_name(hs[k], name));
        }
    }
}

/// A header added at the end does not change which header of a name comes
/// first, where there is one.
pub proof fn lemma_push_keeps_first(
    hs: Seq<(Seq<char>, Seq<u8>)>,
    name: Seq<char>,
    x: (Seq<char>, Seq<u8>),
)
    requires
        first_named(hs, name) is Some,
    ensures
        first_named(hs.push(x), name) == first_named(hs, name),
{
    lemma_first_named(hs, name);
    let k = first_named(hs, name)->0;
    assert(hs.push(x)[k] == hs[k]);
    assert forall|j: int| 0 <= j < k implies !has_name(#[trigger] hs.push(x)[j], name) by {
        assert(hs.push(x)[j] == hs[j]);
    }
    lemma_first_at(hs.push(x), name, k);
}

/// A header added at the end does not change what reading a header that is
/// there gives.
pub proof fn lemma_push_keeps_text(
    hs: Seq<(Seq<char>, Seq<u8>)>,
    name: Seq<char>,
    x: (Seq<char>, Seq<u8>),
)
    requires
        first_named(hs, name) is Some,
    ensures
        header_text(hs.push(x), name) == header_text(hs, name),
        header_check(hs.push(x), name, name) == header_check(hs, name, name),
        forall|v: Seq<char>| header_check(hs.push(x), name, v) == #[trigger] header_check(hs, name, v),
{
    lemma_push_keeps_first(hs, name, x);
    lemma_first_named(hs, name);
    let k = first_named(hs, name)->0;
    assert(hs.push(x)[k] == hs[k]);
}

/// Text of visible ASCII characters is written as visible ASCII bytes.
pub proof fn lemma_visible_text(s: Seq<char>)
    requires
        forall|i: int| 0 <= i < s.len() ==> ' ' <= #[trigger] s[i] <= '~',
    ensures
        visible_ascii(vstd::utf8::encode_utf8(s)),
        vstd::utf8::encode_utf8(s).len() == s.len(),
{
    vstd::utf8::is_ascii_chars_encode_utf8(s);
    assert forall|i: int| 0 <= i < vstd::utf8::encode_utf8(s).len() implies (32 <= #[trigger] vstd::utf8::encode_utf8(s)[i] < 127
        || vstd::utf8::encode_utf8(s)[i] == 9) by {
        assert(s[i] as u8 == vstd::utf8::encode_utf8(s)[i]);
    }
}

} // verus!
