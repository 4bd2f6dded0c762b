//! Access control policies for the domain given in a `Host` or `Origin`
//! header.

use vstd::prelude::*;
use crate::util::bytes_eq;

verus! {

/// Access control policy used to check if a domain is allowed in
/// either the `Host` or `Origin` header.
pub trait Policy {
    /// Checks if a `domain` is allowed to handshake with us.
    fn is_allowed(&self, domain: &[u8]) -> bool;
}

/// Allow any domain, implements [`Policy`].
#[derive(Debug)]
pub struct AllowAny;

impl Policy for AllowAny {
    fn is_allowed(&self, _domain: &[u8]) -> (r: bool)
        ensures
            r,
    {
        true
    }
}

/// Allow only domains from the list, implements [`Policy`].
#[derive(Debug)]
pub struct AllowList {
    list: Vec<String>,
}

/// Is `value` one of the listed names (compared byte for byte)?
pub open spec fn listed(list: Seq<Seq<u8>>, value: Seq<u8>) -> bool {
    exists|i: int| 0 <= i < list.len() && list[i] == value
}

/// The bytes of each string of a list.
pub open spec fn names_bytes(list: Seq<String>) -> Seq<Seq<u8>> {
    list.map_values(|s: String| vstd::utf8::encode_utf8(s@))
}

/// Is `value` one of the strings of `list`, byte for byte?
pub fn list_contains(list: &Vec<String>, value: &[u8]) -> (r: bool)
    ensures
        r == listed(names_bytes(list@), value@),
{
    let mut i: usize = 0;
    while i < list.len()
        invariant
            i <= list@.len(),
            forall|j: int| 0 <= j < i ==> names_bytes(list@)[j] != value@,
        decreases list@.len() - i,
    {
        if bytes_eq(list[i].as_str().as_bytes(), value) {
            assert(names_bytes(list@)[i as int] == value@);
            return true;
        }
        i = i + 1;
    }
    false
}

impl AllowList {
    /// The names allowed.
    pub closed spec fn names(&self) -> Seq<Seq<u8>> {
        names_bytes(self.list@)
    }

    /// Create a new list of allowed domains.
    pub fn new(list: Vec<String>) -> (r: Self)
        ensures
            r.names() == names_bytes(list@),
    {
        AllowList { list }
    }
}

impl Policy for AllowList {
    fn is_allowed(&self, domain: &[u8]) -> (r: bool)
        ensures
            r == listed(self.names(), domain@),
    {
        list_contains(&self.list, domain)
    }
}

} // verus!
