//! Access control policy trait and types.

use vstd::prelude::*;
use crate::access_control::{listed, list_contains, names_bytes};

verus! {

/// Access control policy used to check if a value is allowed in
/// a http header.
pub trait Policy {
    /// Checks if a given `value` is allowed to handshake with us.
    fn is_allowed(&self, value: &[u8]) -> bool;
}

/// Allow any value, implements [`Policy`].
#[derive(Debug)]
pub struct AllowAny;

impl Policy for AllowAny {
    fn is_allowed(&self, _value: &[u8]) -> (r: bool)
        ensures
            r,
    {
        true
    }
}

/// Allow only values from the list, implements [`Policy`].
#[derive(Debug)]
pub struct AllowList {
    list: Vec<String>,
}

impl AllowList {
    /// The values allowed.
    pub closed spec fn names(&self) -> Seq<Seq<u8>> {
        names_bytes(self.list@)
    }

    /// Create a new list of allowed values.
    pub fn new(list: Vec<String>) -> (r: Self)
        ensures
            r.names() == names_bytes(list@),
    {
        AllowList { list }
    }
}

impl Policy for AllowList {
    fn is_allowed(&self, value: &[u8]) -> (r: bool)
        ensures
            r == listed(self.names(), value@),
    {
        list_contains(&self.list, value)
    }
}

} // verus!
