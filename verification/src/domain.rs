//! Checks on the domain given in the `Host` or `Origin` header.

use vstd::prelude::*;
use crate::access_control::{listed, list_contains, names_bytes};

verus! {

/// Configuration for domain checks to be performed on either the `Host`
/// or the `Origin` header.
#[derive(Debug)]
pub enum DomainCheck {
    /// Allow any domain
    AllowAny,
    /// Allow a domain if it is one on the list
    AllowList(Vec<String>),
    /// Allow a domain if it is NOT on the list
    DenyList(Vec<String>),
}

impl Default for DomainCheck {
    fn default() -> (r: Self)
        ensures
            r is AllowAny,
    {
        DomainCheck::AllowAny
    }
}

impl DomainCheck {
    /// Is `domain` allowed under this check?
    pub open spec fn allows(&self, domain: Seq<u8>) -> bool {
        match self {
            DomainCheck::AllowAny => true,
            DomainCheck::AllowList(list) => listed(names_bytes(list@), domain),
            DomainCheck::DenyList(list) => !listed(names_bytes(list@), domain),
        }
    }

    /// Checks if a `domain` is allowed the handshake
    pub fn is_allowed(&self, domain: &[u8]) -> (r: bool)
        ensures
            r == self.allows(domain@),
    {
        match self {
            DomainCheck::AllowAny => true,
            DomainCheck::AllowList(list) => list_contains(list, domain),
            DomainCheck::DenyList(list) => !list_contains(list, domain),
        }
    }
}

} // verus!
