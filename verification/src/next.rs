//! A handshake codec that reads either side's handshake head into plain
//! values: the client reads the server's response, the server the client's
//! request.

pub mod error;
pub mod handshake;

use vstd::prelude::*;

verus! {

} // verus!
