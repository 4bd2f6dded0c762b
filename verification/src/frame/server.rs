//! The server's side of the handshake frames: the client's request as the
//! server receives and checks it, and the response it builds.

pub mod request;
pub mod response;

use vstd::prelude::*;

verus! {

} // verus!
