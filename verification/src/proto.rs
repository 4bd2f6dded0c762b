//! Protocol middleware: the decisions each layer of a websocket protocol
//! stack makes on the messages that pass through it. The layers own their
//! upstream; the caller performs the I/O the decisions ask for.

pub mod close;
pub mod fragmented;
pub mod pingpong;

use vstd::prelude::*;

verus! {

} // verus!
