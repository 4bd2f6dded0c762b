//! The `PingPong` protocol middleware: every ping is answered with a pong
//! carrying the same data, in the order the pings came.

use vstd::prelude::*;
use std::collections::VecDeque;
use crate::frame::base::OpCode;
use crate::frame::{final_frame, WebSocket};

verus! {

broadcast use vstd::std_specs::vecdeque::group_vec_dequeue_axioms;

/// The `PingPong` struct.
pub struct PingPong<T> {
    /// The upstream protocol.
    upstream: T,
    /// The app datas of the pings not answered yet.  A pong is sent with the same data.
    app_datas: VecDeque<Vec<u8>>,
}

/// What the `PingPong` middleware does with an item its upstream produced.
#[derive(Debug)]
pub enum PingAction {
    /// A ping came: its pong is queued; send the queued pongs.
    Queued,
    /// Hand the item on.
    Forward(Option<WebSocket>),
}

/// A message is a ping frame.
pub open spec fn is_ping_message(m: WebSocket) -> bool {
    m matches WebSocket::Base(f) && f@.header.opcode == OpCode::Ping
}

impl<T> PingPong<T> {
    /// The data of the pings not answered yet, oldest first.
    pub closed spec fn pending(&self) -> Seq<Seq<u8>> {
        self.app_datas@.map_values(|v: Vec<u8>| v@)
    }

    /// The upstream protocol.
    pub closed spec fn upstream_spec(&self) -> T {
        self.upstream
    }

    /// Create a new `PingPong` protocol middleware.
    pub fn new(upstream: T) -> (r: PingPong<T>)
        ensures
            r.pending() == Seq::<Seq<u8>>::empty(),
            r.upstream_spec() == upstream,
    {
        let r = PingPong { upstream, app_datas: VecDeque::new() };
        assert(r.pending() =~= Seq::<Seq<u8>>::empty());
        r
    }

    /// The upstream protocol, to drive it.
    pub fn upstream_mut(&mut self) -> (r: &mut T)
        ensures
            *r == old(self).upstream_spec(),
            final(self).upstream_spec() == *final(r),
            final(self).pending() == old(self).pending(),
    {
        &mut self.upstream
    }

    /// Decide on an item from upstream: the data of a ping is queued for its
    /// pong; anything else is handed on.
    pub fn on_item(&mut self, item: Option<WebSocket>) -> (r: PingAction)
        ensures
            final(self).upstream_spec() == old(self).upstream_spec(),
            match item {
                Some(m) if is_ping_message(m) => {
                    &&& r is Queued
                    &&& m matches WebSocket::Base(f) && final(self).pending() == old(
                        self,
                    ).pending().push(f@.application_data)
                },
                _ => r == PingAction::Forward(item) && final(self).pending() == old(
                    self,
                ).pending(),
            },
    {
        match item {
            Some(WebSocket::Base(f)) => {
                if f.header().opcode() == OpCode::Ping {
                    let data = vstd::slice::slice_to_vec(f.application_data());
                    let ghost before = self.app_datas@;
                    self.app_datas.push_back(data);
                    assert(self.pending() =~= before.map_values(|v: Vec<u8>| v@).push(
                        f@.application_data,
                    ));
                    PingAction::Queued
                } else {
                    PingAction::Forward(Some(WebSocket::Base(f)))
                }
            },
            other => PingAction::Forward(other),
        }
    }

    /// Whether an outgoing message may be sent now: only once every ping has
    /// been answered.
    pub fn ready_to_send(&self) -> (r: bool)
        ensures
            r == (self.pending().len() == 0),
    {
        self.app_datas.len() == 0
    }

    /// The pong for the oldest unanswered ping, which is taken off the queue.
    pub fn next_pong(&mut self) -> (r: Option<WebSocket>)
        ensures
            final(self).upstream_spec() == old(self).upstream_spec(),
            old(self).pending().len() == 0 ==> r is None && final(self).pending() == old(
                self,
            ).pending(),
            old(self).pending().len() > 0 ==> {
                &&& r matches Some(WebSocket::Base(g)) && g@ == final_frame(
                    OpCode::Pong,
                    old(self).pending()[0],
                )
                &&& final(self).pending() == old(self).pending().drop_first()
            },
    {
        let ghost before = self.app_datas@;
        match self.app_datas.pop_front() {
            Some(app_data) => {
                assert(self.pending() =~= before.map_values(|v: Vec<u8>| v@).drop_first());
                Some(WebSocket::pong(app_data))
            },
            None => None,
        }
    }
}

} // verus!
