//! The `Fragmented` protocol middleware: it gathers the frames of a
//! fragmented message and sends the whole message on once the last
//! fragment has come.

use vstd::prelude::*;
use vstd::utf8::valid_utf8;
use crate::frame::base::{Frame, FrameSpec, Header, OpCode};
use crate::frame::{final_frame, WebSocket};
use crate::util::{append_bytes, is_utf8};

verus! {

/// Why the `Fragmented` middleware gives up.
#[derive(Debug, Clone, Copy, PartialEq, Eq, Structural)]
pub enum FragmentError {
    /// A continuation fragment came with no fragmented message in progress.
    InvalidFragment,
    /// A last fragment came with no fragmented message in progress.
    InvalidFragmentComplete,
    /// A fragmented text message is not valid UTF-8.
    InvalidUtf8,
    /// A new data message came while a fragmented message was in progress.
    InvalidContinuation,
}

/// What the `Fragmented` middleware does with an item its upstream produced.
#[derive(Debug)]
pub enum FragmentAction {
    /// The item was a fragment and is kept; poll upstream again.
    Absorbed,
    /// The last fragment came: send this whole message upstream, then poll
    /// again.
    Send(WebSocket),
    /// Hand the item on.
    Forward(Option<WebSocket>),
    /// Give up with this error.
    Fail(FragmentError),
}

/// The `Fragmented` struct.
pub struct Fragmented<T> {
    /// The upstream protocol.
    upstream: T,
    /// Has the fragmented message started?
    started: bool,
    /// Is the fragmented message complete?
    complete: bool,
    /// The `OpCode` of the first fragment of the message.
    opcode: OpCode,
    /// A running total of the payload lengths.
    total_length: u64,
    /// The buffer used to store the fragmented data.
    buf: Vec<u8>,
}

/// The state of the middleware: whether a fragmented message has started
/// and is complete, its opcode, and the data gathered so far.
pub struct FragmentState {
    pub started: bool,
    pub complete: bool,
    pub opcode: OpCode,
    pub buf: Seq<u8>,
}

/// The state before any fragment, and after a message has been sent on.
pub open spec fn idle_state() -> FragmentState {
    FragmentState { started: false, complete: false, opcode: OpCode::Close, buf: Seq::empty() }
}

/// What a step does, by its model.
pub enum StepModel {
    Absorbed,
    Send(FrameSpec),
    Forward,
    Fail(FragmentError),
}

/// The first frame of a fragmented message.
pub open spec fn is_fragment_start(f: FrameSpec) -> bool {
    !f.header.fin && f.header.opcode != OpCode::Continue
}

/// A middle fragment.
pub open spec fn is_fragment(f: FrameSpec) -> bool {
    !f.header.fin && f.header.opcode == OpCode::Continue
}

/// The last fragment.
pub open spec fn is_fragment_complete(f: FrameSpec) -> bool {
    f.header.fin && f.header.opcode == OpCode::Continue
}

/// A whole data message, which may not come in the middle of a fragmented
/// one.
pub open spec fn is_badfragment(f: FrameSpec) -> bool {
    f.header.fin && (f.header.opcode == OpCode::Text || f.header.opcode == OpCode::Binary)
}

/// Once complete, the gathered message is sent on (a text message only if
/// it is UTF-8), and the state is idle again.
pub open spec fn finish(s: FragmentState) -> (StepModel, FragmentState) {
    if s.opcode == OpCode::Text && !valid_utf8(s.buf) {
        (StepModel::Fail(FragmentError::InvalidUtf8), s)
    } else {
        (StepModel::Send(final_frame(s.opcode, s.buf)), idle_state())
    }
}

/// One step of the middleware on a base frame from upstream.
pub open spec fn fragment_step(s: FragmentState, f: FrameSpec) -> (StepModel, FragmentState) {
    if is_fragment_start(f) {
        (
            StepModel::Absorbed,
            FragmentState {
                started: true,
                opcode: f.header.opcode,
                buf: s.buf + f.application_data,
                ..s
            },
        )
    } else if is_fragment(f) {
        if !s.started || s.complete {
            (StepModel::Fail(FragmentError::InvalidFragment), s)
        } else {
            (StepModel::Absorbed, FragmentState { buf: s.buf + f.application_data, ..s })
        }
    } else if is_fragment_complete(f) {
        if !s.started || s.complete {
            (StepModel::Fail(FragmentError::InvalidFragmentComplete), s)
        } else {
            finish(FragmentState { complete: true, buf: s.buf + f.application_data, ..s })
        }
    } else if is_badfragment(f) {
        if s.started && !s.complete {
            (StepModel::Fail(FragmentError::InvalidContinuation), s)
        } else {
            (StepModel::Forward, s)
        }
    } else {
        (StepModel::Forward, s)
    }
}

/// The action agrees with its model (and hands on `item` where it forwards).
pub open spec fn action_matches(r: FragmentAction, m: StepModel, item: Option<WebSocket>) -> bool {
    match m {
        StepModel::Absorbed => r is Absorbed,
        StepModel::Send(g) => r matches FragmentAction::Send(WebSocket::Base(h)) && h@ == g,
        StepModel::Forward => r == FragmentAction::Forward(item),
        StepModel::Fail(e) => r == FragmentAction::Fail(e),
    }
}

impl<T> Fragmented<T> {
    /// The model of the middleware's state.
    pub closed spec fn state(&self) -> FragmentState {
        FragmentState {
            started: self.started,
            complete: self.complete,
            opcode: self.opcode,
            buf: self.buf@,
        }
    }

    /// The upstream protocol.
    pub closed spec fn upstream_spec(&self) -> T {
        self.upstream
    }

    /// The running total agrees with the gathered data.
    pub closed spec fn wf(&self) -> bool {
        self.total_length == self.buf@.len()
    }

    /// Create a new `Fragmented` protocol middleware.
    pub fn new(upstream: T) -> (r: Fragmented<T>)
        ensures
            r.wf(),
            r.state() == idle_state(),
            r.upstream_spec() == upstream,
    {
        Fragmented {
            upstream,
            started: false,
            complete: false,
            opcode: OpCode::Close,
            total_length: 0,
            buf: Vec::new(),
        }
    }

    /// The upstream protocol, to drive it.
    pub fn upstream_mut(&mut self) -> (r: &mut T)
        ensures
            *r == old(self).upstream_spec(),
            final(self).upstream_spec() == *final(r),
            final(self).state() == old(self).state(),
            final(self).wf() == old(self).wf(),
    {
        &mut self.upstream
    }

    /// Add a fragment's data to the gathered message.
    fn gather(&mut self, data: &[u8])
        requires
            old(self).wf(),
        ensures
            final(self).wf(),
            final(self).state() == (FragmentState {
                buf: old(self).state().buf + data@,
                ..old(self).state()
            }),
            final(self).upstream_spec() == old(self).upstream_spec(),
    {
        append_bytes(&mut self.buf, data);
        self.total_length = self.buf.len() as u64;
    }

    /// The last fragment has come: check the message and send it on.
    fn poll_complete(&mut self) -> (r: FragmentAction)
        requires
            old(self).wf(),
        ensures
            final(self).wf(),
            action_matches(r, finish(old(self).state()).0, None),
            final(self).state() == finish(old(self).state()).1,
            final(self).upstream_spec() == old(self).upstream_spec(),
    {
        if self.opcode == OpCode::Text {
            if !is_utf8(self.buf.as_slice()) {
                return FragmentAction::Fail(FragmentError::InvalidUtf8);
            }
        }
        let mut header = Header::new(self.opcode);
        header.set_fin(true);
        let mut base = Frame::from(header);
        let mut data = Vec::new();
        std::mem::swap(&mut data, &mut self.buf);
        base.set_application_data(data);
        self.started = false;
        self.complete = false;
        self.opcode = OpCode::Close;
        self.total_length = 0;
        FragmentAction::Send(WebSocket::Base(base))
    }

    /// Decide on an item from upstream (see `fragment_step`); items that are
    /// not base frames are handed on.
    pub fn on_item(&mut self, item: Option<WebSocket>) -> (r: FragmentAction)
        requires
            old(self).wf(),
        ensures
            final(self).wf(),
            final(self).upstream_spec() == old(self).upstream_spec(),
            match item {
                Some(WebSocket::Base(f)) => {
                    &&& action_matches(r, fragment_step(old(self).state(), f@).0, item)
                    &&& final(self).state() == fragment_step(old(self).state(), f@).1
                },
                _ => r == FragmentAction::Forward(item) && final(self).state() == old(
                    self,
                ).state(),
            },
    {
        let f = match item {
            Some(WebSocket::Base(f)) => f,
            other => return FragmentAction::Forward(other),
        };
        let fin = f.header().is_fin();
        let opcode = f.header().opcode();
        if !fin && opcode != OpCode::Continue {
            self.opcode = opcode;
            self.started = true;
            self.gather(f.application_data());
            FragmentAction::Absorbed
        } else if !fin && opcode == OpCode::Continue {
            if !self.started || self.complete {
                return FragmentAction::Fail(FragmentError::InvalidFragment);
            }
            self.gather(f.application_data());
            FragmentAction::Absorbed
        } else if fin && opcode == OpCode::Continue {
            if !self.started || self.complete {
                return FragmentAction::Fail(FragmentError::InvalidFragmentComplete);
            }
            self.complete = true;
            self.gather(f.application_data());
            self.poll_complete()
        } else if opcode == OpCode::Text || opcode == OpCode::Binary {
            if self.started && !self.complete {
                return FragmentAction::Fail(FragmentError::InvalidContinuation);
            }
            FragmentAction::Forward(Some(WebSocket::Base(f)))
        } else {
            FragmentAction::Forward(Some(WebSocket::Base(f)))
        }
    }
}

// Laws ///////////////////////////////////////////////////////////////////////

/// The middleware run over a sequence of base frames: what each step does,
/// and the state after the last.
pub open spec fn run(s: FragmentState, frames: Seq<FrameSpec>) -> (Seq<StepModel>, FragmentState)
    decreases frames.len(),
{
    if frames.len() == 0 {
        (Seq::empty(), s)
    } else {
        let (m, s1) = fragment_step(s, frames[0]);
        let (ms, s2) = run(s1, frames.drop_first());
        (seq![m] + ms, s2)
    }
}

/// The application data of a sequence of frames, one after the other.
pub open spec fn gathered(frames: Seq<FrameSpec>) -> Seq<u8>
    decreases frames.len(),
{
    if frames.len() == 0 {
        Seq::empty()
    } else {
        frames[0].application_data + gathered(frames.drop_first())
    }
}

/// `n` steps that kept a fragment.
pub open spec fn absorbed(n: nat) -> Seq<StepModel> {
    Seq::new(n, |i: int| StepModel::Absorbed)
}

proof fn lemma_tail_coalesces(s: FragmentState, middles: Seq<FrameSpec>, last: FrameSpec)
    requires
        s.started,
        !s.complete,
        forall|i: int| 0 <= i < middles.len() ==> is_fragment(#[trigger] middles[i]),
        is_fragment_complete(last),
    ensures
        run(s, middles.push(last)) == ({
            let t = finish(
                FragmentState {
                    complete: true,
                    buf: s.buf + gathered(middles) + last.application_data,
                    ..s
                },
            );
            (absorbed(middles.len()).push(t.0), t.1)
        }),
    decreases middles.len(),
{
    if middles.len() == 0 {
        assert(gathered(middles) =~= Seq::<u8>::empty());
        assert(s.buf + gathered(middles) =~= s.buf);
        let frames = middles.push(last);
        assert(frames[0] == last);
        assert(frames.drop_first() =~= Seq::<FrameSpec>::empty());
        let t = finish(FragmentState { complete: true, buf: s.buf + last.application_data, ..s });
        assert(run(t.1, frames.drop_first()) == (Seq::<StepModel>::empty(), t.1));
        assert(seq![t.0] + Seq::<StepModel>::empty() =~= absorbed(0).push(t.0));
    } else {
        let m0 = middles[0];
        assert(is_fragment(m0));
        let s1 = FragmentState { buf: s.buf + m0.application_data, ..s };
        let rest = middles.drop_first();
        assert forall|i: int| 0 <= i < rest.len() implies is_fragment(#[trigger] rest[i]) by {
            assert(rest[i] == middles[i + 1]);
        }
        lemma_tail_coalesces(s1, rest, last);
        let frames = middles.push(last);
        assert(frames[0] == m0);
        assert(frames.drop_first() =~= rest.push(last));
        assert(gathered(middles) == m0.application_data + gathered(rest));
        assert(s1.buf + gathered(rest) + last.application_data =~= s.buf + gathered(middles)
            + last.application_data);
        let t = finish(
            FragmentState {
                complete: true,
                buf: s.buf + gathered(middles) + last.application_data,
                ..s
            },
        );
        assert(seq![StepModel::Absorbed] + absorbed(rest.len()).push(t.0) =~= absorbed(
            middles.len(),
        ).push(t.0));
    }
}

/// A fragmented message comes out whole: a first fragment, any number of
/// middle fragments and a last fragment, fed to an idle middleware, are
/// each kept, and on the last one the middleware sends one final frame with
/// the first fragment's opcode and all the fragments' data (a text message
/// only where that data is UTF-8), and is idle again.
pub proof fn lemma_fragments_coalesce(first: FrameSpec, middles: Seq<FrameSpec>, last: FrameSpec)
    requires
        is_fragment_start(first),
        forall|i: int| 0 <= i < middles.len() ==> is_fragment(#[trigger] middles[i]),
        is_fragment_complete(last),
        first.header.opcode != OpCode::Text || valid_utf8(
            first.application_data + gathered(middles) + last.application_data,
        ),
    ensures
        run(idle_state(), seq![first] + middles.push(last)) == (
            absorbed(middles.len() + 1).push(
                StepModel::Send(
                    final_frame(
                        first.header.opcode,
                        first.application_data + gathered(middles) + last.application_data,
                    ),
                ),
            ),
            idle_state(),
        ),
{
    let s0 = idle_state();
    let s1 = FragmentState {
        started: true,
        opcode: first.header.opcode,
        buf: s0.buf + first.application_data,
        ..s0
    };
    assert(s0.buf + first.application_data =~= first.application_data);
    lemma_tail_coalesces(s1, middles, last);
    let frames = seq![first] + middles.push(last);
    assert(frames[0] == first);
    assert(frames.drop_first() =~= middles.push(last));
    let data = first.application_data + gathered(middles) + last.application_data;
    assert(s1.buf + gathered(middles) + last.application_data =~= data);
    let t = finish(FragmentState { complete: true, buf: data, ..s1 });
    assert(seq![StepModel::Absorbed] + absorbed(middles.len()).push(t.0) =~= absorbed(
        middles.len() + 1,
    ).push(t.0));
}

} // verus!
