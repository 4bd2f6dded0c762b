//! The `Close` protocol middleware: it answers a received close frame with
//! a close frame of its own.

use vstd::prelude::*;
use vstd::utf8::{encode_utf8, valid_utf8};
use crate::base::{be_bytes, be_value, lemma_be_bytes_len, write_be};
use crate::frame::base::OpCode;
use crate::frame::{final_frame, WebSocket};
use crate::util::{append_bytes, is_utf8};

verus! {

/// Close `ReasonCode` defined per RFC.
#[derive(Debug, Clone, Copy, PartialEq, Eq, Structural)]
pub enum ReasonCode {
    /// 0 - 999
    Unused,
    /// 1000
    Normal,
    /// 1001
    Shutdown,
    /// 1002
    ProtocolError,
    /// 1003
    CannotAccept,
    /// 1004
    Reserved1,
    /// 1005
    Reserved2,
    /// 1006
    Reserved3,
    /// 1007
    InvalidUtf8,
    /// 1008
    PolicyViolation,
    /// 1009
    MessageTooBig,
    /// 1010
    ExtNegotiationFailure,
    /// 1011
    UnexpectedFailure,
    /// 1015
    Reserved4,
    /// 1012, 1013, 1014, 1016-2099
    Reserved5,
    /// 3000 - 3999
    AppSpecific,
    /// 4000 - 4999
    Undefined,
}

/// The reason code a close code stands for; codes that no range names
/// (1002, 5000 and above) stand for a protocol error.
pub open spec fn reason_of(val: u16) -> ReasonCode {
    if val <= 999 {
        ReasonCode::Unused
    } else if val == 1000 {
        ReasonCode::Normal
    } else if val == 1001 {
        ReasonCode::Shutdown
    } else if val == 1003 {
        ReasonCode::CannotAccept
    } else if val == 1004 {
        ReasonCode::Reserved1
    } else if val == 1005 {
        ReasonCode::Reserved2
    } else if val == 1006 {
        ReasonCode::Reserved3
    } else if val == 1007 {
        ReasonCode::InvalidUtf8
    } else if val == 1008 {
        ReasonCode::PolicyViolation
    } else if val == 1009 {
        ReasonCode::MessageTooBig
    } else if val == 1010 {
        ReasonCode::ExtNegotiationFailure
    } else if val == 1011 {
        ReasonCode::UnexpectedFailure
    } else if val == 1012 || val == 1013 || val == 1014 || (1016 <= val <= 2999) {
        ReasonCode::Reserved5
    } else if val == 1015 {
        ReasonCode::Reserved4
    } else if 3000 <= val <= 3999 {
        ReasonCode::AppSpecific
    } else if 4000 <= val <= 4999 {
        ReasonCode::Undefined
    } else {
        ReasonCode::ProtocolError
    }
}

impl From<u16> for ReasonCode {
    fn from(val: u16) -> (r: ReasonCode) {
        if val <= 999 {
            ReasonCode::Unused
        } else if val == 1000 {
            ReasonCode::Normal
        } else if val == 1001 {
            ReasonCode::Shutdown
        } else if val == 1003 {
            ReasonCode::CannotAccept
        } else if val == 1004 {
            ReasonCode::Reserved1
        } else if val == 1005 {
            ReasonCode::Reserved2
        } else if val == 1006 {
            ReasonCode::Reserved3
        } else if val == 1007 {
            ReasonCode::InvalidUtf8
        } else if val == 1008 {
            ReasonCode::PolicyViolation
        } else if val == 1009 {
            ReasonCode::MessageTooBig
        } else if val == 1010 {
            ReasonCode::ExtNegotiationFailure
        } else if val == 1011 {
            ReasonCode::UnexpectedFailure
        } else if val == 1012 || val == 1013 || val == 1014 || (1016 <= val && val <= 2999) {
            ReasonCode::Reserved5
        } else if val == 1015 {
            ReasonCode::Reserved4
        } else if 3000 <= val && val <= 3999 {
            ReasonCode::AppSpecific
        } else if 4000 <= val && val <= 4999 {
            ReasonCode::Undefined
        } else {
            ReasonCode::ProtocolError
        }
    }
}

impl vstd::std_specs::convert::FromSpecImpl<u16> for ReasonCode {
    open spec fn obeys_from_spec() -> bool {
        true
    }

    open spec fn from_spec(v: u16) -> ReasonCode {
        reason_of(v)
    }
}

/// The close code of a reason code: the code itself, or the first of its
/// range.
pub open spec fn code_of(r: ReasonCode) -> u16 {
    match r {
        ReasonCode::Unused => 0,
        ReasonCode::Normal => 1000,
        ReasonCode::Shutdown => 1001,
        ReasonCode::ProtocolError => 1002,
        ReasonCode::CannotAccept => 1003,
        ReasonCode::Reserved1 => 1004,
        ReasonCode::Reserved2 => 1005,
        ReasonCode::Reserved3 => 1006,
        ReasonCode::InvalidUtf8 => 1007,
        ReasonCode::PolicyViolation => 1008,
        ReasonCode::MessageTooBig => 1009,
        ReasonCode::ExtNegotiationFailure => 1010,
        ReasonCode::UnexpectedFailure => 1011,
        ReasonCode::Reserved5 => 1012,
        ReasonCode::Reserved4 => 1015,
        ReasonCode::AppSpecific => 3000,
        ReasonCode::Undefined => 4000,
    }
}

impl From<ReasonCode> for u16 {
    fn from(closecode: ReasonCode) -> (r: u16) {
        match closecode {
            ReasonCode::Unused => 0,
            ReasonCode::Normal => 1000,
            ReasonCode::Shutdown => 1001,
            ReasonCode::ProtocolError => 1002,
            ReasonCode::CannotAccept => 1003,
            ReasonCode::Reserved1 => 1004,
            ReasonCode::Reserved2 => 1005,
            ReasonCode::Reserved3 => 1006,
            ReasonCode::InvalidUtf8 => 1007,
            ReasonCode::PolicyViolation => 1008,
            ReasonCode::MessageTooBig => 1009,
            ReasonCode::ExtNegotiationFailure => 1010,
            ReasonCode::UnexpectedFailure => 1011,
            ReasonCode::Reserved5 => 1012,
            ReasonCode::Reserved4 => 1015,
            ReasonCode::AppSpecific => 3000,
            ReasonCode::Undefined => 4000,
        }
    }
}

impl vstd::std_specs::convert::FromSpecImpl<ReasonCode> for u16 {
    open spec fn obeys_from_spec() -> bool {
        true
    }

    open spec fn from_spec(v: ReasonCode) -> u16 {
        code_of(v)
    }
}

/// The text of a reason code: its code or range, and its name.
pub open spec fn reason_text(r: ReasonCode) -> Seq<char> {
    match r {
        ReasonCode::Unused => "0-999: Unused"@,
        ReasonCode::Normal => "1000: Normal"@,
        ReasonCode::Shutdown => "1001: Server Shutdown"@,
        ReasonCode::ProtocolError => "1002: Protocol Error"@,
        ReasonCode::CannotAccept => "1003: Cannot Accept"@,
        ReasonCode::Reserved1 => "1004: Reserved1"@,
        ReasonCode::Reserved2 => "1005: Reserved2"@,
        ReasonCode::Reserved3 => "1006: Reserved3"@,
        ReasonCode::InvalidUtf8 => "1007: Invalid UTF-8"@,
        ReasonCode::PolicyViolation => "1008: Policy Violation"@,
        ReasonCode::MessageTooBig => "1009: Message Too Large"@,
        ReasonCode::ExtNegotiationFailure => "1010: Extension Negotiation Failure"@,
        ReasonCode::UnexpectedFailure => "1011: Unexpected Failure"@,
        ReasonCode::Reserved5 => "1012, 1013, 1014, 1016-2999: Reserved5"@,
        ReasonCode::Reserved4 => "1015: Reserved4"@,
        ReasonCode::AppSpecific => "3000-3999: Application Specific"@,
        ReasonCode::Undefined => "4000-4999: Application Specific"@,
    }
}

impl ReasonCode {
    /// The text of this reason code.
    pub fn to_string(&self) -> (r: String)
        ensures
            r@ == reason_text(*self),
    {
        match self {
            ReasonCode::Unused => "0-999: Unused".to_owned(),
            ReasonCode::Normal => "1000: Normal".to_owned(),
            ReasonCode::Shutdown => "1001: Server Shutdown".to_owned(),
            ReasonCode::ProtocolError => "1002: Protocol Error".to_owned(),
            ReasonCode::CannotAccept => "1003: Cannot Accept".to_owned(),
            ReasonCode::Reserved1 => "1004: Reserved1".to_owned(),
            ReasonCode::Reserved2 => "1005: Reserved2".to_owned(),
            ReasonCode::Reserved3 => "1006: Reserved3".to_owned(),
            ReasonCode::InvalidUtf8 => "1007: Invalid UTF-8".to_owned(),
            ReasonCode::PolicyViolation => "1008: Policy Violation".to_owned(),
            ReasonCode::MessageTooBig => "1009: Message Too Large".to_owned(),
            ReasonCode::ExtNegotiationFailure => "1010: Extension Negotiation Failure".to_owned(),
            ReasonCode::UnexpectedFailure => "1011: Unexpected Failure".to_owned(),
            ReasonCode::Reserved5 => "1012, 1013, 1014, 1016-2999: Reserved5".to_owned(),
            ReasonCode::Reserved4 => "1015: Reserved4".to_owned(),
            ReasonCode::AppSpecific => "3000-3999: Application Specific".to_owned(),
            ReasonCode::Undefined => "4000-4999: Application Specific".to_owned(),
        }
    }
}

// The close reply ////////////////////////////////////////////////////////////

/// Reason codes that a peer may not send: the reply to them is a protocol
/// error.
pub open spec fn is_refused(r: ReasonCode) -> bool {
    r == ReasonCode::Unused || r == ReasonCode::ProtocolError || r == ReasonCode::Reserved1
        || r == ReasonCode::Reserved2 || r == ReasonCode::Reserved3 || r == ReasonCode::Reserved4
        || r == ReasonCode::Reserved5
}

/// The payload of a protocol error reply: code 1002, then its text.
pub open spec fn protocol_error_payload() -> Seq<u8> {
    be_bytes(1002, 2) + encode_utf8(reason_text(ReasonCode::ProtocolError))
}

/// The close code at the start of a close payload (of at least two bytes).
pub open spec fn payload_code(d: Seq<u8>) -> u16 {
    be_value(d.take(2)) as u16
}

/// The payload of the close frame sent back for a received close frame
/// with the given application data: none for none; the received payload
/// where it holds a close code the peer may send and a UTF-8 reason;
/// otherwise a protocol error.
pub open spec fn close_reply(app_data: Option<Seq<u8>>) -> Seq<u8> {
    match app_data {
        None => Seq::empty(),
        Some(d) => if d.len() >= 2 && valid_utf8(d.skip(2)) && !is_refused(
            reason_of(payload_code(d)),
        ) {
            d
        } else {
            protocol_error_payload()
        },
    }
}

/// Optional bytes, taken as a sequence.
pub open spec fn opt_seq(o: Option<Vec<u8>>) -> Option<Seq<u8>> {
    match o {
        Some(v) => Some(v@),
        None => None,
    }
}

/// The payload of the close frame that answers a close frame with the given
/// application data.
pub fn close_response(app_data: &Option<Vec<u8>>) -> (r: Vec<u8>)
    ensures
        r@ == close_reply(opt_seq(*app_data)),
{
    let close_code = match app_data {
        None => ReasonCode::Normal,
        Some(d) => {
            if d.len() > 1 {
                let hi = d[0] as u16;
                let lo = d[1] as u16;
                let len = hi * 256 + lo;
                proof {
                    reveal_with_fuel(be_value, 3);
                    assert(d@.take(2).drop_last() =~= d@.take(1));
                    assert(d@.take(1).drop_last() =~= Seq::<u8>::empty());
                }
                assert(len == payload_code(d@));
                let rest = d.as_slice().split_at(2).1;
                assert(rest@ =~= d@.skip(2));
                if !is_utf8(rest) {
                    ReasonCode::ProtocolError
                } else {
                    ReasonCode::from(len)
                }
            } else {
                ReasonCode::ProtocolError
            }
        },
    };
    let mut data: Vec<u8> = Vec::with_capacity(2);
    match close_code {
        ReasonCode::Unused
        | ReasonCode::ProtocolError
        | ReasonCode::Reserved1
        | ReasonCode::Reserved2
        | ReasonCode::Reserved3
        | ReasonCode::Reserved4
        | ReasonCode::Reserved5 => {
            let code = write_be(u16::from(ReasonCode::ProtocolError) as u64, 2);
            append_bytes(&mut data, code.as_slice());
            let text = ReasonCode::ProtocolError.to_string();
            append_bytes(&mut data, text.as_str().as_bytes());
        },
        _ => {
            if let Some(d) = app_data {
                append_bytes(&mut data, d.as_slice());
            }
        },
    }
    data
}

// The middleware /////////////////////////////////////////////////////////////

/// The `Close` struct.
pub struct Close<T> {
    /// The upstream protocol.
    upstream: T,
    /// Has a close frame been received?
    received: bool,
    /// The appdata associated with the close request.  This is sent back in the close response
    /// frame.
    app_data: Option<Vec<u8>>,
}

/// What the close middleware does with an item its upstream produced.
pub enum CloseAction {
    /// Hand the item on.
    Forward(Option<WebSocket>),
    /// A close frame came in: send this close frame back, then end.
    Reply(WebSocket),
}

/// A message is a close frame.
pub open spec fn is_close_message(m: WebSocket) -> bool {
    m matches WebSocket::Base(f) && f@.header.opcode == OpCode::Close
}

impl<T> Close<T> {
    /// The upstream protocol.
    pub closed spec fn upstream_spec(&self) -> T {
        self.upstream
    }

    /// Whether a close frame has been received.
    pub closed spec fn received_spec(&self) -> bool {
        self.received
    }

    /// The application data of the received close frame.
    pub closed spec fn app_data_spec(&self) -> Option<Seq<u8>> {
        opt_seq(self.app_data)
    }

    /// Create a new `Close` protocol middleware
    pub fn new(upstream: T) -> (r: Close<T>)
        ensures
            r.upstream_spec() == upstream,
            !r.received_spec(),
            r.app_data_spec() == None::<Seq<u8>>,
    {
        Close { upstream, received: false, app_data: None }
    }

    /// The upstream protocol, to drive it.
    pub fn upstream_mut(&mut self) -> (r: &mut T)
        ensures
            *r == old(self).upstream_spec(),
            final(self).upstream_spec() == *final(r),
            final(self).received_spec() == old(self).received_spec(),
            final(self).app_data_spec() == old(self).app_data_spec(),
    {
        &mut self.upstream
    }

    /// Decide on an item from upstream: a close frame is kept (its data, if
    /// it has any) and answered with the close reply; anything else is handed
    /// on unchanged.
    pub fn on_item(&mut self, item: Option<WebSocket>) -> (r: CloseAction)
        ensures
            match item {
                Some(m) if is_close_message(m) => {
                    &&& final(self).received_spec()
                    &&& m matches WebSocket::Base(f) && final(self).app_data_spec() == (if f@.application_data.len()
                        == 0 {
                        None
                    } else {
                        Some(f@.application_data)
                    })
                    &&& r matches CloseAction::Reply(WebSocket::Base(g)) && g@ == final_frame(
                        OpCode::Close,
                        close_reply(final(self).app_data_spec()),
                    )
                    &&& final(self).upstream_spec() == old(self).upstream_spec()
                },
                _ => {
                    &&& r == CloseAction::Forward(item)
                    &&& final(self).upstream_spec() == old(self).upstream_spec()
                    &&& final(self).received_spec() == old(self).received_spec()
                    &&& final(self).app_data_spec() == old(self).app_data_spec()
                },
            },
    {
        match item {
            Some(WebSocket::Base(f)) => {
                if f.header().opcode() == OpCode::Close {
                    let data = f.application_data();
                    // A close frame without data keeps none.
                    self.app_data = if data.len() == 0 {
                        None
                    } else {
                        Some(vstd::slice::slice_to_vec(data))
                    };
                    self.received = true;
                    match self.reply() {
                        Some(m) => CloseAction::Reply(m),
                        None => CloseAction::Forward(None),
                    }
                } else {
                    CloseAction::Forward(Some(WebSocket::Base(f)))
                }
            },
            other => CloseAction::Forward(other),
        }
    }

    /// The close frame to send before upstream is flushed: the reply to a
    /// received close frame, if one was received.
    pub fn reply(&self) -> (r: Option<WebSocket>)
        ensures
            self.received_spec() ==> (r matches Some(WebSocket::Base(g)) && g@ == final_frame(
                OpCode::Close,
                close_reply(self.app_data_spec()),
            )),
            !self.received_spec() ==> r is None,
    {
        if self.received {
            Some(WebSocket::close(close_response(&self.app_data)))
        } else {
            None
        }
    }
}

// Laws ///////////////////////////////////////////////////////////////////////

/// Every reason code is the reason code of its own close code.
pub proof fn lemma_reason_code_roundtrip(r: ReasonCode)
    ensures
        reason_of(code_of(r)) == r,
{
}

/// The close reply always starts with a close code the peer may send back
/// (never a refused one), followed by UTF-8 text, unless it is empty.
pub proof fn lemma_close_reply_well_formed(app_data: Option<Seq<u8>>)
    ensures
        close_reply(app_data).len() == 0 || (close_reply(app_data).len() >= 2
            && valid_utf8(close_reply(app_data).skip(2))),
{
    match app_data {
        None => {},
        Some(d) => {
            let p = protocol_error_payload();
            let text = encode_utf8(reason_text(ReasonCode::ProtocolError));
            lemma_be_bytes_len(1002, 2);
            vstd::utf8::encode_utf8_valid_utf8(reason_text(ReasonCode::ProtocolError));
            assert(p.skip(2) =~= text);
        },
    }
}

} // verus!
