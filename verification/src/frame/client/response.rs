//! A server handshake response, as a client reads it, and its validation.

use vstd::prelude::*;
use crate::util::str_eq;

verus! {

/// The Unicode lowercase of a string, as `str::to_lowercase` writes it.
pub uninterp spec fn lowercase_of(s: Seq<char>) -> Seq<char>;

/// `str::to_lowercase`: each character replaced by its Unicode lowercase
/// mapping (which may take more than one character). The mapping is named
/// by `lowercase_of`.
#[verifier::external_body]
fn lowercase(s: &str) -> (r: String)
    ensures
        r@ == lowercase_of(s@),
{
    s.to_lowercase()
}

/// A server handshake response to a client handshake request.
#[derive(Debug, Clone)]
pub struct Frame {
    /// The response `version`
    version: u8,
    /// The response `code`
    code: u16,
    /// The response `reason`
    reason: String,
    /// Upgrade header (Required)
    upgrade: Option<String>,
    /// Connection header (Required)
    conn: Option<String>,
    /// Sec-WebSocket-Accept header (Required)
    ws_accept: Option<String>,
    /// Sec-WebSocket-Protocol header (Optional)
    protocol: Option<String>,
    /// Sec-WebSocket-Extensions header (Optional)
    extensions: Option<String>,
    /// Any other remaining headers, by name.
    others: Vec<(String, String)>,
}

/// The model of a response frame.
pub struct FrameModel {
    pub version: u8,
    pub code: u16,
    pub reason: Seq<char>,
    pub upgrade: Option<Seq<char>>,
    pub conn: Option<Seq<char>>,
    pub ws_accept: Option<Seq<char>>,
    pub protocol: Option<Seq<char>>,
    pub extensions: Option<Seq<char>>,
    pub others: Seq<(Seq<char>, Seq<char>)>,
}

/// The model of an optional string.
pub open spec fn opt_view(s: Option<String>) -> Option<Seq<char>> {
    match s {
        Some(v) => Some(v@),
        None => None,
    }
}

/// The text a getter hands out for an optional value: the value, or the
/// empty string.
pub open spec fn text_or_empty(s: Option<Seq<char>>) -> Seq<char> {
    match s {
        Some(v) => v,
        None => Seq::empty(),
    }
}

impl View for Frame {
    type V = FrameModel;

    closed spec fn view(&self) -> FrameModel {
        FrameModel {
            version: self.version,
            code: self.code,
            reason: self.reason@,
            upgrade: opt_view(self.upgrade),
            conn: opt_view(self.conn),
            ws_accept: opt_view(self.ws_accept),
            protocol: opt_view(self.protocol),
            extensions: opt_view(self.extensions),
            others: self.others@.map_values(|h: (String, String)| (h.0@, h.1@)),
        }
    }
}

/// A valid response switches to the websocket protocol: HTTP/1.1, status
/// 101 with the reason "switching protocols", `Upgrade: websocket` and
/// `Connection: upgrade` (the texts compared in lowercase), and an accept
/// value.
pub open spec fn response_valid(m: FrameModel) -> bool {
    &&& m.version == 1
    &&& lowercase_of(m.reason) == "switching protocols"@
    &&& m.code == 101
    &&& m.upgrade matches Some(u) && lowercase_of(u) == "websocket"@
    &&& m.conn matches Some(c) && lowercase_of(c) == "upgrade"@
    &&& m.ws_accept is Some
}

/// The text of an optional value, or the empty string.
fn text_of(s: &Option<String>) -> (r: String)
    ensures
        r@ == text_or_empty(opt_view(*s)),
{
    match s {
        Some(v) => v.clone(),
        None => String::new(),
    }
}

impl Default for Frame {
    fn default() -> (r: Frame)
        ensures
            r@ == (FrameModel {
                version: 0,
                code: 0,
                reason: Seq::empty(),
                upgrade: None,
                conn: None,
                ws_accept: None,
                protocol: None,
                extensions: None,
                others: Seq::empty(),
            }),
    {
        let r = Frame {
            version: 0,
            code: 0,
            reason: String::new(),
            upgrade: None,
            conn: None,
            ws_accept: None,
            protocol: None,
            extensions: None,
            others: Vec::new(),
        };
        assert(r@.others =~= Seq::empty());
        r
    }
}

impl Frame {
    /// Validate this server response frame.
    pub fn validate(&self) -> (r: bool)
        ensures
            r == response_valid(self@),
    {
        if self.version != 1 {
            return false;
        }
        if !str_eq(lowercase(self.reason.as_str()).as_str(), "switching protocols") {
            return false;
        }
        if self.code != 101 {
            return false;
        }
        match &self.upgrade {
            Some(val) => {
                if !str_eq(lowercase(val.as_str()).as_str(), "websocket") {
                    return false;
                }
            },
            None => return false,
        }
        match &self.conn {
            Some(val) => {
                if !str_eq(lowercase(val.as_str()).as_str(), "upgrade") {
                    return false;
                }
            },
            None => return false,
        }
        self.ws_accept.is_some()
    }

    /// Get the `version` value.
    pub fn version(&self) -> (r: u8)
        ensures
            r == self@.version,
    {
        self.version
    }

    /// Set the `version` value.
    pub fn set_version(&mut self, version: u8) -> (r: &mut Frame)
        ensures
            r@ == (FrameModel { version, ..old(self)@ }),
            *final(self) == *final(r),
    {
        self.version = version;
        self
    }

    /// Get the `code` value.
    pub fn code(&self) -> (r: u16)
        ensures
            r == self@.code,
    {
        self.code
    }

    /// Set the `code` value.
    pub fn set_code(&mut self, code: u16) -> (r: &mut Frame)
        ensures
            r@ == (FrameModel { code, ..old(self)@ }),
            *final(self) == *final(r),
    {
        self.code = code;
        self
    }

    /// Get the `reason` value.
    pub fn reason(&self) -> (r: &str)
        ensures
            r@ == self@.reason,
    {
        self.reason.as_str()
    }

    /// Set the `reason` value.
    pub fn set_reason(&mut self, reason: &str) -> (r: &mut Frame)
        ensures
            r@ == (FrameModel { reason: reason@, ..old(self)@ }),
            *final(self) == *final(r),
    {
        self.reason = reason.to_owned();
        self
    }

    /// Get the `upgrade` value (empty if there is none).
    pub fn upgrade(&self) -> (r: String)
        ensures
            r@ == text_or_empty(self@.upgrade),
    {
        text_of(&self.upgrade)
    }

    /// Set the `upgrade` value.
    pub fn set_upgrade(&mut self, upgrade: Option<String>) -> (r: &mut Frame)
        ensures
            r@ == (FrameModel { upgrade: opt_view(upgrade), ..old(self)@ }),
            *final(self) == *final(r),
    {
        self.upgrade = upgrade;
        self
    }

    /// Get the `conn` value (empty if there is none).
    pub fn conn(&self) -> (r: String)
        ensures
            r@ == text_or_empty(self@.conn),
    {
        text_of(&self.conn)
    }

    /// Set the `conn` value.
    pub fn set_conn(&mut self, conn: Option<String>) -> (r: &mut Frame)
        ensures
            r@ == (FrameModel { conn: opt_view(conn), ..old(self)@ }),
            *final(self) == *final(r),
    {
        self.conn = conn;
        self
    }

    /// Get the `ws_accept` value (empty if there is none).
    pub fn ws_accept(&self) -> (r: String)
        ensures
            r@ == text_or_empty(self@.ws_accept),
    {
        text_of(&self.ws_accept)
    }

    /// Set the `ws_accept` value.
    pub fn set_ws_accept(&mut self, ws_accept: Option<String>) -> (r: &mut Frame)
        ensures
            r@ == (FrameModel { ws_accept: opt_view(ws_accept), ..old(self)@ }),
            *final(self) == *final(r),
    {
        self.ws_accept = ws_accept;
        self
    }

    /// Get the `protocol` value (empty if there is none).
    pub fn protocol(&self) -> (r: String)
        ensures
            r@ == text_or_empty(self@.protocol),
    {
        text_of(&self.protocol)
    }

    /// Set the `protocol` value.
    pub fn set_protocol(&mut self, protocol: Option<String>) -> (r: &mut Frame)
        ensures
            r@ == (FrameModel { protocol: opt_view(protocol), ..old(self)@ }),
            *final(self) == *final(r),
    {
        self.protocol = protocol;
        self
    }

    /// Get the `extensions` value (empty if there is none).
    pub fn extensions(&self) -> (r: String)
        ensures
            r@ == text_or_empty(self@.extensions),
    {
        text_of(&self.extensions)
    }

    /// Set the `extensions` value.
    pub fn set_extensions(&mut self, extensions: Option<String>) -> (r: &mut Frame)
        ensures
            r@ == (FrameModel { extensions: opt_view(extensions), ..old(self)@ }),
            *final(self) == *final(r),
    {
        self.extensions = extensions;
        self
    }

    /// Get the other headers.
    pub fn others(&self) -> (r: &[(String, String)])
        ensures
            r@.map_values(|h: (String, String)| (h.0@, h.1@)) == self@.others,
    {
        self.others.as_slice()
    }

    /// Set the other headers.
    pub fn set_others(&mut self, others: Vec<(String, String)>) -> (r: &mut Frame)
        ensures
            r@ == (FrameModel {
                others: others@.map_values(|h: (String, String)| (h.0@, h.1@)),
                ..old(self)@
            }),
            *final(self) == *final(r),
    {
        self.others = others;
        self
    }
}

} // verus!
