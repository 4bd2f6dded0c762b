//! Websocket extensions as per RFC 6455, section 9.

pub mod deflate;

use vstd::prelude::*;
use crate::base::{Frame, OpCode};

verus! {

/// An error an extension reports.
#[derive(Debug)]
pub struct Error {
    /// What went wrong.
    pub message: String,
}

/// A websocket extension as per RFC 6455, section 9.
pub trait Extension {
    /// Whether this extension is enabled, in the model.
    spec fn spec_enabled(&self) -> bool;

    /// Is this extension enabled?
    fn is_enabled(&self) -> (r: bool)
        ensures
            r == self.spec_enabled(),
    ;

    /// The name of this extension, in the model.
    spec fn spec_name(&self) -> Seq<char>;

    /// The name of this extension.
    fn name(&self) -> (r: &str)
        ensures
            r@ == self.spec_name(),
    ;

    /// The parameters this extension wants to send, in the model.
    spec fn spec_params(&self) -> Seq<ParamModel>;

    /// The parameters this extension wants to send for negotiation.
    fn params(&self) -> (r: &[Param])
        ensures
            r@.map_values(|p: Param| p@) == self.spec_params(),
    ;

    /// Configure this extension with the parameters received from negotiation.
    fn configure(&mut self, params: &[Param]) -> Result<(), Error>;

    /// Encode the given frame.
    fn encode(&mut self, f: &mut Frame) -> Result<(), Error>;

    /// Decode the given frame.
    fn decode(&mut self, f: &mut Frame) -> Result<(), Error>;

    /// The reserved bits this extension uses (rsv1, rsv2, rsv3), in the
    /// model.
    spec fn spec_reserved_bits(&self) -> (bool, bool, bool);

    /// The reserved bits this extension uses.
    fn reserved_bits(&self) -> (r: (bool, bool, bool))
        ensures
            r == self.spec_reserved_bits(),
    ;

    /// The reserved opcode of this extension (must be one of `OpCode::Reserved*`).
    fn reserved_opcode(&self) -> (r: Option<OpCode>)
        default_ensures
            r is None,
    {
        None
    }
}

/// Extension parameter (used for negotiation).
#[derive(Debug, Clone)]
pub struct Param {
    name: String,
    value: Option<String>,
}

/// The model of a parameter: its name and its value, if any.
pub struct ParamModel {
    pub name: Seq<char>,
    pub value: Option<Seq<char>>,
}

impl View for Param {
    type V = ParamModel;

    closed spec fn view(&self) -> ParamModel {
        ParamModel {
            name: self.name@,
            value: match self.value {
                Some(v) => Some(v@),
                None => None,
            },
        }
    }
}

impl Param {
    /// A parameter with the given name and no value.
    pub fn new(name: &str) -> (r: Param)
        ensures
            r@ == (ParamModel { name: name@, value: None }),
    {
        Param { name: name.to_owned(), value: None }
    }

    /// Set the value of this parameter.
    pub fn set_value(&mut self, value: Option<&str>) -> (r: &mut Param)
        ensures
            r@ == (ParamModel {
                name: old(self)@.name,
                value: match value {
                    Some(v) => Some(v@),
                    None => None,
                },
            }),
            *final(self) == *final(r),
    {
        self.value = match value {
            Some(v) => Some(v.to_owned()),
            None => None,
        };
        self
    }

    /// The name of this parameter.
    pub fn name(&self) -> (r: &str)
        ensures
            r@ == self@.name,
    {
        self.name.as_str()
    }

    /// The value of this parameter, if any.
    pub fn value(&self) -> (r: Option<&str>)
        ensures
            match r {
                Some(v) => self@.value == Some(v@),
                None => self@.value is None,
            },
    {
        match &self.value {
            Some(v) => Some(v.as_str()),
            None => None,
        }
    }
}

} // verus!
