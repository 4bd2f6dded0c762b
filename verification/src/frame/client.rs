//! Frames a client deals with during the handshake.

pub mod response;
