//! Which end of the control connection a codec serves. Several packet type
//! ordinals are read differently on the two sides: the same ordinal is a
//! request when the server reads it and a response when the client does,
//! which halves the number of distinct ordinals the protocol needs.

use vstd::prelude::*;

verus! {

#[derive(Debug, Clone, Copy, PartialEq, Eq, Structural)]
pub enum CodecSide {
    Server,
    Client,
}

impl CodecSide {
    pub fn is_client(self) -> (r: bool)
        ensures
            r == (self is Client),
    {
        self == Self::Client
    }

    pub fn is_server(self) -> (r: bool)
        ensures
            r == (self is Server),
    {
        self == Self::Server
    }
}

} // verus!
