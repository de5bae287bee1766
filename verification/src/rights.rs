//! The server-granted capability bitmask: which kinds of listener a client
//! may ask the relay to create, and whether it may pick the port or path
//! itself. Also the human-readable names of rights and of protocol error
//! codes.

use vstd::prelude::*;
use vstd::string::{StrSliceExecFns, StringExecFns};

use crate::wire::{
    ACCESS_DENIED, BIND_ERROR, DECOMPRESS_ERR, TOO_LONG, UNIMPLEMENTED, UNKNOWN_PKT,
    UNSUPPORTED_PKT,
};

verus! {

pub const CAN_CREATE_HTTP: u8 = 0b00000001;
pub const CAN_CREATE_TCP: u8 = 0b00000010;
pub const CAN_CREATE_UDP: u8 = 0b00000100;
pub const CAN_CREATE_SSH: u8 = 0b00001000;

pub const CAN_SELECT_HTTP: u8 = 0b00010000;
pub const CAN_SELECT_UDP: u8 = 0b00100000;
pub const CAN_SELECT_TCP: u8 = 0b01000000;

/// The individual capability bits, read off a rights byte.
pub trait RightsFlags: Sized {
    spec fn spec_has_right(self, flag: u8) -> bool;

    fn can_select_udp_port(self) -> (r: bool)
        ensures
            r == self.spec_has_right(CAN_SELECT_UDP),
    ;

    fn can_select_tcp_port(self) -> (r: bool)
        ensures
            r == self.spec_has_right(CAN_SELECT_TCP),
    ;

    fn can_select_http_path(self) -> (r: bool)
        ensures
            r == self.spec_has_right(CAN_SELECT_HTTP),
    ;

    fn can_create_udp(self) -> (r: bool)
        ensures
            r == self.spec_has_right(CAN_CREATE_UDP),
    ;

    fn can_create_tcp(self) -> (r: bool)
        ensures
            r == self.spec_has_right(CAN_CREATE_TCP),
    ;

    fn can_create_http(self) -> (r: bool)
        ensures
            r == self.spec_has_right(CAN_CREATE_HTTP),
    ;
}

impl RightsFlags for u8 {
    open spec fn spec_has_right(self, flag: u8) -> bool {
        (self & flag) == flag
    }

    fn can_select_udp_port(self) -> bool {
        (self & CAN_SELECT_UDP) == CAN_SELECT_UDP
    }

    fn can_select_tcp_port(self) -> bool {
        (self & CAN_SELECT_TCP) == CAN_SELECT_TCP
    }

    fn can_select_http_path(self) -> bool {
        (self & CAN_SELECT_HTTP) == CAN_SELECT_HTTP
    }

    fn can_create_udp(self) -> bool {
        (self & CAN_CREATE_UDP) == CAN_CREATE_UDP
    }

    fn can_create_tcp(self) -> bool {
        (self & CAN_CREATE_TCP) == CAN_CREATE_TCP
    }

    fn can_create_http(self) -> bool {
        (self & CAN_CREATE_HTTP) == CAN_CREATE_HTTP
    }
}

/// The diagnostic text of each protocol error code.
pub open spec fn spec_error_string(code: u8) -> Seq<char> {
    if code == ACCESS_DENIED {
        "Access Denied"@
    } else if code == UNIMPLEMENTED {
        "Currently this feature is not supported"@
    } else if code == BIND_ERROR {
        "Can't bind specified port (Possibly already bound)"@
    } else if code == UNKNOWN_PKT {
        "Unknown packet sent"@
    } else if code == UNSUPPORTED_PKT {
        "Unsupported packet type"@
    } else if code == TOO_LONG {
        "Too long packet buffer"@
    } else if code == DECOMPRESS_ERR {
        "Buffer decompression error"@
    } else {
        "Unknown error"@
    }
}

/// The diagnostic text of a protocol error code.
pub fn error_to_string(code: u8) -> (r: &'static str)
    ensures
        r@ == spec_error_string(code),
{
    match code {
        ACCESS_DENIED => "Access Denied",
        UNIMPLEMENTED => "Currently this feature is not supported",
        BIND_ERROR => "Can't bind specified port (Possibly already bound)",
        UNKNOWN_PKT => "Unknown packet sent",
        UNSUPPORTED_PKT => "Unsupported packet type",
        TOO_LONG => "Too long packet buffer",
        DECOMPRESS_ERR => "Buffer decompression error",
        _ => "Unknown error",
    }
}

/// The diagnostic text of an error code, as a method on the code byte.
pub trait ErrorToString: Sized {
    spec fn spec_error_text(self) -> Seq<char>;

    fn to_error_string(self) -> (r: &'static str)
        ensures
            r@ == self.spec_error_text(),
    ;
}

impl ErrorToString for u8 {
    open spec fn spec_error_text(self) -> Seq<char> {
        spec_error_string(self)
    }

    fn to_error_string(self) -> &'static str {
        error_to_string(self)
    }
}

/// A conditional piece of text: present or empty.
pub open spec fn seg(cond: bool, text: Seq<char>) -> Seq<char> {
    if cond {
        text
    } else {
        ""@
    }
}

/// The names of the set capability bits, each followed by a separator, in
/// a fixed order; an empty mask reads "No rights".
pub open spec fn spec_show_rights(rights: u8) -> Seq<char> {
    let body = seg(rights.spec_has_right(CAN_CREATE_TCP), "CAN_CREATE_TCP |"@) + seg(
        rights.spec_has_right(CAN_SELECT_TCP),
        "CAN_SELECT_TCP |"@,
    ) + seg(rights.spec_has_right(CAN_CREATE_UDP), "CAN_CREATE_UDP |"@) + seg(
        rights.spec_has_right(CAN_SELECT_UDP),
        "CAN_SELECT_UDP |"@,
    ) + seg(rights.spec_has_right(CAN_CREATE_HTTP), "CAN_CREATE_HTTP |"@) + seg(
        rights.spec_has_right(CAN_SELECT_HTTP),
        "CAN_SELECT_HTTP_PATH |"@,
    );
    if body.len() == 0 {
        "No rights"@
    } else {
        body
    }
}

/// The names of a rights byte's set bits.
pub trait RightsToString: Sized {
    spec fn spec_rights_text(self) -> Seq<char>;

    fn show_rights(self) -> (r: String)
        ensures
            r@ == self.spec_rights_text(),
    ;
}

impl RightsToString for u8 {
    open spec fn spec_rights_text(self) -> Seq<char> {
        spec_show_rights(self)
    }

    fn show_rights(self) -> (r: String) {
        proof {
            reveal_strlit("");
            reveal_strlit("CAN_CREATE_TCP |");
            reveal_strlit("CAN_SELECT_TCP |");
            reveal_strlit("CAN_CREATE_UDP |");
            reveal_strlit("CAN_SELECT_UDP |");
            reveal_strlit("CAN_CREATE_HTTP |");
            reveal_strlit("CAN_SELECT_HTTP_PATH |");
        }
        let ghost s1 = seg(self.spec_has_right(CAN_CREATE_TCP), "CAN_CREATE_TCP |"@);
        let ghost s2 = seg(self.spec_has_right(CAN_SELECT_TCP), "CAN_SELECT_TCP |"@);
        let ghost s3 = seg(self.spec_has_right(CAN_CREATE_UDP), "CAN_CREATE_UDP |"@);
        let ghost s4 = seg(self.spec_has_right(CAN_SELECT_UDP), "CAN_SELECT_UDP |"@);
        let ghost s5 = seg(self.spec_has_right(CAN_CREATE_HTTP), "CAN_CREATE_HTTP |"@);
        let ghost s6 = seg(self.spec_has_right(CAN_SELECT_HTTP), "CAN_SELECT_HTTP_PATH |"@);
        let mut buf = String::from_str("");
        if self.can_create_tcp() {
            buf.append("CAN_CREATE_TCP |");
        }
        proof {
            assert(buf@ =~= s1);
        }
        if self.can_select_tcp_port() {
            buf.append("CAN_SELECT_TCP |");
        }
        proof {
            assert(buf@ =~= s1 + s2);
        }
        if self.can_create_udp() {
            buf.append("CAN_CREATE_UDP |");
        }
        proof {
            assert(buf@ =~= s1 + s2 + s3);
        }
        if self.can_select_udp_port() {
            buf.append("CAN_SELECT_UDP |");
        }
        proof {
            assert(buf@ =~= s1 + s2 + s3 + s4);
        }
        if self.can_create_http() {
            buf.append("CAN_CREATE_HTTP |");
        }
        proof {
            assert(buf@ =~= s1 + s2 + s3 + s4 + s5);
        }
        if self.can_select_http_path() {
            buf.append("CAN_SELECT_HTTP_PATH |");
        }
        proof {
            assert(buf@ =~= s1 + s2 + s3 + s4 + s5 + s6);
        }
        if buf.as_str().unicode_len() == 0 {
            String::from_str("No rights")
        } else {
            buf
        }
    }
}

} // verus!
