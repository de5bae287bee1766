//! Per-user metadata: the rights mask a relay account holds, with the
//! operations that grant, reject, replace and test capability bits.

use vstd::prelude::*;
use vstd::string::StringExecFns;

use crate::rights_flags::{CREATE_SERVER, SELECT_PORT};

verus! {

pub struct UserMeta {
    pub rights: u8,
}

/// The readable form of a user rights mask with at least one bit set.
pub open spec fn spec_rights_string(rights: u8) -> Seq<char> {
    if (rights & CREATE_SERVER) != 0 && (rights & SELECT_PORT) != 0 {
        "CREATE_SERVER | SELECT_PORT"@
    } else if (rights & CREATE_SERVER) != 0 {
        "CREATE_SERVER"@
    } else {
        "SELECT_PORT"@
    }
}

impl UserMeta {
    /// The names of the set bits of `rights`, joined by a separator.
    pub fn rights_to_string(rights: u8) -> (r: String)
        requires
            (rights & (CREATE_SERVER | SELECT_PORT)) != 0,
        ensures
            r@ == spec_rights_string(rights),
    {
        proof {
            assert((rights & (1u8 | 2u8)) != 0 ==> ((rights & 1u8) != 0 || (rights & 2u8)
                != 0)) by (bit_vector);
        }
        let create = (rights & CREATE_SERVER) != 0;
        let select = (rights & SELECT_PORT) != 0;
        if create && select {
            String::from_str("CREATE_SERVER | SELECT_PORT")
        } else if create {
            String::from_str("CREATE_SERVER")
        } else {
            String::from_str("SELECT_PORT")
        }
    }

    /// Replaces the whole mask with `flags`.
    pub fn replace_rights(&mut self, flags: u8) -> (r: u8)
        ensures
            final(self).rights == flags,
            r == flags,
    {
        self.rights = flags;
        flags
    }

    /// Clears the bits of `flags` from the mask.
    pub fn reject_rights(&mut self, flags: u8) -> (r: u8)
        ensures
            final(self).rights == (old(self).rights & !flags),
            r == final(self).rights,
    {
        self.rights = self.rights & !flags;
        self.rights
    }

    /// Sets the bits of `flags` in the mask.
    pub fn grant_rights(&mut self, flags: u8) -> (r: u8)
        ensures
            final(self).rights == (old(self).rights | flags),
            r == final(self).rights,
    {
        self.rights = self.rights | flags;
        self.rights
    }

    /// Whether every bit of `flags` is set in the mask.
    pub fn has_rights(&self, flags: u8) -> (r: bool)
        ensures
            r == ((self.rights & flags) == flags),
    {
        (self.rights & flags) == flags
    }

    pub fn new(rights: u8) -> (r: Self)
        ensures
            r.rights == rights,
    {
        Self { rights }
    }
}

} // verus!
