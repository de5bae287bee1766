//! The per-user capability mask the relay stores for each account: whether
//! the account may create a server, and whether it may pick the port.

use vstd::prelude::*;

verus! {

pub const CREATE_SERVER: u8 = 1;
pub const SELECT_PORT: u8 = 2;

/// The mask with every capability set.
pub fn all() -> (r: u8)
    ensures
        r == (CREATE_SERVER | SELECT_PORT),
{
    CREATE_SERVER | SELECT_PORT
}

} // verus!
