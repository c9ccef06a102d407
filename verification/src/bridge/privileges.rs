//! Whether the bridge has given up the rights of root.

use vstd::prelude::*;

verus! {

/// The user and the group of an account or of a process.
#[derive(Clone, Copy, Debug, Eq, PartialEq, Structural)]
pub struct Identity {
    pub user: u32,
    pub group: u32,
}

/// Whether a process has rights to give up.
pub fn holds_root(effective: &Identity) -> (r: bool)
    ensures
        r == (effective.user == 0),
{
    effective.user == 0
}

/// Whether a process runs as an account, which is not that of root.
pub fn reached_account(effective: &Identity, account: &Identity) -> (r: bool)
    ensures
        r == (*effective == *account && account.user != 0),
{
    !holds_root(effective) && effective.user == account.user && effective.group == account.group
}

} // verus!
