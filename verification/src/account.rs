//! Identities of the parties and components that take part in the protocol.

use vstd::prelude::*;

verus! {

/// The identity of an account or of a deployed component: what kind of
/// address it is, and the 256 bits of its key.
///
/// Two identities denote the same party exactly when kind and key are equal.
#[derive(Clone, Copy, Debug, PartialEq, Eq, Structural)]
pub struct AccountId {
    /// The kind of address: an account, a contract, and so on.
    pub kind: u32,
    /// The upper half of the key.
    pub high: u128,
    /// The lower half of the key.
    pub low: u128,
}

impl AccountId {
    /// The identity of the given kind and key.
    pub fn new(kind: u32, high: u128, low: u128) -> (account: AccountId)
        ensures
            account == (AccountId { kind, high, low }),
    {
        AccountId { kind, high, low }
    }
}

} // verus!
