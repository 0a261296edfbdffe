//! The ways in which an operation of the protocol can be refused.

use vstd::prelude::*;

verus! {

/// Why an operation was refused. A refused operation changes nothing.
#[derive(Clone, Copy, Debug, PartialEq, Eq, Structural)]
pub enum Error {
    /// An amount was not positive, or was negative where zero is allowed.
    InvalidAmount,
    /// A lender asked for more than their principal.
    InsufficientBalance,
    /// The pool does not hold enough unlent funds.
    InsufficientLiquidity,
    /// A borrow would lend out more of the pool than its cap allows.
    MaxUtilizationExceeded,
    /// The caller is not the registered peer for this entry point.
    Unauthorized,
    /// The loan or request is not in the state that the operation needs.
    InvalidState,
    /// No record exists under the given key.
    NotFound,
    /// The collateral is not owned by the borrower.
    OwnershipMismatch,
    /// The component was initialized before.
    AlreadyInitialized,
    /// The collateral is locked in a loan already.
    AlreadyStaked,
    /// The collateral is not locked in any loan.
    NotStaked,
}

} // verus!
