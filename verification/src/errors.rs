use vstd::prelude::*;

verus! {

/// Why an operation on the ledger was refused. Every failure is terminal for
/// the operation that raised it: the operation returns the error and leaves
/// the ledger exactly as it was.
#[derive(Clone, Copy, Debug, PartialEq, Eq, Structural)]
pub enum Error {
    /// `initialize` was called on a ledger that already has an administrator.
    AlreadyInitialized,
    /// An administrator-gated operation ran before `initialize`.
    NotInitialized,
    /// The named property id has never been registered.
    NotFound,
    /// `verify_property` was called on a property that is already verified.
    AlreadyVerified,
    /// Shares of an unverified property cannot be purchased.
    NotVerified,
    /// The caller is not the designated administrator.
    NotAuthorized,
    /// The sender has no ownership record for the property.
    NoBalance,
    /// The sender's balance is smaller than the amount to transfer.
    InsufficientShares,
}

} // verus!
