use vstd::prelude::*;

verus! {

/// Why an operation was rejected. A rejected operation leaves the state it
/// was applied to exactly as it found it.
#[derive(Clone, Copy, Debug, PartialEq, Eq, Structural)]
pub enum Error {
    /// An amount below zero was given.
    NegativeAmount,
    /// The owner holds less than the amount to be debited.
    InsufficientBalance,
    /// The delegate's live allowance is below the amount, be it spent or expired.
    InsufficientAllowance,
    /// The identity that has to consent to the operation did not.
    Unauthorized,
    /// The ledger already has an administrator.
    AlreadyInitialized,
    /// The ledger's metadata has not been set.
    NotInitialized,
    /// The number of decimals does not fit in eight bits.
    InvalidDecimals,
    /// A credit would take a balance past the largest representable amount.
    BalanceOverflow,
    /// The factory's target identity is already occupied.
    IdentityCollision,
    /// The initializer that the factory invoked failed.
    InitializerFailed,
}

} // verus!
