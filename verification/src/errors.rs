use vstd::prelude::*;

verus! {

/// Why an operation on the curve or the pool ledger was rejected.
#[derive(Clone, Copy, Debug, PartialEq, Eq, Structural)]
pub enum CustomError {
    /// The requested quantity is zero.
    InvalidAmount,
    /// A token balance, the reserve, or the payout coverage is too small.
    InsufficientFunds,
    /// A checked arithmetic step left the range of its type.
    Overflow,
    /// The fee percentage lies above one hundred.
    InvalidFee,
    /// The payer cannot cover the creation fee on top of the rent minimum.
    InsufficientPayment,
}

} // verus!
