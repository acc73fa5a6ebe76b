//! The ways in which a call on the ledger can fail.
use vstd::prelude::*;

verus! {

/// Why a call was refused. A refused call leaves the ledger as it was.
#[derive(Clone, Copy, Debug, PartialEq, Eq, Structural)]
pub enum ContractError {
    /// The collection has not been added to the ledger.
    UnknownCollection,
    /// The caller is not entitled to the operation.
    Unauthorized,
    /// The portions of a member list do not add up to exactly one.
    WrongPortionSum,
    /// An address was rejected by the host's syntax check.
    InvalidAddress,
    /// The record asked for does not exist.
    NotFound,
    /// The payment came on another rail than the one the offering is priced on.
    WrongPaymentRail,
    /// The payment does not cover the listed price as its rail demands.
    InsufficientPayment,
}

} // verus!
