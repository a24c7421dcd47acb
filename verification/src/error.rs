//! The ways an operation on the ledger can fail.

use vstd::prelude::*;

verus! {

/// Why an operation was refused. A refused operation leaves the ledger as it
/// was and asks for no transfer.
#[derive(Debug, Clone, Copy, PartialEq, Eq, Structural)]
pub enum ContractError {
    /// The caller does not hold the role that the operation asks for.
    Unauthorized,
    /// A seller tried to buy their own offering.
    InvalidBuyer,
    /// A seller tried to rent their own offering.
    InvalidRenter,
    /// The attached payment is below the price, or in another denomination.
    InsufficientFunds,
    /// The rental has not yet reached its end time.
    RentalNotExpired,
    /// No rental is stored under the id: it never existed or has been concluded.
    RentalNotFound,
    /// No offering is stored under the id.
    NotFound,
    /// An amount, a counter or a time left the range of its type.
    Overflow,
    /// A deposit of no units of the asset cannot be listed.
    InvalidAmount,
    /// An offering cannot be listed at a price of zero.
    InvalidPrice,
    /// A rental must last at least one unit of time.
    InvalidDuration,
    /// A rental is stored under an id that is no decimal number.
    InvalidId,
    /// The instruction for the asset custodian could not be encoded.
    Encoding,
}

} // verus!
