use vstd::prelude::*;

verus! {

/// Every way in which provisioning a record can fail.
#[derive(Clone, Copy, Debug, PartialEq, Eq, Structural)]
pub enum VotingError {
    /// A text field is longer than its schema allows.
    ValidationError,
    /// A record already exists at the derived address.
    AddressAlreadyOccupied,
    /// The poll that a candidate refers to does not exist.
    PollNotFound,
    /// The payer cannot cover the cost of the new record.
    InsufficientFunds,
    /// No bump seed yields an address off the curve.
    DerivationExhausted,
}

} // verus!
