//! The ways in which a request can be turned down.

use vstd::prelude::*;

verus! {

/// Why a request was rejected. Every rejection is final for the request that
/// caused it and leaves the ledger exactly as it was.
#[derive(Clone, Copy, Debug, PartialEq, Eq, Structural)]
pub enum ErrorCode {
    /// The seeds of the address are longer than the derivation accepts, or no
    /// address exists for them.
    AddressDerivationError,
    /// A record already occupies the derived address.
    DuplicateAddress,
    /// The caller cannot pay for the storage the record needs.
    InsufficientFunds,
    /// No live record exists at the derived address.
    RecordNotFound,
    /// A record exists at the derived address but the caller did not create it.
    UnauthorizedDeletion,
}

impl ErrorCode {
    /// The text shown for this rejection.
    pub open spec fn message_spec(self) -> Seq<char> {
        match self {
            ErrorCode::AddressDerivationError => "No address can be derived for this wish"@,
            ErrorCode::DuplicateAddress => "This wish is already on the wall"@,
            ErrorCode::InsufficientFunds => "Not enough funds to store the wish"@,
            ErrorCode::RecordNotFound => "No such wish is on the wall"@,
            ErrorCode::UnauthorizedDeletion => "Only the wish creator can delete it"@,
        }
    }

    /// The text to show for this rejection.
    pub fn message(&self) -> (text: &'static str)
        ensures
            text@ == self.message_spec(),
    {
        match self {
            ErrorCode::AddressDerivationError => "No address can be derived for this wish",
            ErrorCode::DuplicateAddress => "This wish is already on the wall",
            ErrorCode::InsufficientFunds => "Not enough funds to store the wish",
            ErrorCode::RecordNotFound => "No such wish is on the wall",
            ErrorCode::UnauthorizedDeletion => "Only the wish creator can delete it",
        }
    }
}

} // verus!
