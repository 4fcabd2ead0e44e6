use vstd::prelude::*;

verus! {

/// Why a request cannot be fulfilled although the token exists.
#[derive(Debug, Clone, Copy, PartialEq, Eq, Structural)]
pub enum Precondition {
    /// The token was minted without metadata, so there is no output field.
    MissingMetadata,
    /// The output was written before; it is never overwritten.
    OutputAlreadySet,
}

/// The errors of every operation of the contract.
#[derive(Debug, Clone, Copy, PartialEq, Eq, Structural)]
pub enum ContractError {
    /// The host refused an address.
    InvalidAddress,
    /// A token already exists under the id that a mint would use.
    Claimed,
    /// The caller is not the administrator.
    Unauthorized,
    /// A record that the operation needs is missing.
    NotFound,
    /// The token cannot take an output.
    PreconditionFailed(Precondition),
    /// The operation has no implementation yet.
    NotSupported,
    /// The configuration is written once, and it was written before.
    AlreadyInstantiated,
    /// The token count is at its largest value; no further token can be minted.
    TokenCountOverflow,
}

impl ContractError {
    /// A short human-readable description of the error.
    pub fn message(&self) -> (r: String)
        ensures
            r@ == self.message_spec(),
    {
        match self {
            ContractError::InvalidAddress => String::from_str("invalid address"),
            ContractError::Claimed => String::from_str("token_id already claimed"),
            ContractError::Unauthorized => String::from_str("caller is not the contract's owner"),
            ContractError::NotFound => String::from_str("not found"),
            ContractError::PreconditionFailed(Precondition::MissingMetadata) => String::from_str(
                "missing metadata",
            ),
            ContractError::PreconditionFailed(Precondition::OutputAlreadySet) => String::from_str(
                "output already set",
            ),
            ContractError::NotSupported => String::from_str("not yet supported"),
            ContractError::AlreadyInstantiated => String::from_str("already instantiated"),
            ContractError::TokenCountOverflow => String::from_str("token count overflow"),
        }
    }

    pub open spec fn message_spec(&self) -> Seq<char> {
        match self {
            ContractError::InvalidAddress => "invalid address"@,
            ContractError::Claimed => "token_id already claimed"@,
            ContractError::Unauthorized => "caller is not the contract's owner"@,
            ContractError::NotFound => "not found"@,
            ContractError::PreconditionFailed(Precondition::MissingMetadata) => "missing metadata"@,
            ContractError::PreconditionFailed(Precondition::OutputAlreadySet) => "output already set"@,
            ContractError::NotSupported => "not yet supported"@,
            ContractError::AlreadyInstantiated => "already instantiated"@,
            ContractError::TokenCountOverflow => "token count overflow"@,
        }
    }
}

} // verus!
