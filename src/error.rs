use vstd::prelude::*;

verus! {

/// Why a tip request was refused.
#[derive(Clone, Copy, Debug, PartialEq, Eq, Structural)]
pub enum TipError {
    /// The amount is zero.
    InvalidAmount,
    /// The sanitized message is over the storage capacity.
    MessageTooLong,
    /// The message holds a character outside the accepted sets.
    InvalidCharacters,
    /// The transfer primitive reported that the payer cannot cover the amount.
    InsufficientFunds,
    /// The record's storage slot for this (sender, seed) pair is already taken.
    AlreadyExists,
}

impl TipError {
    /// The text reported to the caller.
    pub fn message(&self) -> (r: &'static str)
        ensures
            *self == TipError::InvalidAmount ==> r@ == "Tip amount must be greater than 0"@,
            *self == TipError::MessageTooLong ==> r@ == "Message cannot exceed 280 characters"@,
            *self == TipError::InvalidCharacters ==> r@ == "Message contains invalid characters"@,
            *self == TipError::InsufficientFunds ==> r@ == "Insufficient SOL balance for this tip"@,
            *self == TipError::AlreadyExists ==> r@ == "A tip record already exists for this seed"@,
    {
        match self {
            TipError::InvalidAmount => "Tip amount must be greater than 0",
            TipError::MessageTooLong => "Message cannot exceed 280 characters",
            TipError::InvalidCharacters => "Message contains invalid characters",
            TipError::InsufficientFunds => "Insufficient SOL balance for this tip",
            TipError::AlreadyExists => "A tip record already exists for this seed",
        }
    }
}

} // verus!
