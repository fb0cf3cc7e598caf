use vstd::prelude::*;
use vstd::utf8::{encode_scalar, encode_utf8};

use crate::error::TipError;

verus! {

/// The most bytes a stored message may take.
pub const MAX_MESSAGE_LENGTH: usize = 280;

/// The length of a message, in the unit that the record's storage reserves
/// for it: UTF-8 bytes.
pub open spec fn message_len(m: Seq<char>) -> nat {
    encode_utf8(m).len()
}

/// What validating an amount and a sanitized message yields.
pub open spec fn validated(amount: u64, message: Seq<char>) -> Result<(), TipError> {
    if amount == 0 {
        Err(TipError::InvalidAmount)
    } else if message.len() > 0 && message_len(message) > MAX_MESSAGE_LENGTH {
        Err(TipError::MessageTooLong)
    } else {
        Ok(())
    }
}

/// Rejects a zero amount, then a non-empty message longer than the capacity.
pub fn validate_inputs(amount: u64, message: &str) -> (r: Result<(), TipError>)
    ensures
        r == validated(amount, message@),
        amount == 0 ==> r == Err::<(), TipError>(TipError::InvalidAmount),
{
    if amount == 0 {
        return Err(TipError::InvalidAmount);
    }
    if !message.is_empty() {
        if message.as_bytes().len() > MAX_MESSAGE_LENGTH {
            return Err(TipError::MessageTooLong);
        }
    }
    Ok(())
}

/// A message takes at least one byte per character.
pub proof fn lemma_message_len_at_least_chars(m: Seq<char>)
    ensures
        message_len(m) >= m.len(),
    decreases m.len(),
{
    if m.len() > 0 {
        lemma_message_len_at_least_chars(m.drop_first());
        assert(encode_scalar(m[0] as u32).len() >= 1);
    }
}

/// With a non-zero amount, a message of more than the maximum number of
/// characters is rejected as too long.
pub proof fn lemma_long_message_rejected(amount: u64, message: Seq<char>)
    requires
        amount > 0,
        message.len() > MAX_MESSAGE_LENGTH,
    ensures
        validated(amount, message) == Err::<(), TipError>(TipError::MessageTooLong),
{
    lemma_message_len_at_least_chars(message);
}

} // verus!
