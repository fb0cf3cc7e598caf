use vstd::prelude::*;

use crate::account::{initialize_tip_account, TipAccount};
use crate::address::{derive_tip_address, program_address, tip_seeds};
use crate::error::TipError;
use crate::sanitize::{is_accepted_char, sanitize_message, sanitized};
use crate::validate::{validate_inputs, validated};

verus! {

/// The parties of a tip request and the record slot they point to.
#[derive(Clone, Copy, Debug)]
pub struct SendTip {
    /// The payer, who signs the request.
    pub sender: [u8; 32],
    /// The credited party.
    pub recipient: [u8; 32],
    /// The address of the new record, derived from the sender and the seed.
    pub tip_account: [u8; 32],
    /// The bump of that address.
    pub bump: u8,
}

impl SendTip {
    /// Binds a request to the record slot that `sender` and `seed` derive
    /// under `program_id`; `None` when no address can be derived.
    pub fn resolve(sender: [u8; 32], recipient: [u8; 32], seed: u64, program_id: &[u8; 32]) -> (r:
        Option<SendTip>)
        ensures
            match program_address(tip_seeds(sender@, seed), program_id@) {
                Some((a, b)) => r matches Some(t) && t.sender == sender && t.recipient == recipient
                    && t.tip_account@ == a && t.bump == b,
                None => r is None,
            },
    {
        match derive_tip_address(&sender, seed, program_id) {
            Some((tip_account, bump)) => Some(SendTip { sender, recipient, tip_account, bump }),
            None => None,
        }
    }
}

/// Where a tip request stands. A request goes from `Validated` to
/// `Transferred` to `Complete`, and may stop in `Failed` from any of the
/// first two.
#[derive(Debug)]
pub enum TipState {
    /// Sanitized and validated: the transfer is due.
    Validated { record: TipAccount, address: [u8; 32] },
    /// The funds moved: the record is due to be written at `address`.
    Transferred { record: TipAccount, address: [u8; 32] },
    /// The record is written at `address`.
    Complete { record: TipAccount, address: [u8; 32] },
    /// Stopped for good.
    Failed(TipError),
}

impl TipState {
    /// The transfer that the request asks for now, as (payer, payee, amount).
    pub open spec fn transfer_due(&self) -> Option<([u8; 32], [u8; 32], u64)> {
        match self {
            TipState::Validated { record, .. } => Some((record.sender, record.recipient, record.amount)),
            _ => None,
        }
    }

    /// The transfer to perform before the request can go on, if any.
    pub fn pending_transfer(&self) -> (r: Option<([u8; 32], [u8; 32], u64)>)
        ensures
            r == self.transfer_due(),
    {
        match self {
            TipState::Validated { record, .. } => Some((record.sender, record.recipient, record.amount)),
            _ => None,
        }
    }

    /// Moves on once the transfer has been attempted: on success the record
    /// is due, on failure the request stops with the transfer's reason. Any
    /// other state is left as it is.
    pub fn on_transfer(self, outcome: Result<(), TipError>) -> (r: TipState)
        ensures
            match self {
                TipState::Validated { record, address } => match outcome {
                    Ok(()) => r == (TipState::Transferred { record, address }),
                    Err(e) => r == TipState::Failed(e),
                },
                _ => r == self,
            },
    {
        match self {
            TipState::Validated { record, address } => match outcome {
                Ok(()) => TipState::Transferred { record, address },
                Err(e) => TipState::Failed(e),
            },
            other => other,
        }
    }

    /// Moves on once the record's slot has been checked: a free slot takes
    /// the record, a taken one stops the request. Any other state is left as
    /// it is.
    pub fn on_persist(self, slot_taken: bool) -> (r: TipState)
        ensures
            match self {
                TipState::Transferred { record, address } => if slot_taken {
                    r == TipState::Failed(TipError::AlreadyExists)
                } else {
                    r == (TipState::Complete { record, address })
                },
                _ => r == self,
            },
    {
        match self {
            TipState::Transferred { record, address } => if slot_taken {
                TipState::Failed(TipError::AlreadyExists)
            } else {
                TipState::Complete { record, address }
            },
            other => other,
        }
    }
}

/// Sanitizes the message and validates the request; on success the transfer
/// of `amount` from the sender to the recipient is due, then the record
/// with the sanitized message and `timestamp`.
pub fn send_tip(accounts: &SendTip, amount: u64, message: String, timestamp: i64) -> (r: TipState)
    ensures
        match sanitized(message@) {
            Err(e) => r == TipState::Failed(e),
            Ok(t) => match validated(amount, t) {
                Err(e) => r == TipState::Failed(e),
                Ok(()) => r matches TipState::Validated { record, address } && address
                    == accounts.tip_account && record.holds(
                    accounts.sender,
                    accounts.recipient,
                    amount,
                    t,
                    timestamp,
                    accounts.bump,
                ),
            },
        },
        (exists|i: int| 0 <= i < message@.len() && !is_accepted_char(#[trigger] message@[i]))
            ==> r == TipState::Failed(TipError::InvalidCharacters),
        amount == 0 ==> r is Failed,
        r is Failed ==> r.transfer_due() is None,
{
    let sanitized_message = match sanitize_message(message) {
        Ok(m) => m,
        Err(e) => return TipState::Failed(e),
    };
    match validate_inputs(amount, sanitized_message.as_str()) {
        Ok(()) => {},
        Err(e) => return TipState::Failed(e),
    }
    let record = initialize_tip_account(
        accounts.sender,
        accounts.recipient,
        amount,
        sanitized_message,
        timestamp,
        accounts.bump,
    );
    TipState::Validated { record, address: accounts.tip_account }
}

} // verus!
