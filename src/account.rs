use vstd::prelude::*;

use vstd::utf8::encode_utf8;

use crate::address::{le_bytes, le_bytes_of};
use crate::error::TipError;
use crate::validate::MAX_MESSAGE_LENGTH;

verus! {

pub const DISCRIMINATOR_LENGTH: usize = 8;

pub const PUBKEY_LENGTH: usize = 32;

pub const U64_LENGTH: usize = 8;

pub const I64_LENGTH: usize = 8;

pub const U8_LENGTH: usize = 1;

pub const STRING_LENGTH_PREFIX: usize = 4;

/// The persisted record of one tip. It is written once and never changed.
#[derive(Debug)]
pub struct TipAccount {
    /// The payer that authorized the transfer.
    pub sender: [u8; 32],
    /// The credited party.
    pub recipient: [u8; 32],
    /// The amount moved, in the ledger's smallest unit.
    pub amount: u64,
    /// The sanitized note.
    pub message: String,
    /// Seconds since the epoch, from the environment's clock at creation.
    pub timestamp: i64,
    /// The bump of the record's derived address.
    pub bump: u8,
}

impl TipAccount {
    /// Bytes reserved for a record, whatever the length of its message.
    pub const SPACE: usize = DISCRIMINATOR_LENGTH + PUBKEY_LENGTH + PUBKEY_LENGTH + U64_LENGTH
        + STRING_LENGTH_PREFIX + MAX_MESSAGE_LENGTH + I64_LENGTH + U8_LENGTH;

    /// Whether the record holds exactly these values.
    pub open spec fn holds(
        &self,
        sender: [u8; 32],
        recipient: [u8; 32],
        amount: u64,
        message: Seq<char>,
        timestamp: i64,
        bump: u8,
    ) -> bool {
        &&& self.sender == sender
        &&& self.recipient == recipient
        &&& self.amount == amount
        &&& self.message@ == message
        &&& self.timestamp == timestamp
        &&& self.bump == bump
    }
}

/// Fills a new record with the values of one completed tip.
pub fn initialize_tip_account(
    sender: [u8; 32],
    recipient: [u8; 32],
    amount: u64,
    message: String,
    timestamp: i64,
    bump: u8,
) -> (r: TipAccount)
    ensures
        r.holds(sender, recipient, amount, message@, timestamp, bump),
{
    TipAccount { sender, recipient, amount, message, timestamp, bump }
}

/// The stored bytes of `record` under the account discriminator: the
/// discriminator, both identifiers, the amount, the message's byte length
/// and bytes, the timestamp and the bump, packed in that order and padded
/// with zeros to the fixed capacity.
pub open spec fn record_bytes(record: TipAccount, discriminator: Seq<u8>) -> Seq<u8> {
    let m = encode_utf8(record.message@);
    let packed = discriminator + record.sender@ + record.recipient@ + le_bytes(record.amount, 8)
        + le_bytes(m.len() as u64, 4) + m + le_bytes(record.timestamp as u64, 8) + seq![record.bump];
    packed + Seq::new((TipAccount::SPACE - packed.len()) as nat, |i: int| 0u8)
}

fn append_bytes(out: &mut Vec<u8>, b: &[u8])
    ensures
        final(out)@ == old(out)@ + b@,
{
    let ghost start = out@;
    for i in 0..b.len()
        invariant
            out@ == start + b@.take(i as int),
    {
        out.push(b[i]);
        assert(out@ =~= start + b@.take(i + 1));
    }
    assert(b@.take(b@.len() as int) =~= b@);
}

impl TipAccount {
    /// The record as stored: `record_bytes`, exactly `SPACE` bytes long.
    /// A message over the capacity cannot be stored.
    pub fn to_bytes(&self, discriminator: &[u8; 8]) -> (r: Result<Vec<u8>, TipError>)
        ensures
            encode_utf8(self.message@).len() > MAX_MESSAGE_LENGTH ==> r == Err::<Vec<u8>, TipError>(
                TipError::MessageTooLong,
            ),
            encode_utf8(self.message@).len() <= MAX_MESSAGE_LENGTH ==> (r matches Ok(b) && b@
                == record_bytes(*self, discriminator@) && b@.len() == TipAccount::SPACE),
    {
        let m = self.message.as_str().as_bytes();
        if m.len() > MAX_MESSAGE_LENGTH {
            return Err(TipError::MessageTooLong);
        }
        let mut out: Vec<u8> = Vec::new();
        append_bytes(&mut out, discriminator.as_slice());
        append_bytes(&mut out, self.sender.as_slice());
        append_bytes(&mut out, self.recipient.as_slice());
        append_bytes(&mut out, le_bytes_of(self.amount, 8).as_slice());
        append_bytes(&mut out, le_bytes_of(m.len() as u64, 4).as_slice());
        append_bytes(&mut out, m);
        append_bytes(&mut out, le_bytes_of(self.timestamp as u64, 8).as_slice());
        out.push(self.bump);
        let ghost packed = out@;
        assert(packed.len() == 8 + 32 + 32 + 8 + 4 + m@.len() + 8 + 1);
        while out.len() < TipAccount::SPACE
            invariant
                packed.len() <= out@.len() <= TipAccount::SPACE,
                out@ == packed + Seq::new((out@.len() - packed.len()) as nat, |i: int| 0u8),
            decreases TipAccount::SPACE - out@.len(),
        {
            out.push(0u8);
            assert(out@ =~= packed + Seq::new((out@.len() - packed.len()) as nat, |i: int| 0u8));
        }
        proof {
            let expected = discriminator@ + self.sender@ + self.recipient@ + le_bytes(self.amount, 8)
                + le_bytes(m@.len() as u64, 4) + m@ + le_bytes(self.timestamp as u64, 8) + seq![self.bump];
            assert(packed =~= expected);
        }
        Ok(out)
    }
}

} // verus!
