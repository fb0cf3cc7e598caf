//! Core of a value-transfer program that records a public, sanitized note
//! beside each transfer: message sanitization, input validation, the record
//! and its storage layout, address derivation, and the request state machine.

mod account;
mod address;
mod error;
mod sanitize;
mod tip;
mod validate;

pub use error::TipError;
pub use sanitize::{collapse_whitespace, is_allowed_character, is_problematic_character, sanitize_message};
pub use validate::{validate_inputs, MAX_MESSAGE_LENGTH};
pub use address::derive_tip_address;
pub use account::{initialize_tip_account, TipAccount};
pub use tip::{send_tip, SendTip, TipState};
