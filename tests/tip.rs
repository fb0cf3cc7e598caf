use std::collections::HashSet;

use tip_project::{
    collapse_whitespace, derive_tip_address, initialize_tip_account, is_allowed_character,
    is_problematic_character, sanitize_message, send_tip, validate_inputs, SendTip, TipAccount,
    TipError, TipState, MAX_MESSAGE_LENGTH,
};

const PROGRAM_ID: [u8; 32] = [7u8; 32];
const ALICE: [u8; 32] = [1u8; 32];
const BOB: [u8; 32] = [2u8; 32];

fn accounts(seed: u64) -> SendTip {
    SendTip::resolve(ALICE, BOB, seed, &PROGRAM_ID).expect("an address is derived")
}

/// Runs a request to its end against a ledger of balances and a set of
/// occupied record slots, as the execution environment would.
fn run(
    accounts: &SendTip,
    amount: u64,
    message: &str,
    balances: &mut [u64; 2],
    slots: &mut HashSet<[u8; 32]>,
) -> TipState {
    let mut state = send_tip(accounts, amount, message.to_string(), 1_700_000_000);
    if let Some((_, _, amt)) = state.pending_transfer() {
        let outcome = if balances[0] >= amt {
            balances[0] -= amt;
            balances[1] += amt;
            Ok(())
        } else {
            Err(TipError::InsufficientFunds)
        };
        state = state.on_transfer(outcome);
    }
    if let TipState::Transferred { address, .. } = &state {
        let taken = slots.contains(address);
        let address = *address;
        state = state.on_persist(taken);
        if matches!(state, TipState::Complete { .. }) {
            slots.insert(address);
        } else {
            // the environment rolls the whole request back
            balances[0] += amount;
            balances[1] -= amount;
        }
    }
    state
}

#[test]
fn scenario_zero_amount_rejected() {
    let mut balances = [1000u64, 0u64];
    let mut slots = HashSet::new();
    let state = run(&accounts(1), 0, "hi", &mut balances, &mut slots);
    assert!(matches!(state, TipState::Failed(TipError::InvalidAmount)));
    assert_eq!(balances, [1000, 0]);
}

#[test]
fn scenario_emoji_rejected() {
    let mut balances = [1000u64, 0u64];
    let mut slots = HashSet::new();
    let state = run(&accounts(1), 100, "Gracias\tpor\ttodo! 😊", &mut balances, &mut slots);
    assert!(matches!(state, TipState::Failed(TipError::InvalidCharacters)));
    assert_eq!(balances, [1000, 0]);
    assert!(slots.is_empty());
}

#[test]
fn scenario_great_job_persisted() {
    let mut balances = [1000u64, 0u64];
    let mut slots = HashSet::new();
    let acc = accounts(1);
    let state = run(&acc, 100, "  great   job!!  ", &mut balances, &mut slots);
    match state {
        TipState::Complete { record, address } => {
            assert_eq!(record.message, "great job!!");
            assert_eq!(record.amount, 100);
            assert_eq!(record.sender, ALICE);
            assert_eq!(record.recipient, BOB);
            assert_eq!(record.timestamp, 1_700_000_000);
            assert_eq!(record.bump, acc.bump);
            assert_eq!(address, acc.tip_account);
        }
        _ => panic!("the request should complete"),
    }
    assert_eq!(balances, [900, 100]);
    assert_eq!(slots.len(), 1);
}

#[test]
fn scenario_insufficient_funds() {
    let mut balances = [10u64, 0u64];
    let mut slots = HashSet::new();
    let state = run(&accounts(1), 50, "", &mut balances, &mut slots);
    assert!(matches!(state, TipState::Failed(TipError::InsufficientFunds)));
    assert_eq!(balances, [10, 0]);
    assert!(slots.is_empty());
}

#[test]
fn scenario_same_seed_twice() {
    let mut balances = [1000u64, 0u64];
    let mut slots = HashSet::new();
    let first = run(&accounts(42), 10, "one", &mut balances, &mut slots);
    assert!(matches!(first, TipState::Complete { .. }));
    let second = run(&accounts(42), 10, "two", &mut balances, &mut slots);
    assert!(matches!(second, TipState::Failed(TipError::AlreadyExists)));
    assert_eq!(balances, [990, 10]);
    let third = run(&accounts(43), 10, "three", &mut balances, &mut slots);
    assert!(matches!(third, TipState::Complete { .. }));
}

#[test]
fn validated_state_asks_for_transfer() {
    let state = send_tip(&accounts(3), 5, "thanks".to_string(), 9);
    assert_eq!(state.pending_transfer(), Some((ALICE, BOB, 5)));
    let failed = send_tip(&accounts(3), 0, "thanks".to_string(), 9);
    assert_eq!(failed.pending_transfer(), None);
}

#[test]
fn transitions_ignore_out_of_order_events() {
    let state = send_tip(&accounts(3), 5, "ok".to_string(), 9);
    let state = state.on_persist(false);
    assert!(matches!(state, TipState::Validated { .. }));
    let state = state.on_transfer(Ok(()));
    assert!(matches!(state, TipState::Transferred { .. }));
    let state = state.on_transfer(Err(TipError::InsufficientFunds));
    assert!(matches!(state, TipState::Transferred { .. }));
    let state = state.on_persist(false);
    assert!(matches!(state, TipState::Complete { .. }));
    let state = state.on_persist(true);
    assert!(matches!(state, TipState::Complete { .. }));
}

#[test]
fn sanitize_empty_is_empty() {
    assert_eq!(sanitize_message(String::new()), Ok(String::new()));
}

#[test]
fn sanitize_collapses_and_trims() {
    assert_eq!(sanitize_message("  great   job!!  ".to_string()), Ok("great job!!".to_string()));
}

#[test]
fn sanitize_tab_then_space_is_one_space() {
    assert_eq!(sanitize_message("a\t b".to_string()), Ok("a b".to_string()));
}

#[test]
fn sanitize_replaces_problematic_characters() {
    let raw = "x\u{200B}y\u{200C}z\u{200D}w\u{FEFF}v\r\nu";
    assert_eq!(sanitize_message(raw.to_string()), Ok("x y z w v u".to_string()));
}

#[test]
fn sanitize_keeps_accented_letters_and_symbols() {
    let raw = "¡".to_string();
    assert_eq!(sanitize_message(raw), Err(TipError::InvalidCharacters));
    let raw = "Ñandú ÿ {ok} <a|b> 50% #1 @you ~`\\/".to_string();
    assert_eq!(sanitize_message(raw.clone()), Ok(raw));
}

#[test]
fn sanitize_only_whitespace_is_empty() {
    assert_eq!(sanitize_message(" \t\n\r\u{200B} ".to_string()), Ok(String::new()));
}

#[test]
fn sanitize_rejects_outside_characters() {
    assert_eq!(sanitize_message("hola\u{0007}".to_string()), Err(TipError::InvalidCharacters));
    assert_eq!(sanitize_message("日本".to_string()), Err(TipError::InvalidCharacters));
    assert_eq!(sanitize_message("a\u{00A0}b".to_string()), Err(TipError::InvalidCharacters));
}

#[test]
fn sanitized_output_is_never_longer_and_clean() {
    let raw = "\t\tHi\n\nthere \u{FEFF} friend\r";
    let out = sanitize_message(raw.to_string()).unwrap();
    assert_eq!(out, "Hi there friend");
    assert!(out.chars().count() <= raw.chars().count());
    assert!(!out.contains(['\t', '\n', '\r', '\u{200B}', '\u{200C}', '\u{200D}', '\u{FEFF}']));
}

#[test]
fn collapse_is_idempotent() {
    let once = collapse_whitespace("  a \u{3000}\u{2003} b\t\tc  ");
    assert_eq!(once, "a b c");
    assert_eq!(collapse_whitespace(&once), once);
}

#[test]
fn collapse_handles_unicode_whitespace() {
    assert_eq!(collapse_whitespace("\u{85}x\u{2028}\u{2029}y\u{A0}"), "x y");
    assert_eq!(collapse_whitespace("x\u{200B}y"), "x\u{200B}y");
    assert_eq!(collapse_whitespace(""), "");
    assert_eq!(collapse_whitespace("   "), "");
}

#[test]
fn character_classes() {
    assert!(is_allowed_character('a'));
    assert!(is_allowed_character('Z'));
    assert!(is_allowed_character('0'));
    assert!(is_allowed_character(' '));
    assert!(is_allowed_character('é'));
    assert!(is_allowed_character('Ö'));
    assert!(!is_allowed_character('\t'));
    assert!(!is_allowed_character('ç'));
    assert!(!is_allowed_character('^'));
    assert!(is_problematic_character('\t'));
    assert!(is_problematic_character('\u{FEFF}'));
    assert!(!is_problematic_character(' '));
    assert!(!is_problematic_character('😊'));
}

#[test]
fn validate_zero_amount() {
    assert_eq!(validate_inputs(0, "hi"), Err(TipError::InvalidAmount));
    assert_eq!(validate_inputs(0, ""), Err(TipError::InvalidAmount));
    let long = "a".repeat(500);
    assert_eq!(validate_inputs(0, &long), Err(TipError::InvalidAmount));
}

#[test]
fn validate_message_length_bounds() {
    assert_eq!(validate_inputs(1, ""), Ok(()));
    assert_eq!(validate_inputs(1, &"a".repeat(MAX_MESSAGE_LENGTH)), Ok(()));
    assert_eq!(validate_inputs(1, &"a".repeat(281)), Err(TipError::MessageTooLong));
    assert_eq!(validate_inputs(u64::MAX, &"b".repeat(1000)), Err(TipError::MessageTooLong));
}

#[test]
fn validate_counts_bytes_of_multibyte_letters() {
    let accented = "é".repeat(280);
    assert_eq!(accented.chars().count(), 280);
    assert_eq!(validate_inputs(1, &accented), Err(TipError::MessageTooLong));
    assert_eq!(validate_inputs(1, &"é".repeat(140)), Ok(()));
    assert_eq!(validate_inputs(1, &"é".repeat(141)), Err(TipError::MessageTooLong));
}

#[test]
fn long_sanitized_message_rejected() {
    let raw = format!("  {}  ", "word ".repeat(60));
    let clean = sanitize_message(raw).unwrap();
    assert_eq!(clean.chars().count(), 299);
    assert_eq!(validate_inputs(7, &clean), Err(TipError::MessageTooLong));
    let state = send_tip(&accounts(9), 7, "word ".repeat(60), 0);
    assert!(matches!(state, TipState::Failed(TipError::MessageTooLong)));
}

#[test]
fn address_is_deterministic_per_sender_and_seed() {
    let a = derive_tip_address(&ALICE, 5, &PROGRAM_ID).unwrap();
    let b = derive_tip_address(&ALICE, 5, &PROGRAM_ID).unwrap();
    assert_eq!(a, b);
    let c = derive_tip_address(&ALICE, 6, &PROGRAM_ID).unwrap();
    assert_ne!(a.0, c.0);
    let d = derive_tip_address(&BOB, 5, &PROGRAM_ID).unwrap();
    assert_ne!(a.0, d.0);
    assert_ne!(a.0, ALICE);
    assert_ne!(a.0, PROGRAM_ID);
}

#[test]
fn resolve_binds_the_derived_slot() {
    let acc = accounts(11);
    let (address, bump) = derive_tip_address(&ALICE, 11, &PROGRAM_ID).unwrap();
    assert_eq!(acc.tip_account, address);
    assert_eq!(acc.bump, bump);
    assert_eq!(acc.sender, ALICE);
    assert_eq!(acc.recipient, BOB);
}

#[test]
fn record_space_is_fixed() {
    assert_eq!(TipAccount::SPACE, 8 + 32 + 32 + 8 + 4 + 280 + 8 + 1);
    assert_eq!(TipAccount::SPACE, 373);
}

#[test]
fn record_holds_its_values() {
    let r = initialize_tip_account(ALICE, BOB, 3, "hey".to_string(), -5, 254);
    assert_eq!(r.sender, ALICE);
    assert_eq!(r.recipient, BOB);
    assert_eq!(r.amount, 3);
    assert_eq!(r.message, "hey");
    assert_eq!(r.timestamp, -5);
    assert_eq!(r.bump, 254);
}

#[test]
fn record_bytes_layout() {
    let r = initialize_tip_account(ALICE, BOB, 0x0102, "hé".to_string(), -2, 253);
    let disc = [9u8, 8, 7, 6, 5, 4, 3, 2];
    let b = r.to_bytes(&disc).unwrap();
    assert_eq!(b.len(), TipAccount::SPACE);
    assert_eq!(&b[0..8], &disc);
    assert_eq!(&b[8..40], &ALICE);
    assert_eq!(&b[40..72], &BOB);
    assert_eq!(&b[72..80], &[2, 1, 0, 0, 0, 0, 0, 0]);
    assert_eq!(&b[80..84], &[3, 0, 0, 0]);
    assert_eq!(&b[84..87], "hé".as_bytes());
    assert_eq!(&b[87..95], &(-2i64).to_le_bytes());
    assert_eq!(b[95], 253);
    assert!(b[96..].iter().all(|x| *x == 0));
}

#[test]
fn record_bytes_same_size_for_any_message() {
    let disc = [0u8; 8];
    let short = initialize_tip_account(ALICE, BOB, 1, "a".to_string(), 0, 1);
    let full = initialize_tip_account(ALICE, BOB, 1, "z".repeat(280), 0, 1);
    let a = short.to_bytes(&disc).unwrap();
    let b = full.to_bytes(&disc).unwrap();
    assert_eq!(a.len(), b.len());
    assert_eq!(b[b.len() - 1], 1);
    assert_eq!(&b[80..84], &[24, 1, 0, 0]);
}

#[test]
fn record_bytes_reject_overlong_message() {
    let r = initialize_tip_account(ALICE, BOB, 1, "é".repeat(280), 0, 1);
    assert_eq!(r.to_bytes(&[0u8; 8]), Err(TipError::MessageTooLong));
}

#[test]
fn error_messages() {
    assert_eq!(TipError::InvalidAmount.message(), "Tip amount must be greater than 0");
    assert_eq!(TipError::MessageTooLong.message(), "Message cannot exceed 280 characters");
    assert_eq!(TipError::InvalidCharacters.message(), "Message contains invalid characters");
    assert_eq!(TipError::InsufficientFunds.message(), "Insufficient SOL balance for this tip");
    assert_eq!(TipError::AlreadyExists.message(), "A tip record already exists for this seed");
}
