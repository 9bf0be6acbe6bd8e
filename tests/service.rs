use liquidator::address::Address;
use liquidator::cache::banks::{Bank, BankConfig};
use liquidator::cache::marginfi_accounts::{HealthCache, MarginfiAccount};
use liquidator::cache::Cache;
use liquidator::clock::Clock;
use liquidator::common::{MessageType, MARGINFI_ACCOUNT_DISCRIMINATOR, MARGINFI_ACCOUNT_DISCRIMINATOR_LEN};
use liquidator::oracle::OracleSetup;
use liquidator::service::geyser_processor::{process_message, ProcessError, ProcessorState, ReceiveOutcome};
use liquidator::service::geyser_subscriber::{handle_event, GeyserMessage, SOLANA_CLOCK_BYTES};

const MARGINFI_PROGRAM_ID_BYTES: [u8; 32] = [1u8; 32];

fn key(tag: u8, n: u8) -> Address {
    let mut b = [0u8; 32];
    b[0] = tag;
    b[1] = n;
    b[31] = 6;
    Address::new(b)
}

fn generate_test_clock(slot: u64) -> Clock {
    Clock {
        slot,
        epoch_start_timestamp: 1_760_000_000 - 3600,
        epoch: 0,
        leader_schedule_epoch: 1,
        unix_timestamp: 1_760_000_000,
    }
}

fn create_dummy_cache() -> Cache {
    Cache::new(generate_test_clock(1))
}

fn message(message_type: MessageType, slot: u64, address: Address, data: Vec<u8>) -> GeyserMessage {
    GeyserMessage::new(message_type, slot, &address.bytes, &key(8, 1).bytes, 1, data, false, 0).unwrap()
}

fn program_id() -> Address {
    Address::new(MARGINFI_PROGRAM_ID_BYTES)
}

#[test]
fn clock_address_is_the_sysvar() {
    let clock_id: solana_pubkey::Pubkey = "SysvarC1ock11111111111111111111111111111111".parse().unwrap();
    assert_eq!(SOLANA_CLOCK_BYTES, clock_id.to_bytes());
}

#[test]
fn test_handle_event_clock_update() {
    let clock = generate_test_clock(1);
    let address = Address::new(SOLANA_CLOCK_BYTES);
    let routed = handle_event(&program_id(), &vec![], clock.slot, 10, &address, &address, &[]);
    assert_eq!(routed, Some(MessageType::Clock));

    let msg = GeyserMessage::new(
        routed.unwrap(),
        10,
        &address.bytes,
        &address.bytes,
        42,
        vec![],
        false,
        0,
    )
    .expect("Should have received a message");
    assert!(matches!(msg.message_type, MessageType::Clock));
    assert_eq!(msg.slot, 10);
    assert_eq!(msg.address, address);
    assert_eq!(msg.account.lamports, 42);
}

#[test]
fn test_handle_event_non_clock_account() {
    let clock = generate_test_clock(1);
    let random_pubkey = key(1, 1);
    let routed = handle_event(&program_id(), &vec![], clock.slot, 10, &random_pubkey, &random_pubkey, &[]);
    assert!(routed.is_none());
}

#[test]
fn test_handle_event_slot_too_low() {
    let clock = generate_test_clock(2);
    let address = Address::new(SOLANA_CLOCK_BYTES);
    let routed = handle_event(&program_id(), &vec![], clock.slot, 1, &address, &address, &[]);
    assert!(routed.is_none());
}

#[test]
fn test_handle_event_marginfi_account_update() {
    let clock = generate_test_clock(1);
    let marginfi_pubkey = program_id();
    let mut data = vec![0; MARGINFI_ACCOUNT_DISCRIMINATOR_LEN + 1];
    data[..MARGINFI_ACCOUNT_DISCRIMINATOR_LEN].copy_from_slice(&MARGINFI_ACCOUNT_DISCRIMINATOR);

    let routed = handle_event(&program_id(), &vec![], clock.slot, 10, &marginfi_pubkey, &program_id(), &data);
    assert_eq!(routed, Some(MessageType::MarginfiAccount));

    let msg = GeyserMessage::new(
        routed.unwrap(),
        10,
        &marginfi_pubkey.bytes,
        &MARGINFI_PROGRAM_ID_BYTES,
        42,
        data,
        false,
        0,
    )
    .expect("Should have received a message");
    assert_eq!(msg.slot, 10);
    assert_eq!(msg.address, marginfi_pubkey);
    assert_eq!(msg.account.lamports, 42);
}

#[test]
fn test_handle_event_oracle_account_update() {
    let clock = generate_test_clock(1);
    let oracle_pubkey = key(2, 1);
    let owner = key(3, 1);
    let oracle_set = vec![oracle_pubkey];

    let routed = handle_event(&program_id(), &oracle_set, clock.slot, 10, &oracle_pubkey, &owner, &[]);
    let msg = GeyserMessage::new(routed.unwrap(), 10, &oracle_pubkey.bytes, &owner.bytes, 42, vec![], false, 0)
        .expect("Should have received a message");
    assert!(matches!(msg.message_type, MessageType::Oracle));
    assert_eq!(msg.slot, 10);
    assert_eq!(msg.address, oracle_pubkey);
}

#[test]
fn test_handle_event_ignores_unrecognized_account() {
    let clock = generate_test_clock(1);
    let random_pubkey = key(2, 2);
    let owner = key(3, 2);
    let routed = handle_event(&program_id(), &vec![], clock.slot, 10, &random_pubkey, &owner, &[]);
    assert!(routed.is_none());
}

#[test]
fn program_account_with_unknown_magic_is_ignored() {
    let routed = handle_event(&program_id(), &vec![key(2, 3)], 1, 10, &key(2, 3), &program_id(), &[7u8; 20]);
    assert!(routed.is_none());
}

#[test]
fn malformed_addresses_are_rejected() {
    assert!(GeyserMessage::new(MessageType::Oracle, 1, &[1, 2, 3], &[0u8; 32], 0, vec![], false, 0).is_err());
    assert!(GeyserMessage::new(MessageType::Oracle, 1, &[0u8; 32], &[0u8; 31], 0, vec![], false, 0).is_err());
}

#[test]
fn test_process_clock_message() {
    let mut cache = create_dummy_cache();
    let msg = message(MessageType::Clock, 1, Address::null(), vec![0u8; 2]);
    assert_eq!(process_message(&mut cache, &msg, None), Err(ProcessError::InvalidClock));
    assert_eq!(cache.get_clock().slot, 1);
}

#[test]
fn clock_message_advances_clock() {
    let mut cache = create_dummy_cache();
    let clock = solana_clock::Clock {
        slot: 77,
        epoch_start_timestamp: 1,
        epoch: 2,
        leader_schedule_epoch: 3,
        unix_timestamp: 4,
    };
    let msg = message(MessageType::Clock, 77, Address::new(SOLANA_CLOCK_BYTES), bincode::serialize(&clock).unwrap());
    assert_eq!(process_message(&mut cache, &msg, None), Ok(()));
    assert_eq!(cache.get_clock().slot, 77);
    assert_eq!(cache.get_clock().unix_timestamp, 4);
}

#[test]
fn test_process_marginfi_account_message() {
    let _marginfi_account = MarginfiAccount {
        group: key(4, 1),
        balances: vec![],
        health_cache: HealthCache {
            asset_value_maint: 0,
            liability_value_maint: 0,
        },
    };
}

#[test]
fn test_process_bank_message() {
    let _bank = Bank {
        mint: key(4, 2),
        mint_decimals: 6,
        group: key(4, 3),
        config: BankConfig {
            oracle_setup: OracleSetup::PythPushOracle,
            oracle_keys: [Address::null(); 5],
        },
    };
}

#[test]
fn test_process_oracle_message() {
    let mut cache = create_dummy_cache();
    let msg = message(MessageType::Oracle, 4, key(4, 4), vec![0u8; 2]);
    assert_eq!(process_message(&mut cache, &msg, None), Ok(()));
    assert!(cache.oracles.get(&key(4, 4)).is_none());
}

#[test]
fn pool_message_without_record_is_rejected() {
    let mut cache = create_dummy_cache();
    let msg = message(MessageType::Bank, 4, key(4, 5), vec![]);
    assert_eq!(process_message(&mut cache, &msg, None), Err(ProcessError::MissingRecord));
    assert!(cache.banks.get(&key(4, 5)).is_err());
}

#[test]
fn test_run_stops_on_stop_signal() {
    let state = ProcessorState::Running;
    assert_eq!(state.after(ReceiveOutcome::Event, true), ProcessorState::Stopped);
}

#[test]
fn test_run_handles_recv_error() {
    let state = ProcessorState::Running;
    assert_eq!(state.after(ReceiveOutcome::Disconnected, true), ProcessorState::Stopped);
}

#[test]
fn closed_queue_does_not_stop_the_loop() {
    let state = ProcessorState::Running;
    let state = state.after(ReceiveOutcome::Disconnected, false);
    assert_eq!(state, ProcessorState::Running);
    let state = state.after(ReceiveOutcome::Disconnected, false);
    assert_eq!(state, ProcessorState::Running);
    assert_eq!(state.after(ReceiveOutcome::Event, true), ProcessorState::Stopped);
}
