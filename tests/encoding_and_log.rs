use valyra_escrow::address::{derivation_path, ecdsa_address};
use valyra_escrow::encoding::escrow_subaccount;
use valyra_escrow::event_log::EventLog;
use valyra_escrow::ledger::{deposit_memo, release_memo};
use valyra_escrow::types::{EscrowEvent, Party};

fn deposit_event(n: u64) -> EscrowEvent {
    EscrowEvent::FundsDeposited { escrow_id: n, amount: n, depositor: Party::new("b".to_string()) }
}

#[test]
fn log_evicts_oldest_batch_past_capacity() {
    let mut log = EventLog::new();
    for n in 0..1000u64 {
        log.log_event(deposit_event(n));
    }
    assert_eq!(log.len(), 1000);
    log.log_event(deposit_event(1000));
    assert_eq!(log.len(), 901);
    let newest = log.recent(901);
    assert_eq!(newest[0], deposit_event(1000));
    assert_eq!(newest[900], deposit_event(100));
}

#[test]
fn recent_respects_limit() {
    let mut log = EventLog::new();
    for n in 0..5u64 {
        log.log_event(deposit_event(n));
    }
    assert_eq!(log.recent(2), vec![deposit_event(4), deposit_event(3)]);
    assert_eq!(log.recent(9).len(), 5);
}

#[test]
fn address_is_prefixed_hex_of_key() {
    let key: Vec<u8> = vec![0x02, 0xab, 0xcd, 0xef, 0x10, 0x32, 0x54, 0x76, 0x98, 0xba, 0xdc, 0xfe];
    assert_eq!(ecdsa_address(&key), Some("ecdsa_02abcdef1032547698ba".to_string()));
    assert_eq!(ecdsa_address(&vec![1, 2, 3, 4, 5, 6, 7, 8, 9]), None);
}

#[test]
fn subaccount_is_big_endian_id() {
    assert_eq!(escrow_subaccount(0x0102_0304_0506_0708), vec![1, 2, 3, 4, 5, 6, 7, 8]);
    assert_eq!(escrow_subaccount(u64::MAX), vec![255; 8]);
    let path = derivation_path(&vec![9, 9], 258);
    assert_eq!(path, vec![vec![9, 9], vec![0, 0, 0, 0, 0, 0, 1, 2]]);
}

#[test]
fn memos_carry_decimal_ids() {
    assert_eq!(deposit_memo(0), "Escrow deposit for listing 0");
    assert_eq!(deposit_memo(1234567890), "Escrow deposit for listing 1234567890");
    assert_eq!(release_memo(u64::MAX), "Milestone payment for escrow 18446744073709551615");
}
