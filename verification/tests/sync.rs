use indexer::models::Stream;
use indexer::store::StreamTable;
use indexer::sync::{
    apply_account, get_accounts_and_update, start, subscribe_to_program, Command, LedgerEvent,
    Phase, RawAccount,
};

fn account(address: &str, start: i64, end: i64, rate: u64, sender: u8, receiver: u8) -> RawAccount {
    let mut data: Vec<u8> = Vec::new();
    data.extend_from_slice(&start.to_le_bytes());
    data.extend_from_slice(&end.to_le_bytes());
    data.extend_from_slice(&[receiver; 32]);
    data.extend_from_slice(&0u64.to_le_bytes());
    data.extend_from_slice(&rate.to_le_bytes());
    data.extend_from_slice(&[sender; 32]);
    RawAccount { address: address.to_string(), data }
}

fn broken(address: &str) -> RawAccount {
    RawAccount { address: address.to_string(), data: vec![1, 2, 3] }
}

fn decoded(account: &RawAccount) -> Stream {
    Stream::new(account.address.clone(), &account.data).unwrap()
}

#[test]
fn worker_starts_with_a_full_scan() {
    assert_eq!(start(), (Phase::Bootstrap, Command::FullScan));
}

#[test]
fn apply_account_writes_the_decoded_record() {
    let mut table = StreamTable::new();
    let a = account("addrA", 0, 10, 2, 1, 2);
    assert!(apply_account(&a, &mut table));
    assert_eq!(table.rows(), vec![decoded(&a)]);
    assert_eq!(table.rows()[0].total_amount, 20);
}

#[test]
fn failed_decode_leaves_the_stored_row() {
    let mut table = StreamTable::new();
    let a = account("addrA", 0, 10, 2, 1, 2);
    apply_account(&a, &mut table);
    assert!(!apply_account(&broken("addrA"), &mut table));
    assert!(!apply_account(&broken("addrB"), &mut table));
    let mut truncated = account("addrA", 5, 50, 9, 3, 4);
    truncated.data.truncate(95);
    assert!(!apply_account(&truncated, &mut table));
    assert_eq!(table.rows(), vec![decoded(&a)]);
}

#[test]
fn scan_merges_first_to_last_and_skips_what_fails() {
    let mut table = StreamTable::new();
    let a = account("addrA", 0, 10, 2, 1, 2);
    let b = account("addrB", 0, 20, 3, 3, 4);
    let a_later = account("addrA", 0, 30, 4, 5, 6);
    let accounts = vec![a.clone(), broken("addrC"), b.clone(), a_later.clone(), broken("addrB")];
    get_accounts_and_update(&accounts, &mut table);
    assert_eq!(table.rows(), vec![decoded(&a_later), decoded(&b)]);
}

#[test]
fn empty_scan_changes_nothing() {
    let mut table = StreamTable::new();
    let a = account("addrA", 0, 10, 2, 1, 2);
    apply_account(&a, &mut table);
    get_accounts_and_update(&Vec::new(), &mut table);
    assert_eq!(table.rows(), vec![decoded(&a)]);
}

#[test]
fn completed_scan_leads_to_subscription() {
    let mut table = StreamTable::new();
    let a = account("addrA", 0, 10, 2, 1, 2);
    let event = LedgerEvent::ScanCompleted(vec![a.clone(), broken("addrB")]);
    let next = subscribe_to_program(Phase::Bootstrap, &event, &mut table);
    assert_eq!(next, (Phase::Subscribed, Command::Subscribe));
    assert_eq!(table.rows(), vec![decoded(&a)]);
    let empty = LedgerEvent::ScanCompleted(Vec::new());
    let next = subscribe_to_program(Phase::Bootstrap, &empty, &mut table);
    assert_eq!(next, (Phase::Subscribed, Command::Subscribe));
    assert_eq!(table.rows(), vec![decoded(&a)]);
}

#[test]
fn failed_scan_is_tried_again() {
    let mut table = StreamTable::new();
    let next = subscribe_to_program(Phase::Bootstrap, &LedgerEvent::ScanFailed, &mut table);
    assert_eq!(next, (Phase::Bootstrap, Command::FullScan));
    assert_eq!(table.len(), 0);
}

#[test]
fn update_is_merged_while_subscribed() {
    let mut table = StreamTable::new();
    let a = account("addrA", 0, 10, 2, 1, 2);
    let a_later = account("addrA", 0, 5, 1, 1, 2);
    let next =
        subscribe_to_program(Phase::Subscribed, &LedgerEvent::Update(a.clone()), &mut table);
    assert_eq!(next, (Phase::Subscribed, Command::Receive));
    let next =
        subscribe_to_program(Phase::Subscribed, &LedgerEvent::Update(a_later.clone()), &mut table);
    assert_eq!(next, (Phase::Subscribed, Command::Receive));
    assert_eq!(table.rows(), vec![decoded(&a_later)]);
    let next = subscribe_to_program(
        Phase::Subscribed,
        &LedgerEvent::Update(broken("addrA")),
        &mut table,
    );
    assert_eq!(next, (Phase::Subscribed, Command::Receive));
    assert_eq!(table.rows(), vec![decoded(&a_later)]);
}

#[test]
fn events_out_of_place_are_ignored() {
    let mut table = StreamTable::new();
    let a = account("addrA", 0, 10, 2, 1, 2);
    let next =
        subscribe_to_program(Phase::Bootstrap, &LedgerEvent::Update(a.clone()), &mut table);
    assert_eq!(next, (Phase::Bootstrap, Command::FullScan));
    let next = subscribe_to_program(Phase::Bootstrap, &LedgerEvent::Closed, &mut table);
    assert_eq!(next, (Phase::Bootstrap, Command::FullScan));
    let next = subscribe_to_program(
        Phase::Subscribed,
        &LedgerEvent::ScanCompleted(vec![a.clone()]),
        &mut table,
    );
    assert_eq!(next, (Phase::Subscribed, Command::Receive));
    let next = subscribe_to_program(Phase::Subscribed, &LedgerEvent::ScanFailed, &mut table);
    assert_eq!(next, (Phase::Subscribed, Command::Receive));
    assert_eq!(table.len(), 0);
}

#[test]
fn each_termination_commands_one_full_scan() {
    let mut table = StreamTable::new();
    let a = account("addrA", 0, 10, 2, 1, 2);
    let b = account("addrB", 0, 20, 3, 3, 4);
    let events = vec![
        LedgerEvent::ScanCompleted(vec![a.clone()]),
        LedgerEvent::Update(b.clone()),
        LedgerEvent::Closed,
        LedgerEvent::ScanCompleted(vec![a.clone(), b.clone()]),
        LedgerEvent::Update(a.clone()),
        LedgerEvent::Update(b.clone()),
        LedgerEvent::Closed,
        LedgerEvent::ScanCompleted(Vec::new()),
        LedgerEvent::Update(a.clone()),
    ];
    let (mut phase, mut command) = start();
    let mut scans = 0;
    let mut closed = 0;
    for event in events.iter() {
        assert_eq!(command == Command::FullScan, phase == Phase::Bootstrap);
        if *event == LedgerEvent::Closed {
            closed += 1;
        }
        let before = scans;
        let next = subscribe_to_program(phase, event, &mut table);
        phase = next.0;
        command = next.1;
        if command == Command::FullScan {
            scans += 1;
        }
        if *event == LedgerEvent::Closed {
            assert_eq!(scans, before + 1);
            assert_eq!(phase, Phase::Bootstrap);
        } else {
            assert_eq!(scans, before);
        }
    }
    assert_eq!(closed, 2);
    assert_eq!(scans, 2);
    assert_eq!(phase, Phase::Subscribed);
    assert_eq!(table.rows(), vec![decoded(&a), decoded(&b)]);
}
