use indexer::models::Stream;
use indexer::routes::{get_all_stream, index, StreamReply};
use indexer::store::StreamTable;
use indexer::sync::{start, subscribe_to_program, Command, LedgerEvent, Phase, RawAccount};

fn account(address: &str, sender: [u8; 32], receiver: [u8; 32]) -> RawAccount {
    let mut data: Vec<u8> = Vec::new();
    data.extend_from_slice(&100i64.to_le_bytes());
    data.extend_from_slice(&200i64.to_le_bytes());
    data.extend_from_slice(&receiver);
    data.extend_from_slice(&25u64.to_le_bytes());
    data.extend_from_slice(&3u64.to_le_bytes());
    data.extend_from_slice(&sender);
    RawAccount { address: address.to_string(), data }
}

fn text(key: [u8; 32]) -> String {
    solana_sdk::pubkey::Pubkey::new_from_array(key).to_string()
}

#[test]
fn index_greets() {
    assert_eq!(index(), "Hello, world!");
}

#[test]
fn unknown_key_gets_empty_lists() {
    let table = StreamTable::new();
    let reply = get_all_stream("UNKNOWN", &table);
    assert_eq!(
        reply,
        StreamReply { status: "success".to_string(), sending: Vec::new(), receiving: Vec::new() }
    );
}

#[test]
fn bootstrap_then_query() {
    let s1 = [1u8; 32];
    let r1 = [2u8; 32];
    let s2 = [3u8; 32];
    let r2 = [4u8; 32];
    let mut table = StreamTable::new();
    let (phase, command) = start();
    assert_eq!(command, Command::FullScan);
    let scan = LedgerEvent::ScanCompleted(vec![account("addrA", s1, r1), account("addrB", s2, r2)]);
    let next = subscribe_to_program(phase, &scan, &mut table);
    assert_eq!(next, (Phase::Subscribed, Command::Subscribe));

    let record_a = Stream {
        pda_account: "addrA".to_string(),
        start_time: 100,
        end_time: 200,
        receiver: text(r1),
        lamports_withdrawn: 25,
        amount_second: 3,
        sender: text(s1),
        total_amount: 300,
    };
    let reply = get_all_stream(&text(s1), &table);
    assert_eq!(reply.status, "success");
    assert_eq!(reply.sending, vec![record_a.clone()]);
    assert_eq!(reply.receiving, Vec::<Stream>::new());

    let reply = get_all_stream(&text(r1), &table);
    assert_eq!(reply.status, "success");
    assert_eq!(reply.sending, Vec::<Stream>::new());
    assert_eq!(reply.receiving, vec![record_a]);

    let reply = get_all_stream("UNKNOWN", &table);
    assert_eq!(
        reply,
        StreamReply { status: "success".to_string(), sending: Vec::new(), receiving: Vec::new() }
    );
}
