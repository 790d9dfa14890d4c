//! The synchronization rules: how scanned accounts and pushed updates are
//! merged into the table, and when a full scan is due.

use vstd::prelude::*;
use crate::models::{decoded, Stream, StreamRow};
use crate::payload::is_payload;
use crate::store::{
    distinct, lemma_upsert_keeps_distinct, lemma_upsert_spares_others, lemma_upsert_stores, row_at,
    upserted, StreamTable,
};

verus! {

/// One account as the ledger hands it over: its address and its payload.
#[derive(Clone, Debug, PartialEq, Eq)]
pub struct RawAccount {
    pub address: String,
    pub data: Vec<u8>,
}

/// The rows after the account at `address` with the payload `data` was
/// merged: its record is written where the payload decodes, and nothing
/// changes where it does not.
pub open spec fn merged_one(rows: Seq<StreamRow>, address: Seq<char>, data: Seq<u8>) -> Seq<
    StreamRow,
> {
    match decoded(address, data) {
        Some(row) => upserted(rows, row),
        None => rows,
    }
}

/// The rows after all of `accounts` were merged, one after the other, first
/// to last.
pub open spec fn merged(rows: Seq<StreamRow>, accounts: Seq<RawAccount>) -> Seq<StreamRow>
    decreases accounts.len(),
{
    if accounts.len() == 0 {
        rows
    } else {
        merged_one(
            merged(rows, accounts.drop_last()),
            accounts.last().address@,
            accounts.last().data@,
        )
    }
}

/// A sequence of bytes that does not have a payload's length decodes to
/// nothing, and merging it leaves every row as it was.
pub proof fn lemma_malformed_payload_is_skipped(
    rows: Seq<StreamRow>,
    address: Seq<char>,
    data: Seq<u8>,
)
    requires
        !is_payload(data),
    ensures
        decoded(address, data) is None,
        merged_one(rows, address, data) == rows,
        row_at(merged_one(rows, address, data), address) == row_at(rows, address),
{
}

/// An account that does decode is stored whole under its address, and the
/// rows of all other addresses stay as they were.
pub proof fn lemma_decoded_account_is_stored(
    rows: Seq<StreamRow>,
    address: Seq<char>,
    data: Seq<u8>,
    other: Seq<char>,
)
    requires
        distinct(rows),
        decoded(address, data) is Some,
        other != address,
    ensures
        row_at(merged_one(rows, address, data), address) == decoded(address, data),
        row_at(merged_one(rows, address, data), other) == row_at(rows, other),
        distinct(merged_one(rows, address, data)),
{
    let row = decoded(address, data)->Some_0;
    lemma_upsert_stores(rows, row);
    lemma_upsert_spares_others(rows, row, other);
    lemma_upsert_keeps_distinct(rows, row);
}

/// The record of the last account in `accounts` that has the address
/// `address` and decodes, if there is one.
pub open spec fn last_decoded(accounts: Seq<RawAccount>, address: Seq<char>) -> Option<StreamRow>
    decreases accounts.len(),
{
    if accounts.len() == 0 {
        None
    } else {
        let account = accounts.last();
        if account.address@ == address && decoded(address, account.data@) is Some {
            decoded(address, account.data@)
        } else {
            last_decoded(accounts.drop_last(), address)
        }
    }
}

/// After a run of accounts was merged, each address holds what was last
/// observed of it: the record of the last account of that address that
/// decoded, or, where none did, the row that stood there before. The table
/// still has one row per address.
pub proof fn lemma_last_observed_stands(
    rows: Seq<StreamRow>,
    accounts: Seq<RawAccount>,
    address: Seq<char>,
)
    requires
        distinct(rows),
    ensures
        distinct(merged(rows, accounts)),
        row_at(merged(rows, accounts), address) == match last_decoded(accounts, address) {
            Some(row) => Some(row),
            None => row_at(rows, address),
        },
    decreases accounts.len(),
{
    if accounts.len() > 0 {
        let before = merged(rows, accounts.drop_last());
        let account = accounts.last();
        lemma_last_observed_stands(rows, accounts.drop_last(), address);
        match decoded(account.address@, account.data@) {
            Some(row) => {
                lemma_upsert_keeps_distinct(before, row);
                if account.address@ == address {
                    lemma_upsert_stores(before, row);
                } else {
                    assert(decoded(address, account.data@) is Some);
                    lemma_upsert_spares_others(before, row, address);
                }
            },
            None => {
                assert(decoded(address, account.data@) is None);
            },
        }
    }
}

/// Merges one account into the table. Says whether a record was written;
/// an account whose payload does not decode is skipped and the table stays
/// as it was.
pub fn apply_account(account: &RawAccount, table: &mut StreamTable) -> (stored: bool)
    requires
        old(table).wf(),
    ensures
        final(table).wf(),
        final(table)@ == merged_one(old(table)@, account.address@, account.data@),
        stored <==> decoded(account.address@, account.data@) is Some,
        !stored ==> final(table)@ == old(table)@,
{
    match Stream::new(account.address.clone(), &account.data) {
        Some(record) => Stream::insert_or_update(record, table),
        None => false,
    }
}

/// Merges the accounts of a full scan into the table, first to last.
pub fn get_accounts_and_update(accounts: &Vec<RawAccount>, table: &mut StreamTable)
    requires
        old(table).wf(),
    ensures
        final(table).wf(),
        final(table)@ == merged(old(table)@, accounts@),
{
    let mut i: usize = 0;
    while i < accounts.len()
        invariant
            i <= accounts.len(),
            table.wf(),
            table@ == merged(old(table)@, accounts@.take(i as int)),
        decreases accounts.len() - i,
    {
        proof {
            assert(accounts@.take(i + 1).drop_last() =~= accounts@.take(i as int));
        }
        apply_account(&accounts[i], table);
        i += 1;
    }
    proof {
        assert(accounts@.take(i as int) =~= accounts@);
    }
}

/// Where the worker stands: waiting for a full scan, or listening.
#[derive(Clone, Copy, Debug, PartialEq, Eq, Structural)]
pub enum Phase {
    Bootstrap,
    Subscribed,
}

/// What the ledger side reports back to the worker.
#[derive(Clone, Debug, PartialEq, Eq)]
pub enum LedgerEvent {
    /// A full scan returned these accounts.
    ScanCompleted(Vec<RawAccount>),
    /// A full scan could not be completed.
    ScanFailed,
    /// The subscription pushed an update of one account.
    Update(RawAccount),
    /// The subscription ended, or could not be opened.
    Closed,
}

/// What the worker asks of the ledger side next.
#[derive(Clone, Copy, Debug, PartialEq, Eq, Structural)]
pub enum Command {
    /// Run a full scan and report how it went.
    FullScan,
    /// Open the subscription and report its first event.
    Subscribe,
    /// Report the next event of the open subscription.
    Receive,
}

/// Whether `event` is one that the ledger side reports in `phase`: a scan's
/// outcome while bootstrapping, a subscription's event while listening.
pub open spec fn expected(phase: Phase, event: LedgerEvent) -> bool {
    match phase {
        Phase::Bootstrap => event is ScanCompleted || event is ScanFailed,
        Phase::Subscribed => event is Update || event is Closed,
    }
}

/// The phase after `event`. A completed scan leads to listening, whatever it
/// held; the end of the subscription leads back to bootstrapping; anything
/// else, an event out of place too, leaves the phase as it is.
pub open spec fn next_phase(phase: Phase, event: LedgerEvent) -> Phase {
    match (phase, event) {
        (Phase::Bootstrap, LedgerEvent::ScanCompleted(_)) => Phase::Subscribed,
        (Phase::Subscribed, LedgerEvent::Closed) => Phase::Bootstrap,
        _ => phase,
    }
}

/// The command after `event`: a full scan whenever the next phase is
/// bootstrapping; to subscribe after a completed scan; else to go on
/// listening.
pub open spec fn next_command(phase: Phase, event: LedgerEvent) -> Command {
    match (phase, event) {
        (Phase::Bootstrap, LedgerEvent::ScanCompleted(_)) => Command::Subscribe,
        (Phase::Bootstrap, _) => Command::FullScan,
        (Phase::Subscribed, LedgerEvent::Closed) => Command::FullScan,
        (Phase::Subscribed, _) => Command::Receive,
    }
}

/// The table's rows after `event`: a completed scan's accounts are merged
/// while bootstrapping, an update's account while listening; nothing else
/// touches the table.
pub open spec fn next_rows(phase: Phase, event: LedgerEvent, rows: Seq<StreamRow>) -> Seq<
    StreamRow,
> {
    match (phase, event) {
        (Phase::Bootstrap, LedgerEvent::ScanCompleted(accounts)) => merged(rows, accounts@),
        (Phase::Subscribed, LedgerEvent::Update(account)) => merged_one(
            rows,
            account.address@,
            account.data@,
        ),
        _ => rows,
    }
}

/// The phase and the command with which the worker starts.
pub fn start() -> (first: (Phase, Command))
    ensures
        first == (Phase::Bootstrap, Command::FullScan),
{
    (Phase::Bootstrap, Command::FullScan)
}

/// One step of the worker: takes what the ledger side reported, merges what
/// it brought into the table, and gives the next phase and command.
pub fn subscribe_to_program(phase: Phase, event: &LedgerEvent, table: &mut StreamTable) -> (next: (
    Phase,
    Command,
))
    requires
        old(table).wf(),
    ensures
        final(table).wf(),
        next.0 == next_phase(phase, *event),
        next.1 == next_command(phase, *event),
        final(table)@ == next_rows(phase, *event, old(table)@),
{
    match phase {
        Phase::Bootstrap => match event {
            LedgerEvent::ScanCompleted(accounts) => {
                get_accounts_and_update(accounts, table);
                (Phase::Subscribed, Command::Subscribe)
            },
            _ => (Phase::Bootstrap, Command::FullScan),
        },
        Phase::Subscribed => match event {
            LedgerEvent::Update(account) => {
                apply_account(account, table);
                (Phase::Subscribed, Command::Receive)
            },
            LedgerEvent::Closed => (Phase::Bootstrap, Command::FullScan),
            _ => (Phase::Subscribed, Command::Receive),
        },
    }
}

/// The number of full scans that the worker commands while it takes
/// `events` one after the other, starting in `phase`.
pub open spec fn scans_commanded(phase: Phase, events: Seq<LedgerEvent>) -> nat
    decreases events.len(),
{
    if events.len() == 0 {
        0
    } else {
        let here: nat = if next_command(phase, events[0]) == Command::FullScan {
            1
        } else {
            0
        };
        here + scans_commanded(next_phase(phase, events[0]), events.drop_first())
    }
}

/// The number of events in `events` that end a subscription or fail a scan.
pub open spec fn losses(events: Seq<LedgerEvent>) -> nat
    decreases events.len(),
{
    if events.len() == 0 {
        0
    } else {
        let here: nat = if events[0] is Closed || events[0] is ScanFailed {
            1
        } else {
            0
        };
        here + losses(events.drop_first())
    }
}

/// Whether each of `events` is one that the ledger side reports in the phase
/// in which the worker takes it.
pub open spec fn in_step(phase: Phase, events: Seq<LedgerEvent>) -> bool
    decreases events.len(),
{
    events.len() == 0 || (expected(phase, events[0]) && in_step(
        next_phase(phase, events[0]),
        events.drop_first(),
    ))
}

/// Every end of the subscription, and every failed scan, makes the worker
/// command one full scan, and nothing else does: over a run of events that
/// each answer the worker's command, the scans commanded are as many as
/// the subscriptions that ended and the scans that failed.
pub proof fn lemma_one_scan_per_loss(phase: Phase, events: Seq<LedgerEvent>)
    requires
        in_step(phase, events),
    ensures
        scans_commanded(phase, events) == losses(events),
    decreases events.len(),
{
    if events.len() > 0 {
        lemma_one_scan_per_loss(next_phase(phase, events[0]), events.drop_first());
    }
}

/// When the subscription ends, the worker goes back to bootstrapping and
/// commands a full scan; until that scan completes, no update is merged.
pub proof fn lemma_closed_leads_to_scan(event: LedgerEvent, later: LedgerEvent, rows: Seq<StreamRow>)
    requires
        event is Closed,
    ensures
        next_phase(Phase::Subscribed, event) == Phase::Bootstrap,
        next_command(Phase::Subscribed, event) == Command::FullScan,
        later is Update ==> next_rows(Phase::Bootstrap, later, rows) == rows,
        !(later is ScanCompleted) ==> next_phase(Phase::Bootstrap, later) == Phase::Bootstrap,
{
}

} // verus!
