//! The table of mirrored rows: one row per account address.

use vstd::prelude::*;
use crate::models::{Stream, StreamRow};

verus! {

/// Whether some row of `rows` has the address `address`.
pub open spec fn holds(rows: Seq<StreamRow>, address: Seq<char>) -> bool {
    exists|i: int| 0 <= i < rows.len() && #[trigger] rows[i].pda_account == address
}

/// The place of a row with the address `address`, where `rows` holds one.
pub open spec fn slot(rows: Seq<StreamRow>, address: Seq<char>) -> int {
    choose|i: int| 0 <= i < rows.len() && #[trigger] rows[i].pda_account == address
}

/// The row stored under `address`, if any.
pub open spec fn row_at(rows: Seq<StreamRow>, address: Seq<char>) -> Option<StreamRow> {
    if holds(rows, address) {
        Some(rows[slot(rows, address)])
    } else {
        None
    }
}

/// No two rows share an address.
pub open spec fn distinct(rows: Seq<StreamRow>) -> bool {
    forall|i: int, j: int|
        0 <= i < rows.len() && 0 <= j < rows.len() && (#[trigger] rows[i]).pda_account == (
        #[trigger] rows[j]).pda_account ==> i == j
}

/// The rows after `row` was written: it takes the place of the row with its
/// address, whole, or, where there is none, stands behind all others.
pub open spec fn upserted(rows: Seq<StreamRow>, row: StreamRow) -> Seq<StreamRow> {
    if holds(rows, row.pda_account) {
        rows.update(slot(rows, row.pda_account), row)
    } else {
        rows.push(row)
    }
}

/// The rows whose sender is `key`, in the table's order.
pub open spec fn sent_by(rows: Seq<StreamRow>, key: Seq<char>) -> Seq<StreamRow> {
    rows.filter(|r: StreamRow| r.sender == key)
}

/// The rows whose receiver is `key`, in the table's order.
pub open spec fn received_by(rows: Seq<StreamRow>, key: Seq<char>) -> Seq<StreamRow> {
    rows.filter(|r: StreamRow| r.receiver == key)
}

/// The views of a vector of records, in order.
pub open spec fn rows_of(records: Seq<Stream>) -> Seq<StreamRow> {
    Seq::new(records.len(), |i: int| records[i]@)
}

/// Where no two rows share an address, the row at `i` is the one that
/// `slot` names for its address.
pub proof fn lemma_slot_is_unique(rows: Seq<StreamRow>, address: Seq<char>, i: int)
    requires
        distinct(rows),
        0 <= i < rows.len(),
        rows[i].pda_account == address,
    ensures
        holds(rows, address),
        slot(rows, address) == i,
        row_at(rows, address) == Some(rows[i]),
{
    let j = slot(rows, address);
    assert(rows[j].pda_account == rows[i].pda_account);
}

/// A write keeps the table's invariant: still one row per address.
pub proof fn lemma_upsert_keeps_distinct(rows: Seq<StreamRow>, row: StreamRow)
    requires
        distinct(rows),
    ensures
        distinct(upserted(rows, row)),
{
    let after = upserted(rows, row);
    if holds(rows, row.pda_account) {
        let at = slot(rows, row.pda_account);
        assert forall|i: int, j: int|
            0 <= i < after.len() && 0 <= j < after.len() && (#[trigger] after[i]).pda_account == (
            #[trigger] after[j]).pda_account implies i == j by {
            assert(rows[i].pda_account == after[i].pda_account);
            assert(rows[j].pda_account == after[j].pda_account);
        }
    } else {
        assert forall|i: int, j: int|
            0 <= i < after.len() && 0 <= j < after.len() && (#[trigger] after[i]).pda_account == (
            #[trigger] after[j]).pda_account implies i == j by {
            if i < rows.len() {
                assert(rows[i].pda_account == after[i].pda_account);
            }
            if j < rows.len() {
                assert(rows[j].pda_account == after[j].pda_account);
            }
        }
    }
}

/// After a write, the row stored under the record's address is the record.
pub proof fn lemma_upsert_stores(rows: Seq<StreamRow>, row: StreamRow)
    requires
        distinct(rows),
    ensures
        row_at(upserted(rows, row), row.pda_account) == Some(row),
{
    let after = upserted(rows, row);
    lemma_upsert_keeps_distinct(rows, row);
    if holds(rows, row.pda_account) {
        lemma_slot_is_unique(after, row.pda_account, slot(rows, row.pda_account));
    } else {
        lemma_slot_is_unique(after, row.pda_account, rows.len() as int);
    }
}

/// A write leaves the rows of all other addresses as they were.
pub proof fn lemma_upsert_spares_others(rows: Seq<StreamRow>, row: StreamRow, other: Seq<char>)
    requires
        distinct(rows),
        other != row.pda_account,
    ensures
        row_at(upserted(rows, row), other) == row_at(rows, other),
{
    let after = upserted(rows, row);
    lemma_upsert_keeps_distinct(rows, row);
    if holds(rows, other) {
        let at = slot(rows, other);
        assert(after[at] == rows[at]);
        lemma_slot_is_unique(after, other, at);
    } else {
        if holds(after, other) {
            let at = slot(after, other);
            if at < rows.len() {
                assert(rows[at].pda_account == other);
            }
        }
    }
}

/// Writing the same record twice is writing it once: the second write
/// changes nothing, and the row stored under its address is the record.
pub proof fn lemma_upsert_is_idempotent(rows: Seq<StreamRow>, row: StreamRow)
    requires
        distinct(rows),
    ensures
        upserted(upserted(rows, row), row) == upserted(rows, row),
        row_at(upserted(upserted(rows, row), row), row.pda_account) == Some(row),
{
    lemma_last_write_wins(rows, row, row);
}

/// Of two writes to one address the later one stands, whole, whatever the
/// two records hold: the table is as if only the later one had been written.
pub proof fn lemma_last_write_wins(rows: Seq<StreamRow>, first: StreamRow, second: StreamRow)
    requires
        distinct(rows),
        first.pda_account == second.pda_account,
    ensures
        upserted(upserted(rows, first), second) == upserted(rows, second),
        row_at(upserted(upserted(rows, first), second), second.pda_account) == Some(second),
{
    let address = first.pda_account;
    let middle = upserted(rows, first);
    lemma_upsert_keeps_distinct(rows, first);
    if holds(rows, address) {
        let at = slot(rows, address);
        lemma_slot_is_unique(middle, address, at);
        assert(middle.update(at, second) =~= rows.update(at, second));
    } else {
        lemma_slot_is_unique(middle, address, rows.len() as int);
        assert(middle.update(rows.len() as int, second) =~= rows.push(second));
    }
    lemma_upsert_stores(middle, second);
}

/// Two records with different addresses, written to an empty table, are
/// told apart by the queries: a key that is the sender of the first only,
/// and the receiver of neither, finds the first record among the sent
/// streams and nothing among the received ones.
pub proof fn lemma_queries_partition(first: StreamRow, second: StreamRow, key: Seq<char>)
    requires
        first.pda_account != second.pda_account,
        first.sender == key,
        second.sender != key,
        first.receiver != key,
        second.receiver != key,
    ensures
        sent_by(upserted(upserted(Seq::empty(), first), second), key) == seq![first],
        received_by(upserted(upserted(Seq::empty(), first), second), key) == Seq::<
            StreamRow,
        >::empty(),
{
    let none = Seq::<StreamRow>::empty();
    let one = upserted(none, first);
    assert(one =~= seq![first]);
    assert(!holds(one, second.pda_account));
    let two = upserted(one, second);
    assert(two =~= seq![first, second]);
    reveal_with_fuel(Seq::filter, 3);
    assert(two.drop_last() =~= one);
    assert(one.drop_last() =~= none);
    assert(sent_by(two, key) =~= seq![first]);
    assert(received_by(two, key) =~= none);
}

/// The mirrored rows, in the order in which their addresses first came.
#[derive(Debug)]
pub struct StreamTable {
    rows: Vec<Stream>,
}

impl View for StreamTable {
    type V = Seq<StreamRow>;

    closed spec fn view(&self) -> Seq<StreamRow> {
        rows_of(self.rows@)
    }
}

impl StreamTable {
    /// The table's invariant: one row per address.
    pub open spec fn wf(&self) -> bool {
        distinct(self@)
    }

    /// A table without rows.
    pub fn new() -> (table: StreamTable)
        ensures
            table.wf(),
            table@ == Seq::<StreamRow>::empty(),
    {
        let table = StreamTable { rows: Vec::new() };
        assert(table@ =~= Seq::<StreamRow>::empty());
        table
    }

    /// The number of rows.
    pub fn len(&self) -> (n: usize)
        ensures
            n == self@.len(),
    {
        self.rows.len()
    }

    /// The rows, in the table's order.
    pub fn rows(&self) -> (out: Vec<Stream>)
        ensures
            rows_of(out@) == self@,
    {
        let mut out: Vec<Stream> = Vec::new();
        let mut i: usize = 0;
        while i < self.rows.len()
            invariant
                i <= self.rows.len(),
                out.len() == i,
                forall|j: int| 0 <= j < i ==> out@[j] == self.rows@[j],
            decreases self.rows.len() - i,
        {
            out.push(self.rows[i].duplicate());
            i += 1;
        }
        assert(rows_of(out@) =~= self@);
        out
    }

    fn position(&self, address: &String) -> (at: usize)
        requires
            self.wf(),
        ensures
            at <= self@.len(),
            at < self@.len() ==> self@[at as int].pda_account == address@,
            at < self@.len() <==> holds(self@, address@),
            at < self@.len() ==> slot(self@, address@) == at,
    {
        let mut i: usize = 0;
        while i < self.rows.len()
            invariant
                self.wf(),
                i <= self.rows.len(),
                forall|j: int| 0 <= j < i ==> (#[trigger] self@[j]).pda_account != address@,
            decreases self.rows.len() - i,
        {
            if self.rows[i].pda_account == *address {
                proof {
                    assert(self@[i as int].pda_account == address@);
                    let j = slot(self@, address@);
                    assert(self@[j].pda_account == self@[i as int].pda_account);
                }
                return i;
            }
            i += 1;
        }
        i
    }

    /// The row stored under `address`, if any.
    pub fn get(&self, address: &String) -> (r: Option<Stream>)
        requires
            self.wf(),
        ensures
            r is Some <==> holds(self@, address@),
            r is Some ==> Some(r->Some_0@) == row_at(self@, address@),
    {
        let at = self.position(address);
        if at < self.rows.len() {
            Some(self.rows[at].duplicate())
        } else {
            None
        }
    }

    /// Writes `record`: a row with its address is replaced whole, else the
    /// record becomes a new row. Always succeeds.
    pub fn upsert(&mut self, record: Stream) -> (stored: bool)
        requires
            old(self).wf(),
        ensures
            stored,
            final(self).wf(),
            final(self)@ == upserted(old(self)@, record@),
    {
        let at = self.position(&record.pda_account);
        let ghost before = self@;
        if at < self.rows.len() {
            self.rows[at] = record;
            assert(self@ =~= before.update(at as int, record@));
        } else {
            self.rows.push(record);
            assert(self@ =~= before.push(record@));
        }
        true
    }

    /// The rows whose sender is `key`, in the table's order.
    pub fn find_by_sender(&self, key: &String) -> (out: Vec<Stream>)
        ensures
            rows_of(out@) == sent_by(self@, key@),
    {
        let mut out: Vec<Stream> = Vec::new();
        let mut i: usize = 0;
        let ghost wanted = |r: StreamRow| r.sender == key@;
        proof {
            assert(self@.take(0) =~= Seq::<StreamRow>::empty());
            reveal(Seq::filter);
            assert(rows_of(out@) =~= self@.take(0).filter(wanted));
        }
        while i < self.rows.len()
            invariant
                i <= self.rows.len(),
                wanted == |r: StreamRow| r.sender == key@,
                rows_of(out@) == self@.take(i as int).filter(wanted),
            decreases self.rows.len() - i,
        {
            proof {
                reveal(Seq::filter);
                assert(self@.take(i + 1).drop_last() =~= self@.take(i as int));
                assert(self@.take(i + 1).last() == self@[i as int]);
            }
            if self.rows[i].sender == *key {
                let ghost prev = rows_of(out@);
                out.push(self.rows[i].duplicate());
                assert(rows_of(out@) =~= prev.push(self@[i as int]));
            }
            i += 1;
        }
        assert(self@.take(i as int) =~= self@);
        out
    }

    /// The rows whose receiver is `key`, in the table's order.
    pub fn find_by_receiver(&self, key: &String) -> (out: Vec<Stream>)
        ensures
            rows_of(out@) == received_by(self@, key@),
    {
        let mut out: Vec<Stream> = Vec::new();
        let mut i: usize = 0;
        let ghost wanted = |r: StreamRow| r.receiver == key@;
        proof {
            assert(self@.take(0) =~= Seq::<StreamRow>::empty());
            reveal(Seq::filter);
            assert(rows_of(out@) =~= self@.take(0).filter(wanted));
        }
        while i < self.rows.len()
            invariant
                i <= self.rows.len(),
                wanted == |r: StreamRow| r.receiver == key@,
                rows_of(out@) == self@.take(i as int).filter(wanted),
            decreases self.rows.len() - i,
        {
            proof {
                reveal(Seq::filter);
                assert(self@.take(i + 1).drop_last() =~= self@.take(i as int));
                assert(self@.take(i + 1).last() == self@[i as int]);
            }
            if self.rows[i].receiver == *key {
                let ghost prev = rows_of(out@);
                out.push(self.rows[i].duplicate());
                assert(rows_of(out@) =~= prev.push(self@[i as int]));
            }
            i += 1;
        }
        assert(self@.take(i as int) =~= self@);
        out
    }
}

impl Stream {
    /// The rows of `table` whose sender is `pubkey`, in the table's order.
    pub fn get_all_with_sender(pubkey: &String, table: &StreamTable) -> (out: Vec<Stream>)
        ensures
            rows_of(out@) == sent_by(table@, pubkey@),
    {
        table.find_by_sender(pubkey)
    }

    /// The rows of `table` whose receiver is `pubkey`, in the table's order.
    pub fn get_all_with_receiver(pubkey: &String, table: &StreamTable) -> (out: Vec<Stream>)
        ensures
            rows_of(out@) == received_by(table@, pubkey@),
    {
        table.find_by_receiver(pubkey)
    }

    /// Writes `stream` to `table`: inserted where its address is new, else
    /// every field of the row with its address is replaced. Always succeeds.
    pub fn insert_or_update(stream: Stream, table: &mut StreamTable) -> (stored: bool)
        requires
            old(table).wf(),
        ensures
            stored,
            final(table).wf(),
            final(table)@ == upserted(old(table)@, stream@),
    {
        table.upsert(stream)
    }
}

} // verus!
