//! The mirrored record of one stream account, and how a payload becomes one.

use vstd::prelude::*;
use crate::keys::{base58_text, key_text};
use crate::payload::{is_payload, le_i64, parse_payload, signed64, StreamData};

verus! {

/// One mirrored stream: the account's address, the fields of its payload and
/// the total that the stream pays out.
#[derive(Clone, Debug, PartialEq, Eq)]
pub struct Stream {
    pub pda_account: String,
    pub start_time: i64,
    pub end_time: i64,
    pub receiver: String,
    pub lamports_withdrawn: i64,
    pub amount_second: i64,
    pub sender: String,
    pub total_amount: i64,
}

/// What a `Stream` holds, as plain mathematical values.
pub ghost struct StreamRow {
    pub pda_account: Seq<char>,
    pub start_time: int,
    pub end_time: int,
    pub receiver: Seq<char>,
    pub lamports_withdrawn: int,
    pub amount_second: int,
    pub sender: Seq<char>,
    pub total_amount: int,
}

impl View for Stream {
    type V = StreamRow;

    open spec fn view(&self) -> StreamRow {
        StreamRow {
            pda_account: self.pda_account@,
            start_time: self.start_time as int,
            end_time: self.end_time as int,
            receiver: self.receiver@,
            lamports_withdrawn: self.lamports_withdrawn as int,
            amount_second: self.amount_second as int,
            sender: self.sender@,
            total_amount: self.total_amount as int,
        }
    }
}

/// Whether `v` is a value of a signed 64-bit number.
pub open spec fn fits_i64(v: int) -> bool {
    i64::MIN <= v <= i64::MAX
}

/// The total that a stream pays out: its duration times its rate, the rate
/// read as a signed number.
pub open spec fn total_of(data: StreamData) -> int {
    (data.end_time - data.start_time) * signed64(data.amount_second as int)
}

/// Whether a record can be made of `data`: the duration and the total must
/// both be values of a signed 64-bit number.
pub open spec fn representable(data: StreamData) -> bool {
    fits_i64(data.end_time - data.start_time) && fits_i64(total_of(data))
}

/// The record made of an address, the payload's fields and the two keys as text.
pub open spec fn record_of(
    pda_account: Seq<char>,
    data: StreamData,
    receiver: Seq<char>,
    sender: Seq<char>,
) -> StreamRow {
    StreamRow {
        pda_account,
        start_time: data.start_time as int,
        end_time: data.end_time as int,
        receiver,
        lamports_withdrawn: signed64(data.lamports_withdrawn as int),
        amount_second: signed64(data.amount_second as int),
        sender,
        total_amount: total_of(data),
    }
}

/// What decoding the payload `bytes` of the account at `pda_account` gives.
/// Nothing where `bytes` is no payload, or where the duration or the total is
/// no value of a signed 64-bit number. Else the record whose times, withdrawn
/// amount and rate are the numbers at their places in the layout, whose keys
/// are the two 32-byte fields as text, and whose total is the duration times
/// the rate.
pub open spec fn decoded(pda_account: Seq<char>, bytes: Seq<u8>) -> Option<StreamRow> {
    let start = le_i64(bytes, 0);
    let end = le_i64(bytes, 8);
    let rate = le_i64(bytes, 56);
    if is_payload(bytes) && fits_i64(end - start) && fits_i64((end - start) * rate) {
        Some(
            StreamRow {
                pda_account,
                start_time: start,
                end_time: end,
                receiver: base58_text(bytes.subrange(16, 48)),
                lamports_withdrawn: le_i64(bytes, 48),
                amount_second: rate,
                sender: base58_text(bytes.subrange(64, 96)),
                total_amount: (end - start) * rate,
            },
        )
    } else {
        None
    }
}

impl Stream {
    /// Decodes the payload of the account at `pda_pubkey`. Gives nothing
    /// where `pda_data` does not have a payload's length, or where the
    /// duration or the total overflows a signed 64-bit number.
    pub fn new(pda_pubkey: String, pda_data: &Vec<u8>) -> (r: Option<Stream>)
        ensures
            r is Some <==> decoded(pda_pubkey@, pda_data@) is Some,
            r is Some ==> r->Some_0@ == decoded(pda_pubkey@, pda_data@)->Some_0,
            !is_payload(pda_data@) ==> r is None,
            r is Some ==> r->Some_0@.total_amount == (r->Some_0@.end_time - r->Some_0@.start_time)
                * r->Some_0@.amount_second,
    {
        match parse_payload(pda_data) {
            None => None,
            Some(data) => {
                let receiver = key_text(&data.receiver);
                let sender = key_text(&data.sender);
                Stream::from_parts(pda_pubkey, &data, receiver, sender)
            },
        }
    }

    /// Makes the record of an address, a payload's fields and the two keys
    /// as text. The total is computed with checked arithmetic: nothing is
    /// made where the duration or the total overflows.
    pub fn from_parts(pda_account: String, data: &StreamData, receiver: String, sender: String) -> (r:
        Option<Stream>)
        ensures
            r is Some <==> representable(*data),
            r is Some ==> r->Some_0@ == record_of(pda_account@, *data, receiver@, sender@),
    {
        let rate: i64 = crate::payload::reinterpret(data.amount_second);
        let duration: i64 = match data.end_time.checked_sub(data.start_time) {
            Some(d) => d,
            None => { return None; },
        };
        let total: i64 = match duration.checked_mul(rate) {
            Some(t) => t,
            None => { return None; },
        };
        Some(
            Stream {
                pda_account,
                start_time: data.start_time,
                end_time: data.end_time,
                receiver,
                lamports_withdrawn: crate::payload::reinterpret(data.lamports_withdrawn),
                amount_second: rate,
                sender,
                total_amount: total,
            },
        )
    }

    /// A second value with the same fields.
    pub fn duplicate(&self) -> (r: Stream)
        ensures
            r == *self,
    {
        Stream {
            pda_account: self.pda_account.clone(),
            start_time: self.start_time,
            end_time: self.end_time,
            receiver: self.receiver.clone(),
            lamports_withdrawn: self.lamports_withdrawn,
            amount_second: self.amount_second,
            sender: self.sender.clone(),
            total_amount: self.total_amount,
        }
    }
}

} // verus!
