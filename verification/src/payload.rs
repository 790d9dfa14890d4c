//! The fixed binary layout of a stream account's payload.

use vstd::prelude::*;

verus! {

/// Number of bytes in a well-formed payload.
pub const PAYLOAD_LEN: usize = 96;

/// The fields of one payload, as the bytes hold them.
#[derive(Clone, Copy, Debug, PartialEq, Eq)]
pub struct StreamData {
    pub start_time: i64,
    pub end_time: i64,
    pub receiver: [u8; 32],
    pub lamports_withdrawn: u64,
    pub amount_second: u64,
    pub sender: [u8; 32],
}

/// The unsigned number that the eight bytes from `at` on spell, lowest byte first.
pub open spec fn le_u64(s: Seq<u8>, at: int) -> int {
    s[at] as int + s[at + 1] as int * 0x100 + s[at + 2] as int * 0x1_0000 + s[at + 3] as int
        * 0x100_0000 + s[at + 4] as int * 0x1_0000_0000 + s[at + 5] as int * 0x100_0000_0000 + s[at
        + 6] as int * 0x1_0000_0000_0000 + s[at + 7] as int * 0x100_0000_0000_0000
}

/// The two's complement reading of an unsigned 64-bit number.
pub open spec fn signed64(u: int) -> int {
    if u < 0x8000_0000_0000_0000 {
        u
    } else {
        u - 0x1_0000_0000_0000_0000
    }
}

/// The signed number that the eight bytes from `at` on spell, lowest byte first.
pub open spec fn le_i64(s: Seq<u8>, at: int) -> int {
    signed64(le_u64(s, at))
}

/// `data` holds exactly what the layout reads out of `bytes`:
/// start time, end time, receiver key, withdrawn amount, rate, sender key,
/// one after the other without padding.
pub open spec fn describes(data: StreamData, bytes: Seq<u8>) -> bool {
    &&& data.start_time == le_i64(bytes, 0)
    &&& data.end_time == le_i64(bytes, 8)
    &&& data.receiver@ == bytes.subrange(16, 48)
    &&& data.lamports_withdrawn == le_u64(bytes, 48)
    &&& data.amount_second == le_u64(bytes, 56)
    &&& data.sender@ == bytes.subrange(64, 96)
}

/// Whether `bytes` has the length of a payload; every such sequence is one.
pub open spec fn is_payload(bytes: Seq<u8>) -> bool {
    bytes.len() == PAYLOAD_LEN
}

fn read_u64(bytes: &Vec<u8>, at: usize) -> (r: u64)
    requires
        at + 8 <= bytes.len(),
    ensures
        r == le_u64(bytes@, at as int),
{
    let b0: u64 = bytes[at] as u64;
    let b1: u64 = bytes[at + 1] as u64;
    let b2: u64 = bytes[at + 2] as u64;
    let b3: u64 = bytes[at + 3] as u64;
    let b4: u64 = bytes[at + 4] as u64;
    let b5: u64 = bytes[at + 5] as u64;
    let b6: u64 = bytes[at + 6] as u64;
    let b7: u64 = bytes[at + 7] as u64;
    b0 + b1 * 0x100 + b2 * 0x1_0000 + b3 * 0x100_0000 + b4 * 0x1_0000_0000 + b5
        * 0x100_0000_0000 + b6 * 0x1_0000_0000_0000 + b7 * 0x100_0000_0000_0000
}

/// Reads a 64-bit pattern as a signed number.
pub fn reinterpret(u: u64) -> (r: i64)
    ensures
        r == signed64(u as int),
{
    if u < 0x8000_0000_0000_0000 {
        u as i64
    } else {
        let low: i64 = (u - 0x8000_0000_0000_0000) as i64;
        low + i64::MIN
    }
}

fn read_key(bytes: &Vec<u8>, at: usize) -> (key: [u8; 32])
    requires
        at + 32 <= bytes.len(),
    ensures
        key@ == bytes@.subrange(at as int, at + 32),
{
    let mut key: [u8; 32] = [0u8; 32];
    let mut i: usize = 0;
    while i < 32
        invariant
            i <= 32,
            at + 32 <= bytes.len(),
            forall|j: int| 0 <= j < i ==> key@[j] == bytes@[at + j],
        decreases 32 - i,
    {
        key[i] = bytes[at + i];
        i += 1;
    }
    assert(key@ =~= bytes@.subrange(at as int, at + 32));
    key
}

/// Reads the fields out of a payload. A payload has exactly `PAYLOAD_LEN`
/// bytes; a shorter or longer sequence is rejected, and every sequence of
/// that length is read.
pub fn parse_payload(bytes: &Vec<u8>) -> (r: Option<StreamData>)
    ensures
        r is Some <==> is_payload(bytes@),
        r is Some ==> describes(r->Some_0, bytes@),
{
    if bytes.len() != PAYLOAD_LEN {
        return None;
    }
    let start: u64 = read_u64(bytes, 0);
    let end: u64 = read_u64(bytes, 8);
    let receiver = read_key(bytes, 16);
    let lamports_withdrawn: u64 = read_u64(bytes, 48);
    let amount_second: u64 = read_u64(bytes, 56);
    let sender = read_key(bytes, 64);
    Some(
        StreamData {
            start_time: reinterpret(start),
            end_time: reinterpret(end),
            receiver,
            lamports_withdrawn,
            amount_second,
            sender,
        },
    )
}

} // verus!
