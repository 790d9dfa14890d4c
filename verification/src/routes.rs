//! The read-only queries over the table.

use vstd::prelude::*;
use crate::models::Stream;
use crate::store::{received_by, rows_of, sent_by, StreamTable};

verus! {

/// The answer to a query for one key: the streams it sends and the streams
/// it receives.
#[derive(Debug, PartialEq, Eq)]
pub struct StreamReply {
    pub status: String,
    pub sending: Vec<Stream>,
    pub receiving: Vec<Stream>,
}

/// The liveness text.
pub fn index() -> (text: &'static str)
    ensures
        text@ == "Hello, world!"@,
{
    "Hello, world!"
}

/// Answers a query for `pubkey`: the rows that it sends and the rows that
/// it receives, each in the table's order. The status is always
/// `"success"`; a key that the table does not know gets two empty lists.
pub fn get_all_stream(pubkey: &str, table: &StreamTable) -> (reply: StreamReply)
    ensures
        reply.status@ == "success"@,
        rows_of(reply.sending@) == sent_by(table@, pubkey@),
        rows_of(reply.receiving@) == received_by(table@, pubkey@),
{
    let key: String = pubkey.to_owned();
    StreamReply {
        status: "success".to_owned(),
        sending: Stream::get_all_with_sender(&key, table),
        receiving: Stream::get_all_with_receiver(&key, table),
    }
}

} // verus!
