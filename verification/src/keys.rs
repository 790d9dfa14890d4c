//! Account keys as text.

use vstd::prelude::*;

verus! {

/// The text that the ledger's tools print for a 32-byte account key: its
/// base-58 rendering.
pub uninterp spec fn base58_text(key: Seq<u8>) -> Seq<char>;

/// Renders a key as text.
///
/// Trusted: calls `Pubkey::new_from_array` and then `to_string` of
/// `solana_sdk::pubkey::Pubkey`, which writes the base-58 encoding of the 32
/// bytes. The contract claims only that the text is a function of the bytes,
/// and gives that function its name.
#[verifier::external_body]
pub(crate) fn key_text(key: &[u8; 32]) -> (text: String)
    ensures
        text@ == base58_text(key@),
{
    solana_sdk::pubkey::Pubkey::new_from_array(*key).to_string()
}

} // verus!
