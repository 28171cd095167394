//! Base58 account addresses.
use vstd::prelude::*;
use solana_pubkey::Pubkey;
use std::str::FromStr;

verus! {

/// The 32 bytes that a base58 text names, as `Pubkey::from_str` reads it, or
/// `None` where it names none.
pub uninterp spec fn base58_address(text: Seq<char>) -> Option<Seq<u8>>;

/// Calls `<solana_pubkey::Pubkey as FromStr>::from_str`. The contract claims
/// that the bytes come from the base58 reading named `base58_address`, and,
/// as the source checks first, that a text of more than 44 characters is
/// refused.
#[verifier::external_body]
pub(crate) fn address_from_str(text: &str) -> (res: Option<[u8; 32]>)
    ensures
        match res {
            Some(bytes) => base58_address(text@) == Some(bytes@),
            None => base58_address(text@) is None,
        },
        text@.len() > 44 ==> res is None,
{
    match Pubkey::from_str(text) {
        Ok(key) => Some(key.to_bytes()),
        Err(_) => None,
    }
}

} // verus!
