//! Address lookup tables: reading their addresses from account data.
use vstd::prelude::*;
use solana_address_lookup_table_interface::state::AddressLookupTable;
use crate::address::{address_from_str, base58_address};
use crate::builder::LookupTable;
use crate::nonce::u32_le_at;

verus! {

/// The bytes of an account address, one after the other.
pub open spec fn addresses_view(addresses: Seq<[u8; 32]>) -> Seq<Seq<u8>> {
    addresses.map_values(|a: [u8; 32]| a@)
}

/// The addresses that a lookup table account lists: its data starts with
/// the bincode of `ProgramState::LookupTable` (tag 1, then the 56-byte
/// metadata, whose optional authority has its tag at byte 21), and the
/// addresses follow, 32 bytes each.
pub open spec fn decoded_lookup_table(data: Seq<u8>) -> Option<Seq<Seq<u8>>> {
    if data.len() >= 56 && u32_le_at(data, 0) == 1 && data[21] <= 1 && (data.len() - 56) % 32 == 0 {
        Some(Seq::new(((data.len() - 56) / 32) as nat, |i: int| data.subrange(56 + 32 * i, 88 + 32 * i)))
    } else {
        None
    }
}

/// Calls `AddressLookupTable::deserialize` of
/// `solana_address_lookup_table_interface`. The contract claims the layout
/// its source reads: the bincode of the program state, which must be an
/// initialized table, then addresses cast from the bytes after the
/// metadata.
#[verifier::external_body]
fn decode_lookup_table(data: &[u8]) -> (res: Option<Vec<[u8; 32]>>)
    ensures
        match res {
            Some(addresses) => decoded_lookup_table(data@) == Some(addresses_view(addresses@)),
            None => decoded_lookup_table(data@) is None,
        },
{
    match AddressLookupTable::deserialize(data) {
        Ok(table) => Some(table.addresses.iter().map(|a| a.to_bytes()).collect()),
        Err(_) => None,
    }
}

/// Why a lookup table could not be used.
#[derive(Debug, Clone, PartialEq, Eq)]
pub enum LookupTableError {
    /// An entry of `addressLookupTableAddresses` is not a string.
    AddressNotAString,
    /// An entry is not the base58 text of an address.
    InvalidAddress,
    /// The table account's data is not an initialized lookup table.
    UndecodableTable,
}

/// Reads one entry of the answer's `addressLookupTableAddresses`; `None`
/// stands for an entry that is not a string.
pub fn lookup_table_address(entry: Option<&String>) -> (res: Result<[u8; 32], LookupTableError>)
    ensures
        match entry {
            None => res == Err::<[u8; 32], LookupTableError>(LookupTableError::AddressNotAString),
            Some(text) => match base58_address(text@) {
                None => res == Err::<[u8; 32], LookupTableError>(LookupTableError::InvalidAddress),
                Some(key) => res matches Ok(k) && k@ == key,
            },
        },
{
    match entry {
        None => Err(LookupTableError::AddressNotAString),
        Some(text) => match address_from_str(text.as_str()) {
            Some(k) => Ok(k),
            None => Err(LookupTableError::InvalidAddress),
        },
    }
}

/// The lookup table at `key`, read from its account data.
pub fn lookup_table_from_account(key: [u8; 32], data: &[u8]) -> (res: Result<LookupTable, LookupTableError>)
    ensures
        match decoded_lookup_table(data@) {
            None => res == Err::<LookupTable, LookupTableError>(LookupTableError::UndecodableTable),
            Some(addresses) => res matches Ok(table) && table.key == key && addresses_view(table.addresses@) == addresses,
        },
{
    match decode_lookup_table(data) {
        Some(addresses) => Ok(LookupTable { key, addresses }),
        None => Err(LookupTableError::UndecodableTable),
    }
}

} // verus!
