use rpc_bench::lookup_table::{lookup_table_address, lookup_table_from_account, LookupTableError};
use rpc_bench::nonce::{nonce_hash_from_account, FetchAnswer, FetchStep, NonceError, NonceFetch, NonceManager};
use solana_address_lookup_table_interface::state::{LookupTableMeta, ProgramState};
use solana_nonce::state::{Data, DurableNonce, State};
use solana_nonce::versions::Versions;
use solana_pubkey::Pubkey;

fn b58(bytes: [u8; 32]) -> String {
    Pubkey::new_from_array(bytes).to_string()
}

#[test]
fn nonce_manager_hands_out_accounts_in_turn() {
    let names = vec![b58([1; 32]), b58([2; 32]), b58([3; 32])];
    let mut m = NonceManager::new(&names).unwrap();
    let got: Vec<[u8; 32]> = (0..7).map(|_| m.next_nonce_account()).collect();
    assert_eq!(got, vec![[1; 32], [2; 32], [3; 32], [1; 32], [2; 32], [3; 32], [1; 32]]);
}

#[test]
fn nonce_manager_with_one_account_always_gives_it() {
    let names = vec![b58([4; 32])];
    let mut m = NonceManager::new(&names).unwrap();
    assert_eq!(m.next_nonce_account(), [4; 32]);
    assert_eq!(m.next_nonce_account(), [4; 32]);
}

#[test]
fn nonce_manager_refuses_bad_and_empty_lists() {
    let names = vec![b58([1; 32]), "invalid".to_string(), "also bad".to_string()];
    assert_eq!(
        NonceManager::new(&names).err(),
        Some(NonceError::InvalidPubkey { nonce: "invalid".to_string() })
    );
    let none: Vec<String> = vec![];
    assert_eq!(NonceManager::new(&none).err(), Some(NonceError::EmptyNonceList));
}

#[test]
fn nonce_hash_comes_from_initialized_accounts() {
    let data = Data::new(
        Pubkey::new_from_array([9; 32]),
        DurableNonce::from_blockhash(&solana_sdk::hash::Hash::new_from_array([7; 32])),
        5000,
    );
    let expected = data.blockhash().to_bytes();
    let current = bincode::serialize(&Versions::Current(Box::new(State::Initialized(data.clone())))).unwrap();
    assert_eq!(current.len(), 80);
    assert_eq!(nonce_hash_from_account(&current), Ok(expected));
    assert_eq!(&current[40..72], &expected[..]);
    let mut longer = bincode::serialize(&Versions::Legacy(Box::new(State::Initialized(data)))).unwrap();
    longer.extend_from_slice(&[1, 2, 3]);
    assert_eq!(nonce_hash_from_account(&longer), Ok(expected));
}

#[test]
fn uninitialized_and_garbage_accounts_are_refused() {
    let legacy = bincode::serialize(&Versions::Legacy(Box::new(State::Uninitialized))).unwrap();
    assert_eq!(nonce_hash_from_account(&legacy), Err(NonceError::Uninitialized { legacy: true }));
    let current = bincode::serialize(&Versions::Current(Box::new(State::Uninitialized))).unwrap();
    assert_eq!(nonce_hash_from_account(&current), Err(NonceError::Uninitialized { legacy: false }));
    assert_eq!(nonce_hash_from_account(&[1, 0, 0, 0, 1, 0, 0]), Err(NonceError::UndecodableAccount));
    assert_eq!(nonce_hash_from_account(&[2, 0, 0, 0, 0, 0, 0, 0]), Err(NonceError::UndecodableAccount));
    assert_eq!(nonce_hash_from_account(&[1, 0, 0, 0, 1, 0, 0, 0, 0]), Err(NonceError::UndecodableAccount));
}

#[test]
fn nonce_fetch_gives_up_after_three_failed_requests() {
    let mut f = NonceFetch::new();
    let mut requests = 0;
    while f.next_step() == FetchStep::RequestAccount {
        requests += 1;
        assert_eq!(f.on_request_failed(), 500);
    }
    assert_eq!(requests, 3);
    assert_eq!(f.next_step(), FetchStep::GiveUp);
}

fn fetch(answers: &[Option<Vec<u8>>]) -> (Option<Result<[u8; 32], NonceError>>, usize) {
    let mut f = NonceFetch::new();
    let mut requests = 0;
    while f.next_step() == FetchStep::RequestAccount {
        let answer = answers[requests].as_deref();
        requests += 1;
        match f.on_answer(answer) {
            FetchAnswer::Finished(outcome) => return (Some(outcome), requests),
            FetchAnswer::RetryAfter(delay) => assert_eq!(delay, 500),
        }
    }
    (None, requests)
}

#[test]
fn failed_requests_are_masked_by_retrying() {
    let data = bincode::serialize(&Versions::Current(Box::new(State::Initialized(Data::new(
        Pubkey::new_from_array([9; 32]),
        DurableNonce::from_blockhash(&solana_sdk::hash::Hash::new_from_array([7; 32])),
        5000,
    )))))
    .unwrap();
    let direct = fetch(&[Some(data.clone())]);
    assert_eq!(direct.1, 1);
    assert_eq!(fetch(&[None, None, Some(data.clone())]), (direct.0.clone(), 3));
    assert_eq!(fetch(&[None, Some(data.clone())]), (direct.0, 2));
    assert_eq!(fetch(&[None, None, None, Some(data)]), (None, 3));
}

fn table_bytes(authority: Option<Pubkey>, addresses: &[[u8; 32]]) -> Vec<u8> {
    let meta = LookupTableMeta {
        deactivation_slot: u64::MAX,
        last_extended_slot: 3,
        last_extended_slot_start_index: 1,
        authority,
        _padding: 0,
    };
    let mut data = bincode::serialize(&ProgramState::LookupTable(meta)).unwrap();
    data.resize(56, 0);
    for a in addresses {
        data.extend_from_slice(a);
    }
    data
}

#[test]
fn lookup_table_lists_its_addresses() {
    let data = table_bytes(Some(Pubkey::new_from_array([4; 32])), &[[1; 32], [2; 32]]);
    let table = lookup_table_from_account([8; 32], &data).unwrap();
    assert_eq!(table.key, [8; 32]);
    assert_eq!(table.addresses, vec![[1; 32], [2; 32]]);
    let empty = table_bytes(None, &[]);
    assert_eq!(lookup_table_from_account([8; 32], &empty).unwrap().addresses, Vec::<[u8; 32]>::new());
    assert_eq!(data[21], 1);
    assert_eq!(empty[21], 0);
}

#[test]
fn lookup_table_refuses_bad_accounts() {
    let mut ragged = table_bytes(None, &[[1; 32]]);
    ragged.push(0);
    assert_eq!(lookup_table_from_account([8; 32], &ragged).err(), Some(LookupTableError::UndecodableTable));
    let uninit = bincode::serialize(&ProgramState::Uninitialized).unwrap();
    assert_eq!(lookup_table_from_account([8; 32], &uninit).err(), Some(LookupTableError::UndecodableTable));
    let mut bad_tag = table_bytes(None, &[]);
    bad_tag[21] = 2;
    assert_eq!(lookup_table_from_account([8; 32], &bad_tag).err(), Some(LookupTableError::UndecodableTable));
}

#[test]
fn lookup_table_addresses_must_be_strings_and_addresses() {
    assert_eq!(lookup_table_address(None), Err(LookupTableError::AddressNotAString));
    let bad = "x".to_string();
    assert_eq!(lookup_table_address(Some(&bad)), Err(LookupTableError::InvalidAddress));
    let good = b58([6; 32]);
    assert_eq!(lookup_table_address(Some(&good)), Ok([6; 32]));
}
