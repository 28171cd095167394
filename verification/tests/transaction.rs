use base64::Engine;
use rpc_bench::builder::{build_transaction, transaction_instructions, BuildParams, LookupTable, SignedTransaction};
use rpc_bench::config::{default_jupiter_url, SenderConfig};
use rpc_bench::error::BuildError;
use rpc_bench::instruction::{AccountMeta, Instruction};
use rpc_bench::jupiter::{
    collect_swap_instructions, parse_jupiter_instruction, JupiterAccount, JupiterInstruction,
    SwapResponseError,
};
use rpc_bench::nonce::NonceInfo;
use solana_sdk::signature::Keypair;
use solana_sdk::signer::Signer;
use solana_sdk::transaction::VersionedTransaction;

const RECENT_BLOCKHASHES: [u8; 32] = [
    6, 167, 213, 23, 25, 44, 86, 142, 224, 138, 132, 95, 115, 210, 151, 136, 207, 3, 92, 49, 69,
    178, 26, 179, 68, 216, 6, 46, 169, 64, 0, 0,
];
const COMPUTE_BUDGET: [u8; 32] = [
    3, 6, 70, 111, 229, 33, 23, 50, 255, 236, 173, 186, 114, 195, 155, 231, 188, 140, 229, 187,
    197, 247, 18, 107, 44, 67, 155, 58, 64, 0, 0, 0,
];

fn b58(bytes: [u8; 32]) -> String {
    solana_pubkey::Pubkey::new_from_array(bytes).to_string()
}

fn jup_ix(program: [u8; 32], accounts: Vec<JupiterAccount>, data: &str) -> JupiterInstruction {
    JupiterInstruction {
        program_id: Some(b58(program)),
        accounts: Some(accounts),
        data: Some(data.to_string()),
    }
}

fn sender(tips: Vec<String>) -> SenderConfig {
    SenderConfig {
        name: "alpha".to_string(),
        urls: vec!["https://a.example".to_string()],
        tip_addresses: tips,
        api_key: None,
        header: None,
    }
}

fn advance(nonce: [u8; 32], payer: [u8; 32]) -> Instruction {
    Instruction {
        program_id: [0; 32],
        accounts: vec![
            AccountMeta { pubkey: nonce, is_signer: false, is_writable: true },
            AccountMeta { pubkey: RECENT_BLOCKHASHES, is_signer: false, is_writable: false },
            AccountMeta { pubkey: payer, is_signer: true, is_writable: false },
        ],
        data: vec![4, 0, 0, 0],
    }
}

fn same(a: &Instruction, b: &Instruction) -> bool {
    a.program_id == b.program_id && a.accounts == b.accounts && a.data == b.data
}

#[test]
fn default_jupiter_url_is_the_lite_api() {
    assert_eq!(default_jupiter_url(), "https://lite-api.jup.ag/swap/v1");
}

#[test]
fn known_program_ids_decode_to_the_stated_bytes() {
    let sysvar: solana_pubkey::Pubkey = "SysvarRecentB1ockHashes11111111111111111111".parse().unwrap();
    assert_eq!(sysvar.to_bytes(), RECENT_BLOCKHASHES);
    let budget: solana_pubkey::Pubkey = "ComputeBudget111111111111111111111111111111".parse().unwrap();
    assert_eq!(budget.to_bytes(), COMPUTE_BUDGET);
}

#[test]
fn jupiter_instruction_reads_addresses_flags_and_data() {
    let ix = jup_ix(
        [9; 32],
        vec![
            JupiterAccount { pubkey: Some(b58([1; 32])), is_signer: Some(true), is_writable: None },
            JupiterAccount { pubkey: Some(b58([2; 32])), is_signer: None, is_writable: Some(true) },
        ],
        "AQID",
    );
    let parsed = parse_jupiter_instruction(&ix).unwrap();
    assert_eq!(parsed.program_id, [9; 32]);
    assert_eq!(
        parsed.accounts,
        vec![
            AccountMeta { pubkey: [1; 32], is_signer: true, is_writable: false },
            AccountMeta { pubkey: [2; 32], is_signer: false, is_writable: true },
        ]
    );
    assert_eq!(parsed.data, vec![1, 2, 3]);
}

#[test]
fn jupiter_instruction_errors_come_in_order() {
    let mut ix = jup_ix([9; 32], vec![], "AQID");
    ix.program_id = None;
    ix.accounts = None;
    assert_eq!(parse_jupiter_instruction(&ix).unwrap_err(), BuildError::MissingProgramId);
    ix.program_id = Some("not-base58-0OIl".to_string());
    assert_eq!(parse_jupiter_instruction(&ix).unwrap_err(), BuildError::InvalidPubkey);
    ix.program_id = Some(b58([9; 32]));
    assert_eq!(parse_jupiter_instruction(&ix).unwrap_err(), BuildError::MissingAccounts);
    ix.accounts = Some(vec![JupiterAccount { pubkey: None, is_signer: None, is_writable: None }]);
    assert_eq!(parse_jupiter_instruction(&ix).unwrap_err(), BuildError::MissingAccountPubkey);
    ix.accounts = Some(vec![JupiterAccount { pubkey: Some("short".to_string()), is_signer: None, is_writable: None }]);
    assert_eq!(parse_jupiter_instruction(&ix).unwrap_err(), BuildError::InvalidPubkey);
    ix.accounts = Some(vec![]);
    ix.data = None;
    assert_eq!(parse_jupiter_instruction(&ix).unwrap_err(), BuildError::MissingData);
    ix.data = Some("***".to_string());
    assert_eq!(parse_jupiter_instruction(&ix).unwrap_err(), BuildError::InvalidInstructionData);
    ix.data = Some(String::new());
    assert_eq!(parse_jupiter_instruction(&ix).unwrap().data, Vec::<u8>::new());
}

#[test]
fn instructions_are_framed_by_two_nonce_advances() {
    let payer = [7u8; 32];
    let nonce = NonceInfo { pubkey: [5; 32], blockhash: [6; 32] };
    let jups = vec![jup_ix([9; 32], vec![], "AQID")];
    let params = BuildParams { cu_price: 100, tip: None, jup_ixs: &jups, cu_limit: 257, lookup_tables: vec![] };
    let name = "alpha".to_string();
    let ixs = transaction_instructions(&payer, &nonce, &name, None, &params).unwrap();
    assert_eq!(ixs.len(), 5);
    assert!(same(&ixs[0], &advance([5; 32], payer)));
    assert_eq!(ixs[1].program_id, COMPUTE_BUDGET);
    assert!(ixs[1].accounts.is_empty());
    assert_eq!(ixs[1].data, vec![2, 1, 1, 0, 0]);
    assert_eq!(ixs[2].program_id, COMPUTE_BUDGET);
    assert_eq!(ixs[2].data, vec![3, 100, 0, 0, 0, 0, 0, 0, 0]);
    assert_eq!(ixs[3].program_id, [9; 32]);
    assert_eq!(ixs[3].data, vec![1, 2, 3]);
    assert!(same(&ixs[4], &advance([5; 32], payer)));
}

#[test]
fn tip_is_paid_before_the_final_advance() {
    let payer = [7u8; 32];
    let nonce = NonceInfo { pubkey: [5; 32], blockhash: [6; 32] };
    let jups: Vec<JupiterInstruction> = vec![];
    let params = BuildParams { cu_price: 1, tip: Some(1_000_000), jup_ixs: &jups, cu_limit: 1, lookup_tables: vec![] };
    let name = "alpha".to_string();
    let tip_to = b58([8; 32]);
    let ixs = transaction_instructions(&payer, &nonce, &name, Some(&tip_to), &params).unwrap();
    assert_eq!(ixs.len(), 5);
    let transfer = &ixs[3];
    assert_eq!(transfer.program_id, [0; 32]);
    assert_eq!(
        transfer.accounts,
        vec![
            AccountMeta { pubkey: payer, is_signer: true, is_writable: true },
            AccountMeta { pubkey: [8; 32], is_signer: false, is_writable: true },
        ]
    );
    assert_eq!(transfer.data, vec![2, 0, 0, 0, 0x40, 0x42, 0x0f, 0, 0, 0, 0, 0]);
    assert!(same(&ixs[4], &advance([5; 32], payer)));
}

#[test]
fn invalid_tip_address_names_address_and_sender() {
    let payer = [7u8; 32];
    let nonce = NonceInfo { pubkey: [5; 32], blockhash: [6; 32] };
    let jups: Vec<JupiterInstruction> = vec![];
    let params = BuildParams { cu_price: 1, tip: Some(5), jup_ixs: &jups, cu_limit: 1, lookup_tables: vec![] };
    let name = "alpha".to_string();
    let bad = "nope".to_string();
    let err = transaction_instructions(&payer, &nonce, &name, Some(&bad), &params).unwrap_err();
    assert_eq!(err, BuildError::InvalidTipAddress { address: "nope".to_string(), sender: "alpha".to_string() });
}

#[test]
fn jupiter_errors_win_over_tip_errors() {
    let payer = [7u8; 32];
    let nonce = NonceInfo { pubkey: [5; 32], blockhash: [6; 32] };
    let jups = vec![JupiterInstruction { program_id: None, accounts: None, data: None }];
    let params = BuildParams { cu_price: 1, tip: Some(5), jup_ixs: &jups, cu_limit: 1, lookup_tables: vec![] };
    let name = "alpha".to_string();
    let bad = "nope".to_string();
    let err = transaction_instructions(&payer, &nonce, &name, Some(&bad), &params).unwrap_err();
    assert_eq!(err, BuildError::MissingProgramId);
}

fn decoded(tx: &SignedTransaction) -> VersionedTransaction {
    bincode::deserialize(&tx.wire_bytes()).unwrap()
}

#[test]
fn built_transaction_is_signed_by_the_payer() {
    let payer = Keypair::new();
    let secret = *payer.secret_bytes();
    let nonce = NonceInfo { pubkey: [5; 32], blockhash: [6; 32] };
    let jups = vec![jup_ix([9; 32], vec![JupiterAccount { pubkey: Some(b58([1; 32])), is_signer: None, is_writable: Some(true) }], "AQID")];
    let tip_to = b58([8; 32]);
    let params = BuildParams {
        cu_price: 100,
        tip: Some(10),
        jup_ixs: &jups,
        cu_limit: 200_000,
        lookup_tables: vec![LookupTable { key: [3; 32], addresses: vec![[1; 32]] }],
    };
    let tx = build_transaction(&secret, &nonce, &sender(vec![tip_to]), params).unwrap();
    let sdk = decoded(&tx);
    assert_eq!(bincode::serialize(&sdk).unwrap(), tx.wire_bytes());
    assert_eq!(sdk.message.serialize(), tx.message);
    assert_eq!(sdk.signatures.len(), 1);
    assert_eq!(<[u8; 64]>::from(sdk.signatures[0]), tx.signature);
    assert!(sdk.signatures[0].verify(payer.pubkey().as_ref(), &sdk.message.serialize()));
    assert_eq!(sdk.message.static_account_keys()[0], payer.pubkey());
    assert_eq!(sdk.message.instructions().len(), 6);
    assert_eq!(sdk.message.recent_blockhash().to_bytes(), [6; 32]);
    assert!(sdk.uses_durable_nonce());
}

#[test]
fn building_is_deterministic_for_one_tip_address() {
    let payer = Keypair::new();
    let secret = *payer.secret_bytes();
    let nonce = NonceInfo { pubkey: [5; 32], blockhash: [6; 32] };
    let jups: Vec<JupiterInstruction> = vec![];
    let build = || {
        let params = BuildParams { cu_price: 3, tip: Some(7), jup_ixs: &jups, cu_limit: 9, lookup_tables: vec![] };
        build_transaction(&secret, &nonce, &sender(vec![b58([8; 32]), b58([8; 32])]), params).unwrap()
    };
    let (first, second) = (build(), build());
    assert_eq!(first.signature, second.signature);
    assert_eq!(first.message, second.message);
}

#[test]
fn no_tip_means_no_transfer_even_with_tip_addresses() {
    let payer = Keypair::new();
    let secret = *payer.secret_bytes();
    let nonce = NonceInfo { pubkey: [5; 32], blockhash: [6; 32] };
    let jups = vec![jup_ix([9; 32], vec![], "AQID")];
    let params = BuildParams { cu_price: 1, tip: None, jup_ixs: &jups, cu_limit: 1, lookup_tables: vec![] };
    let tx = build_transaction(&secret, &nonce, &sender(vec![b58([8; 32])]), params).unwrap();
    assert_eq!(decoded(&tx).message.instructions().len(), 5);
    let name = "alpha".to_string();
    let tip_to = b58([8; 32]);
    let params = BuildParams { cu_price: 1, tip: None, jup_ixs: &jups, cu_limit: 1, lookup_tables: vec![] };
    let ixs = transaction_instructions(&payer.pubkey().to_bytes(), &nonce, &name, Some(&tip_to), &params).unwrap();
    assert_eq!(ixs.len(), 5);
    assert!(same(&ixs[4], &advance([5; 32], payer.pubkey().to_bytes())));
}

#[test]
fn built_transaction_reports_bad_tip_address() {
    let secret = *Keypair::new().secret_bytes();
    let nonce = NonceInfo { pubkey: [5; 32], blockhash: [6; 32] };
    let jups: Vec<JupiterInstruction> = vec![];
    for tip in [Some(1), None] {
        let params = BuildParams { cu_price: 1, tip, jup_ixs: &jups, cu_limit: 1, lookup_tables: vec![] };
        let err = build_transaction(&secret, &nonce, &sender(vec!["bad".to_string()]), params).unwrap_err();
        assert_eq!(err, BuildError::InvalidTipAddress { address: "bad".to_string(), sender: "alpha".to_string() });
    }
}

#[test]
fn extra_signer_cannot_be_signed_for() {
    let secret = *Keypair::new().secret_bytes();
    let nonce = NonceInfo { pubkey: [5; 32], blockhash: [6; 32] };
    let jups = vec![jup_ix([9; 32], vec![JupiterAccount { pubkey: Some(b58([1; 32])), is_signer: Some(true), is_writable: None }], "")];
    let params = BuildParams { cu_price: 1, tip: None, jup_ixs: &jups, cu_limit: 1, lookup_tables: vec![] };
    let err = build_transaction(&secret, &nonce, &sender(vec![]), params).unwrap_err();
    assert_eq!(err, BuildError::SigningFailed);
}

#[test]
fn wire_bytes_are_one_signature_then_the_message() {
    let tx = SignedTransaction { signature: [4; 64], message: vec![0x80, 1, 2] };
    let wire = tx.wire_bytes();
    assert_eq!(wire.len(), 68);
    assert_eq!(wire[0], 1);
    assert_eq!(&wire[1..65], &[4u8; 64][..]);
    assert_eq!(&wire[65..], &[0x80, 1, 2][..]);
}

#[test]
fn swap_instructions_keep_setup_swap_cleanup_order() {
    let a = jup_ix([1; 32], vec![], "");
    let b = jup_ix([2; 32], vec![], "");
    let c = jup_ix([3; 32], vec![], "");
    let all = collect_swap_instructions(Some(vec![a]), Some(b), Some(c)).unwrap();
    let ids: Vec<Option<String>> = all.iter().map(|i| i.program_id.clone()).collect();
    assert_eq!(ids, vec![Some(b58([1; 32])), Some(b58([2; 32])), Some(b58([3; 32]))]);
    let only = collect_swap_instructions(None, Some(jup_ix([2; 32], vec![], "")), None).unwrap();
    assert_eq!(only.len(), 1);
    assert_eq!(
        collect_swap_instructions(Some(vec![]), None, None).unwrap_err(),
        SwapResponseError::MissingSwapInstruction
    );
}

#[test]
fn too_many_accounts_cannot_be_compiled() {
    let secret = *Keypair::new().secret_bytes();
    let nonce = NonceInfo { pubkey: [5; 32], blockhash: [6; 32] };
    let accounts: Vec<JupiterAccount> = (0..300u32)
        .map(|i| {
            let mut key = [7u8; 32];
            key[0] = (i % 256) as u8;
            key[1] = (i / 256) as u8;
            JupiterAccount { pubkey: Some(b58(key)), is_signer: None, is_writable: Some(true) }
        })
        .collect();
    let jups = vec![jup_ix([9; 32], accounts, "")];
    let params = BuildParams { cu_price: 1, tip: None, jup_ixs: &jups, cu_limit: 1, lookup_tables: vec![] };
    let err = build_transaction(&secret, &nonce, &sender(vec![]), params).unwrap_err();
    assert_eq!(err, BuildError::CompileFailed);
}

#[test]
fn oversized_instruction_data_is_refused() {
    let secret = *Keypair::new().secret_bytes();
    let nonce = NonceInfo { pubkey: [5; 32], blockhash: [6; 32] };
    let data = base64::engine::general_purpose::STANDARD.encode(vec![0u8; 65536]);
    let jups = vec![jup_ix([9; 32], vec![], &data)];
    let params = BuildParams { cu_price: 1, tip: None, jup_ixs: &jups, cu_limit: 1, lookup_tables: vec![] };
    let err = build_transaction(&secret, &nonce, &sender(vec![]), params).unwrap_err();
    assert_eq!(err, BuildError::MessageTooLarge);
    let fits = base64::engine::general_purpose::STANDARD.encode(vec![0u8; 1000]);
    let jups = vec![jup_ix([9; 32], vec![], &fits)];
    let params = BuildParams { cu_price: 1, tip: None, jup_ixs: &jups, cu_limit: 1, lookup_tables: vec![] };
    assert!(build_transaction(&secret, &nonce, &sender(vec![]), params).is_ok());
}

#[test]
fn instruction_data_must_be_canonical_base64() {
    let mut ix = jup_ix([9; 32], vec![], "AQ==");
    assert_eq!(parse_jupiter_instruction(&ix).unwrap().data, vec![1]);
    for bad in ["AQ", "AR==", "AQ=", " AQ==", "AQ==\n"] {
        ix.data = Some(bad.to_string());
        assert_eq!(parse_jupiter_instruction(&ix).unwrap_err(), BuildError::InvalidInstructionData, "{}", bad);
    }
}
