//! Assembling and signing the benchmark transaction.
#![allow(deprecated)]
use vstd::prelude::*;
use rand::seq::SliceRandom;
use solana_pubkey::Pubkey;
use solana_sdk::instruction::AccountMeta as SdkAccountMeta;
use solana_sdk::instruction::Instruction as SdkInstruction;
use solana_sdk::message::v0::Message as V0Message;
use solana_sdk::message::AddressLookupTableAccount;
use solana_sdk::signature::Keypair;
use solana_sdk::signer::Signer;
use crate::address::{address_from_str, base58_address};
use crate::config::SenderConfig;
use crate::error::{BuildError, BuildErrorView};
use crate::instruction::{
    Instruction, InstructionView, advance_nonce_account, advance_nonce_instruction,
    compute_unit_limit_instruction, compute_unit_price_instruction, instructions_view,
    set_compute_unit_limit, set_compute_unit_price, transfer, transfer_instruction,
};
use crate::jupiter::{
    JupiterInstruction, JupiterInstructionView, instruction_result_view, lemma_instruction_read,
    parse_jupiter_instruction, spec_parse_jupiter_instruction,
};
use crate::lookup_table::addresses_view;
use crate::nonce::NonceInfo;

verus! {

/// An address lookup table: its own address and the addresses it lists.
#[derive(Debug, Clone)]
pub struct LookupTable {
    pub key: [u8; 32],
    pub addresses: Vec<[u8; 32]>,
}

/// What a transaction is built from besides the payer, the nonce and the
/// sender.
pub struct BuildParams<'a> {
    pub cu_price: u64,
    pub tip: Option<u64>,
    pub jup_ixs: &'a [JupiterInstruction],
    pub cu_limit: u32,
    pub lookup_tables: Vec<LookupTable>,
}

/// The Jupiter instructions read in order: the first one that fails decides
/// the error.
pub open spec fn spec_parse_jupiter_instructions(ixs: Seq<JupiterInstructionView>) -> Result<Seq<InstructionView>, BuildErrorView>
    decreases ixs.len(),
{
    if ixs.len() == 0 {
        Ok(seq![])
    } else {
        match spec_parse_jupiter_instructions(ixs.drop_last()) {
            Err(e) => Err(e),
            Ok(parsed) => match spec_parse_jupiter_instruction(ixs.last()) {
                Err(e) => Err(e),
                Ok(ix) => Ok(parsed.push(ix)),
            },
        }
    }
}

pub open spec fn jupiter_views(ixs: Seq<JupiterInstruction>) -> Seq<JupiterInstructionView> {
    ixs.map_values(|ix: JupiterInstruction| ix@)
}

/// The instructions of a benchmark transaction, in order: advance the nonce,
/// cap the compute units, price them, the Jupiter instructions, a tip to the
/// drawn address when an address was drawn and a tip is configured, and a
/// second advance of the nonce, which makes the transaction fail on chain by
/// design. A drawn address that is not an address is refused, tip or not.
pub open spec fn spec_transaction_instructions(
    payer: Seq<u8>,
    nonce: Seq<u8>,
    sender: Seq<char>,
    tip_address: Option<Seq<char>>,
    tip: Option<u64>,
    cu_limit: u32,
    cu_price: u64,
    jup_ixs: Seq<JupiterInstructionView>,
) -> Result<Seq<InstructionView>, BuildErrorView> {
    match spec_parse_jupiter_instructions(jup_ixs) {
        Err(e) => Err(e),
        Ok(parsed) => {
            let head = seq![
                advance_nonce_instruction(nonce, payer),
                compute_unit_limit_instruction(cu_limit),
                compute_unit_price_instruction(cu_price),
            ];
            match tip_address {
                None => Ok(head + parsed + seq![advance_nonce_instruction(nonce, payer)]),
                Some(address) => match base58_address(address) {
                    None => Err(BuildErrorView::InvalidTipAddress { address, sender }),
                    Some(to) => match tip {
                        Some(lamports) => Ok(
                            head + parsed + seq![
                                transfer_instruction(payer, to, lamports),
                                advance_nonce_instruction(nonce, payer),
                            ],
                        ),
                        None => Ok(head + parsed + seq![advance_nonce_instruction(nonce, payer)]),
                    },
                },
            }
        },
    }
}

pub open spec fn instructions_result_view(r: Result<Vec<Instruction>, BuildError>) -> Result<Seq<InstructionView>, BuildErrorView> {
    match r {
        Ok(v) => Ok(instructions_view(v@)),
        Err(e) => Err(e@),
    }
}

/// Once a prefix of the Jupiter instructions fails, every longer prefix
/// fails with the same error.
proof fn lemma_parse_prefix_err(s: Seq<JupiterInstructionView>, k: int)
    requires
        0 <= k <= s.len(),
        spec_parse_jupiter_instructions(s.take(k)) is Err,
    ensures
        spec_parse_jupiter_instructions(s) == spec_parse_jupiter_instructions(s.take(k)),
    decreases s.len() - k,
{
    if k < s.len() {
        assert(s.take(k + 1).drop_last() =~= s.take(k));
        lemma_parse_prefix_err(s, k + 1);
    } else {
        assert(s.take(k) =~= s);
    }
}

/// Reads the Jupiter instructions in order; the first one that fails gives
/// the error.
#[verifier::loop_isolation(false)]
pub fn parse_jupiter_instructions(ixs: &[JupiterInstruction]) -> (res: Result<Vec<Instruction>, BuildError>)
    ensures
        instructions_result_view(res) == spec_parse_jupiter_instructions(jupiter_views(ixs@)),
{
    let ghost src = jupiter_views(ixs@);
    let mut parsed: Vec<Instruction> = Vec::new();
    assert(src.take(0) =~= Seq::<JupiterInstructionView>::empty());
    assert(instructions_view(parsed@) =~= Seq::<InstructionView>::empty());
    let n = ixs.len();
    for i in 0..n
        invariant
            n == ixs@.len(),
            src == jupiter_views(ixs@),
            spec_parse_jupiter_instructions(src.take(i as int)) == Ok::<Seq<InstructionView>, BuildErrorView>(
                instructions_view(parsed@),
            ),
    {
        assert(src.take(i + 1).drop_last() =~= src.take(i as int));
        assert(src.take(i + 1).last() == ixs@[i as int]@);
        let ghost before = parsed@;
        match parse_jupiter_instruction(&ixs[i]) {
            Ok(ix) => {
                parsed.push(ix);
                assert(instructions_view(parsed@) =~= instructions_view(before).push(ix@));
            },
            Err(e) => {
                assert(spec_parse_jupiter_instructions(src.take(i + 1)) == Err::<Seq<InstructionView>, BuildErrorView>(e@));
                proof {
                    lemma_parse_prefix_err(src, i + 1);
                }
                return Err(e);
            },
        }
    }
    assert(src.take(n as int) =~= src);
    Ok(parsed)
}


/// A drawn tip address as a character sequence.
pub open spec fn opt_string_view(o: Option<&String>) -> Option<Seq<char>> {
    match o {
        Some(s) => Some(s@),
        None => None,
    }
}

/// Lists the instructions of the transaction for `payer`, using the nonce of
/// `nonce_info`, and the tip address already drawn for the sender, if any.
pub fn transaction_instructions(
    payer: &[u8; 32],
    nonce_info: &NonceInfo,
    sender_name: &String,
    tip_address: Option<&String>,
    params: &BuildParams,
) -> (res: Result<Vec<Instruction>, BuildError>)
    ensures
        instructions_result_view(res) == spec_transaction_instructions(
            payer@,
            nonce_info.pubkey@,
            sender_name@,
            opt_string_view(tip_address),
            params.tip,
            params.cu_limit,
            params.cu_price,
            jupiter_views(params.jup_ixs@),
        ),
{
    let ghost advance = advance_nonce_instruction(nonce_info.pubkey@, payer@);
    let mut instructions: Vec<Instruction> = Vec::new();
    instructions.push(advance_nonce_account(&nonce_info.pubkey, payer));
    instructions.push(set_compute_unit_limit(params.cu_limit));
    instructions.push(set_compute_unit_price(params.cu_price));
    let ghost head = instructions_view(instructions@);
    assert(head =~= seq![
        advance,
        compute_unit_limit_instruction(params.cu_limit),
        compute_unit_price_instruction(params.cu_price),
    ]);
    let mut parsed = match parse_jupiter_instructions(params.jup_ixs) {
        Ok(p) => p,
        Err(e) => return Err(e),
    };
    let ghost parsed_view = instructions_view(parsed@);
    instructions.append(&mut parsed);
    assert(instructions_view(instructions@) =~= head + parsed_view);
    if let Some(address) = tip_address {
        let to = match address_from_str(address.as_str()) {
            Some(k) => k,
            None => {
                return Err(BuildError::InvalidTipAddress { address: address.clone(), sender: sender_name.clone() });
            },
        };
        if let Some(lamports) = params.tip {
            instructions.push(transfer(payer, &to, lamports));
            instructions.push(advance_nonce_account(&nonce_info.pubkey, payer));
            assert(instructions_view(instructions@) =~= head + parsed_view + seq![
                transfer_instruction(payer@, to@, lamports),
                advance,
            ]);
            return Ok(instructions);
        }
    }
    instructions.push(advance_nonce_account(&nonce_info.pubkey, payer));
    assert(instructions_view(instructions@) =~= head + parsed_view + seq![advance]);
    Ok(instructions)
}

/// A signed benchmark transaction: the payer's signature and the serialized
/// v0 message it signs.
#[derive(Debug, Clone)]
pub struct SignedTransaction {
    pub signature: [u8; 64],
    pub message: Vec<u8>,
}

pub struct SignedTransactionView {
    pub signature: Seq<u8>,
    pub message: Seq<u8>,
}

impl View for SignedTransaction {
    type V = SignedTransactionView;

    open spec fn view(&self) -> SignedTransactionView {
        SignedTransactionView { signature: self.signature@, message: self.message@ }
    }
}

/// The bincode bytes of a versioned transaction with one signature: the
/// `short_vec` length 1 in one byte, the 64 signature bytes, then the
/// message's own serialization.
pub open spec fn transaction_wire(signature: Seq<u8>, message: Seq<u8>) -> Seq<u8> {
    seq![1u8] + signature + message
}

/// Reading a one-signature transaction back from its bytes: the signature
/// and the message, or `None` when the bytes do not start that way.
pub open spec fn parse_transaction_wire(wire: Seq<u8>) -> Option<(Seq<u8>, Seq<u8>)> {
    if wire.len() >= 65 && wire[0] == 1 {
        Some((wire.subrange(1, 65), wire.subrange(65, wire.len() as int)))
    } else {
        None
    }
}

impl SignedTransaction {
    /// The transaction's bytes on the wire.
    pub fn wire_bytes(&self) -> (wire: Vec<u8>)
        ensures
            wire@ == transaction_wire(self.signature@, self.message@),
    {
        let mut wire: Vec<u8> = Vec::new();
        wire.push(1u8);
        let mut i: usize = 0;
        while i < 64
            invariant
                i <= 64,
                wire@ == seq![1u8] + self.signature@.take(i as int),
            decreases 64 - i,
        {
            wire.push(self.signature[i]);
            assert(self.signature@.take(i + 1) =~= self.signature@.take(i as int).push(self.signature@[i as int]));
            i = i + 1;
        }
        assert(self.signature@.take(64) =~= self.signature@);
        let n = self.message.len();
        for j in 0..n
            invariant
                n == self.message@.len(),
                wire@ == seq![1u8] + self.signature@ + self.message@.take(j as int),
        {
            wire.push(self.message[j]);
            assert(self.message@.take(j + 1) =~= self.message@.take(j as int).push(self.message@[j as int]));
        }
        assert(self.message@.take(n as int) =~= self.message@);
        wire
    }
}

/// The bytes of a transaction give back exactly its signature and message.
pub proof fn lemma_wire_round_trip(signature: Seq<u8>, message: Seq<u8>)
    requires
        signature.len() == 64,
    ensures
        parse_transaction_wire(transaction_wire(signature, message)) == Some((signature, message)),
{
    let wire = transaction_wire(signature, message);
    assert(wire.subrange(1, 65) =~= signature);
    assert(wire.subrange(65, wire.len() as int) =~= message);
}

/// The address of the keypair whose 32-byte secret key is `secret`: the
/// ed25519 public key that `Keypair::new_from_array(secret).pubkey()` of
/// `solana_keypair` gives.
pub uninterp spec fn keypair_address(secret: Seq<u8>) -> Seq<u8>;

/// Calls `Signer::pubkey` on `Keypair::new_from_array(secret)`; building the
/// keypair from its secret cannot fail. The contract claims that the result
/// is the address named `keypair_address`.
#[verifier::external_body]
fn payer_address(secret: &[u8; 32]) -> (address: [u8; 32])
    ensures
        address@ == keypair_address(secret@),
{
    Keypair::new_from_array(*secret).pubkey().to_bytes()
}

/// The ed25519 signature of `message` under the secret key `secret`, as
/// `Keypair::sign_message` of `solana_keypair` computes it (ed25519 signing
/// is deterministic).
pub uninterp spec fn ed25519_signature(secret: Seq<u8>, message: Seq<u8>) -> Seq<u8>;

/// Calls `Signer::sign_message` on `Keypair::new_from_array(secret)`. The
/// contract claims that the result is the signature named
/// `ed25519_signature`.
#[verifier::external_body]
fn sign_message(secret: &[u8; 32], message: &[u8]) -> (signature: [u8; 64])
    ensures
        signature@ == ed25519_signature(secret@, message@),
{
    Keypair::new_from_array(*secret).sign_message(message).into()
}

/// A lookup table as plain values: its address and the addresses it lists.
pub open spec fn tables_view(tables: Seq<LookupTable>) -> Seq<(Seq<u8>, Seq<Seq<u8>>)> {
    tables.map_values(|t: LookupTable| (t.key@, addresses_view(t.addresses@)))
}

/// What `v0::Message::try_compile` of `solana_message` makes of the payer,
/// the instructions, the lookup tables and the blockhash: `None` where it
/// fails, and otherwise the message's serialization (as
/// `VersionedMessage::serialize` writes it, the bytes that are signed) with
/// the number of signatures its header requires.
pub uninterp spec fn compiled_v0_message(
    payer: Seq<u8>,
    instructions: Seq<InstructionView>,
    tables: Seq<(Seq<u8>, Seq<Seq<u8>>)>,
    blockhash: Seq<u8>,
) -> Option<(Seq<u8>, u8)>;

/// A message writes the number of its instructions, and of each
/// instruction's accounts and data bytes, as a `short_vec` length, which
/// holds at most 65535.
pub open spec fn fits_short_vec(ixs: Seq<InstructionView>) -> bool {
    &&& ixs.len() <= 65535
    &&& forall|i: int| 0 <= i < ixs.len() ==> (#[trigger] ixs[i]).accounts.len() <= 65535 && ixs[i].data.len() <= 65535
}

/// Whether the instructions fit the message's `short_vec` lengths.
fn instructions_fit(ixs: &Vec<Instruction>) -> (ok: bool)
    ensures
        ok == fits_short_vec(instructions_view(ixs@)),
{
    let ghost v = instructions_view(ixs@);
    if ixs.len() > 65535 {
        return false;
    }
    let n = ixs.len();
    for i in 0..n
        invariant
            n == ixs@.len(),
            n <= 65535,
            v == instructions_view(ixs@),
            forall|j: int| 0 <= j < i ==> (#[trigger] v[j]).accounts.len() <= 65535 && v[j].data.len() <= 65535,
    {
        assert(v[i as int] == ixs@[i as int]@);
        if ixs[i].accounts.len() > 65535 || ixs[i].data.len() > 65535 {
            return false;
        }
    }
    true
}

/// Calls `v0::Message::try_compile` on the instructions and lookup tables,
/// rebuilt as the SDK's types from their bytes, and reads the compiled
/// message's serialization (as its own `serialize` writes it, with the
/// version prefix) and required signature count. The contract
/// claims that these are what `compiled_v0_message` names. `serialize`
/// panics on a `short_vec` length above 65535; compilation keeps the
/// instruction count and each instruction's account and data counts, and
/// bounds the other lists by the 256 account indexes, so `requires` leaves
/// those inputs out.
#[verifier::external_body]
fn compile_v0_message(
    payer: &[u8; 32],
    instructions: &Vec<Instruction>,
    lookup_tables: &Vec<LookupTable>,
    blockhash: &[u8; 32],
) -> (res: Option<(Vec<u8>, u8)>)
    requires
        fits_short_vec(instructions_view(instructions@)),
    ensures
        match res {
            Some((message, required)) => compiled_v0_message(
                payer@,
                instructions_view(instructions@),
                tables_view(lookup_tables@),
                blockhash@,
            ) == Some((message@, required)),
            None => compiled_v0_message(
                payer@,
                instructions_view(instructions@),
                tables_view(lookup_tables@),
                blockhash@,
            ) is None,
        },
{
    let ixs: Vec<SdkInstruction> = instructions.iter().map(|ix| SdkInstruction::new_with_bytes(
        ix.program_id.into(),
        &ix.data,
        ix.accounts.iter().map(|a| SdkAccountMeta { pubkey: a.pubkey.into(), is_signer: a.is_signer, is_writable: a.is_writable }).collect()
    )).collect();
    let tables: Vec<AddressLookupTableAccount> = lookup_tables.iter().map(|t| AddressLookupTableAccount {
        key: t.key.into(),
        addresses: t.addresses.iter().copied().map(Pubkey::from).collect()
    }).collect();
    V0Message::try_compile(&Pubkey::from(*payer), &ixs, &tables, (*blockhash).into()).ok().map(|m| (m.serialize(), m.header.num_required_signatures))
}

/// Calls `SliceRandom::choose` of the `rand` crate with the thread's random
/// generator. The contract claims what holds of every draw: nothing comes
/// out of an empty list, and otherwise one of its entries.
#[verifier::external_body]
fn choose_tip_address(addresses: &Vec<String>) -> (res: Option<&String>)
    ensures
        addresses@.len() == 0 <==> res is None,
        res matches Some(a) ==> addresses@.contains(*a),
{
    addresses.choose(&mut rand::thread_rng())
}

/// The tip addresses that may be drawn for a sender: none when it lists
/// none, and otherwise one of those it lists.
pub open spec fn tip_choice_allowed(addresses: Seq<String>, choice: Option<Seq<char>>) -> bool {
    match choice {
        None => addresses.len() == 0,
        Some(a) => exists|i: int| 0 <= i < addresses.len() && #[trigger] addresses[i]@ == a,
    }
}

/// The transaction built for a payer (by its secret key), a nonce account
/// and its blockhash, a sender and the tip address drawn for it: the
/// instructions of `spec_transaction_instructions` for the payer's address,
/// compiled into a v0 message with the lookup tables and the nonce's
/// blockhash, and signed by the payer. Instructions too long for the
/// message's lengths are refused, compilation can fail, and signing fails
/// when the message requires any signer besides the payer.
pub open spec fn spec_build_transaction(
    secret: Seq<u8>,
    nonce: Seq<u8>,
    blockhash: Seq<u8>,
    sender: Seq<char>,
    tip_address: Option<Seq<char>>,
    tip: Option<u64>,
    cu_limit: u32,
    cu_price: u64,
    jup_ixs: Seq<JupiterInstructionView>,
    tables: Seq<(Seq<u8>, Seq<Seq<u8>>)>,
) -> Result<SignedTransactionView, BuildErrorView> {
    let payer = keypair_address(secret);
    match spec_transaction_instructions(payer, nonce, sender, tip_address, tip, cu_limit, cu_price, jup_ixs) {
        Err(e) => Err(e),
        Ok(ixs) => if !fits_short_vec(ixs) {
            Err(BuildErrorView::MessageTooLarge)
        } else {
            match compiled_v0_message(payer, ixs, tables, blockhash) {
                None => Err(BuildErrorView::CompileFailed),
                Some((message, required)) => if required == 1 {
                    Ok(SignedTransactionView { signature: ed25519_signature(secret, message), message })
                } else {
                    Err(BuildErrorView::SigningFailed)
                },
            }
        },
    }
}

pub open spec fn build_result_view(r: Result<SignedTransaction, BuildError>) -> Result<SignedTransactionView, BuildErrorView> {
    match r {
        Ok(tx) => Ok(tx@),
        Err(e) => Err(e@),
    }
}

/// Builds and signs the benchmark transaction for one sender: the payer
/// (given by its secret key) pays and signs, the nonce account's durable
/// blockhash stands in for a recent one, and a tip address is drawn at
/// random from the sender's list when it has any. The result is exactly
/// `spec_build_transaction` for the address that was drawn.
pub fn build_transaction(
    payer_secret: &[u8; 32],
    nonce_info: &NonceInfo,
    sender_config: &SenderConfig,
    params: BuildParams,
) -> (res: Result<SignedTransaction, BuildError>)
    ensures
        exists|choice: Option<Seq<char>>|
            #[trigger] tip_choice_allowed(sender_config.tip_addresses@, choice) && build_result_view(res)
                == spec_build_transaction(
                payer_secret@,
                nonce_info.pubkey@,
                nonce_info.blockhash@,
                sender_config.name@,
                choice,
                params.tip,
                params.cu_limit,
                params.cu_price,
                jupiter_views(params.jup_ixs@),
                tables_view(params.lookup_tables@),
            ),
{
    let payer = payer_address(payer_secret);
    let tip_address = if sender_config.tip_addresses.len() > 0 {
        choose_tip_address(&sender_config.tip_addresses)
    } else {
        None
    };
    let ghost choice = opt_string_view(tip_address);
    proof {
        if let Some(a) = tip_address {
            let i = choose|i: int| 0 <= i < sender_config.tip_addresses@.len() && sender_config.tip_addresses@[i] == *a;
            assert(sender_config.tip_addresses@[i]@ == a@);
        }
        assert(tip_choice_allowed(sender_config.tip_addresses@, choice));
    }
    let instructions = match transaction_instructions(&payer, nonce_info, &sender_config.name, tip_address, &params) {
        Ok(ixs) => ixs,
        Err(e) => return Err(e),
    };
    if !instructions_fit(&instructions) {
        return Err(BuildError::MessageTooLarge);
    }
    let (message, required) = match compile_v0_message(&payer, &instructions, &params.lookup_tables, &nonce_info.blockhash) {
        Some(m) => m,
        None => return Err(BuildError::CompileFailed),
    };
    if required != 1 {
        return Err(BuildError::SigningFailed);
    }
    let signature = sign_message(payer_secret, message.as_slice());
    Ok(SignedTransaction { signature, message })
}

/// Reading the Jupiter instructions gives one instruction for each.
pub proof fn lemma_parse_keeps_count(ixs: Seq<JupiterInstructionView>)
    ensures
        spec_parse_jupiter_instructions(ixs) matches Ok(parsed) ==> parsed.len() == ixs.len(),
    decreases ixs.len(),
{
    if ixs.len() > 0 {
        lemma_parse_keeps_count(ixs.drop_last());
    }
}

/// The shape of every transaction that can be built: it advances the nonce
/// first and again last (so it fails on chain once it lands), sets the
/// compute unit limit and price next, carries every Jupiter instruction in
/// order, and pays the tip to the drawn address just before the final
/// advance exactly when an address was drawn and a tip is configured;
/// otherwise it has four instructions besides the Jupiter ones.
pub proof fn lemma_transaction_shape(
    payer: Seq<u8>,
    nonce: Seq<u8>,
    sender: Seq<char>,
    tip_address: Option<Seq<char>>,
    tip: Option<u64>,
    cu_limit: u32,
    cu_price: u64,
    jup_ixs: Seq<JupiterInstructionView>,
)
    requires
        spec_transaction_instructions(payer, nonce, sender, tip_address, tip, cu_limit, cu_price, jup_ixs) is Ok,
    ensures
        ({
            let ixs = spec_transaction_instructions(payer, nonce, sender, tip_address, tip, cu_limit, cu_price, jup_ixs)->Ok_0;
            let tipped = tip_address is Some && tip is Some;
            &&& ixs.len() == jup_ixs.len() + (if tipped { 5int } else { 4int })
            &&& ixs[0] == advance_nonce_instruction(nonce, payer)
            &&& ixs[1] == compute_unit_limit_instruction(cu_limit)
            &&& ixs[2] == compute_unit_price_instruction(cu_price)
            &&& ixs.last() == advance_nonce_instruction(nonce, payer)
            &&& spec_parse_jupiter_instructions(jup_ixs) matches Ok(parsed)
                && ixs.subrange(3, 3 + jup_ixs.len() as int) == parsed
            &&& (tipped ==> (base58_address(tip_address->0) matches Some(to)
                && ixs[ixs.len() - 2] == transfer_instruction(payer, to, tip->0)))
        }),
{
    lemma_parse_keeps_count(jup_ixs);
    let parsed = spec_parse_jupiter_instructions(jup_ixs)->Ok_0;
    let ixs = spec_transaction_instructions(payer, nonce, sender, tip_address, tip, cu_limit, cu_price, jup_ixs)->Ok_0;
    let head = seq![
        advance_nonce_instruction(nonce, payer),
        compute_unit_limit_instruction(cu_limit),
        compute_unit_price_instruction(cu_price),
    ];
    if tip_address is Some && tip is Some {
        let to = base58_address(tip_address->0)->Some_0;
        assert(ixs == head + parsed + seq![transfer_instruction(payer, to, tip->0), advance_nonce_instruction(nonce, payer)]);
    } else {
        assert(ixs == head + parsed + seq![advance_nonce_instruction(nonce, payer)]);
    }
    assert(ixs.subrange(3, 3 + jup_ixs.len() as int) =~= parsed);
}

/// What a built transaction is: the payer's signature over the message
/// compiled from the transaction's instructions, with the lookup tables and
/// the nonce's blockhash, for the payer's address, a message that requires
/// the payer's signature alone.
pub proof fn lemma_built_transaction(
    secret: Seq<u8>,
    nonce: Seq<u8>,
    blockhash: Seq<u8>,
    sender: Seq<char>,
    tip_address: Option<Seq<char>>,
    tip: Option<u64>,
    cu_limit: u32,
    cu_price: u64,
    jup_ixs: Seq<JupiterInstructionView>,
    tables: Seq<(Seq<u8>, Seq<Seq<u8>>)>,
)
    requires
        spec_build_transaction(secret, nonce, blockhash, sender, tip_address, tip, cu_limit, cu_price, jup_ixs, tables) is Ok,
    ensures
        ({
            let tx = spec_build_transaction(secret, nonce, blockhash, sender, tip_address, tip, cu_limit, cu_price, jup_ixs, tables)->Ok_0;
            let payer = keypair_address(secret);
            &&& spec_transaction_instructions(payer, nonce, sender, tip_address, tip, cu_limit, cu_price, jup_ixs) matches Ok(ixs)
                && compiled_v0_message(payer, ixs, tables, blockhash) == Some((tx.message, 1u8))
            &&& tx.signature == ed25519_signature(secret, tx.message)
        }),
{
}

/// Building does not depend on chance when the sender's tip addresses are
/// all the same (or there are none): only one address can be drawn.
pub proof fn lemma_single_tip_choice(addresses: Seq<String>, first: Option<Seq<char>>, second: Option<Seq<char>>)
    requires
        tip_choice_allowed(addresses, first),
        tip_choice_allowed(addresses, second),
        forall|i: int, j: int| 0 <= i < addresses.len() && 0 <= j < addresses.len() ==> #[trigger] addresses[i]@
            == #[trigger] addresses[j]@,
    ensures
        first == second,
{
    if let Some(a) = first {
        let i = choose|i: int| 0 <= i < addresses.len() && #[trigger] addresses[i]@ == a;
        if let Some(b) = second {
            let j = choose|j: int| 0 <= j < addresses.len() && #[trigger] addresses[j]@ == b;
            assert(addresses[i]@ == addresses[j]@);
        }
    }
}

/// Reading the Jupiter instructions keeps them in the order given: it
/// succeeds exactly when every one of them reads, and then the `i`-th
/// result is what the `i`-th instruction reads to; otherwise the error is
/// that of the first instruction that does not read.
pub proof fn lemma_instructions_read_in_order(ixs: Seq<JupiterInstructionView>)
    ensures
        spec_parse_jupiter_instructions(ixs) is Ok <==> forall|i: int| 0 <= i < ixs.len() ==> (#[trigger] spec_parse_jupiter_instruction(ixs[i])) is Ok,
        spec_parse_jupiter_instructions(ixs) matches Ok(parsed) ==> parsed.len() == ixs.len(),
        spec_parse_jupiter_instructions(ixs) matches Ok(parsed) ==> forall|i: int| 0 <= i < ixs.len()
            ==> #[trigger] spec_parse_jupiter_instruction(ixs[i]) == Ok::<InstructionView, BuildErrorView>(parsed[i]),
        spec_parse_jupiter_instructions(ixs) matches Err(e) ==> exists|k: int| {
            &&& 0 <= k < ixs.len()
            &&& #[trigger] spec_parse_jupiter_instruction(ixs[k]) == Err::<InstructionView, BuildErrorView>(e)
            &&& forall|j: int| 0 <= j < k ==> (#[trigger] spec_parse_jupiter_instruction(ixs[j])) is Ok
        },
    decreases ixs.len(),
{
    if ixs.len() > 0 {
        let prev = ixs.drop_last();
        let n = prev.len() as int;
        lemma_instructions_read_in_order(prev);
        assert forall|i: int| 0 <= i < prev.len() implies prev[i] == ixs[i] by {}
        assert(ixs[n] == ixs.last());
        match spec_parse_jupiter_instructions(prev) {
            Err(e) => {
                let k = choose|k: int| {
                    &&& 0 <= k < prev.len()
                    &&& #[trigger] spec_parse_jupiter_instruction(prev[k]) == Err::<InstructionView, BuildErrorView>(e)
                    &&& forall|j: int| 0 <= j < k ==> (#[trigger] spec_parse_jupiter_instruction(prev[j])) is Ok
                };
                assert(prev[k] == ixs[k]);
                assert forall|j: int| 0 <= j < k implies (#[trigger] spec_parse_jupiter_instruction(ixs[j])) is Ok by {
                    assert(prev[j] == ixs[j]);
                }
            },
            Ok(parsed) => {
                match spec_parse_jupiter_instruction(ixs.last()) {
                    Err(e) => {
                        assert forall|j: int| 0 <= j < n implies (#[trigger] spec_parse_jupiter_instruction(ixs[j])) is Ok by {
                            assert(prev[j] == ixs[j]);
                        }
                    },
                    Ok(ix) => {
                        let all = parsed.push(ix);
                        assert forall|i: int| 0 <= i < ixs.len() implies #[trigger] spec_parse_jupiter_instruction(ixs[i])
                            == Ok::<InstructionView, BuildErrorView>(all[i]) by {
                            if i < n {
                                assert(prev[i] == ixs[i]);
                            }
                        }
                    },
                }
            },
        }
    }
}

/// A transaction is refused as too large exactly when its instruction list
/// can be made but holds more than 65535 (`u16::MAX`) instructions, or an
/// instruction with more than 65535 accounts or data bytes: the most that a
/// `short_vec` length can count. No other input gives that error.
pub proof fn lemma_too_large_only_past_short_vec(
    secret: Seq<u8>,
    nonce: Seq<u8>,
    blockhash: Seq<u8>,
    sender: Seq<char>,
    tip_address: Option<Seq<char>>,
    tip: Option<u64>,
    cu_limit: u32,
    cu_price: u64,
    jup_ixs: Seq<JupiterInstructionView>,
    tables: Seq<(Seq<u8>, Seq<Seq<u8>>)>,
)
    ensures
        spec_build_transaction(secret, nonce, blockhash, sender, tip_address, tip, cu_limit, cu_price, jup_ixs, tables)
            == Err::<SignedTransactionView, BuildErrorView>(BuildErrorView::MessageTooLarge)
            <==> (spec_transaction_instructions(keypair_address(secret), nonce, sender, tip_address, tip, cu_limit, cu_price, jup_ixs) matches Ok(ixs)
            && (ixs.len() > u16::MAX || exists|i: int| 0 <= i < ixs.len() && ((#[trigger] ixs[i]).accounts.len() > u16::MAX || ixs[i].data.len() > u16::MAX))),
{
    lemma_instructions_read_in_order(jup_ixs);
    if let Err(e) = spec_parse_jupiter_instructions(jup_ixs) {
        let k = choose|k: int| {
            &&& 0 <= k < jup_ixs.len()
            &&& #[trigger] spec_parse_jupiter_instruction(jup_ixs[k]) == Err::<InstructionView, BuildErrorView>(e)
            &&& forall|j: int| 0 <= j < k ==> (#[trigger] spec_parse_jupiter_instruction(jup_ixs[j])) is Ok
        };
        lemma_instruction_read(jup_ixs[k]);
    }
}

} // verus!
